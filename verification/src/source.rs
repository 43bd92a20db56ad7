//! The IP source: locates the address element in the fetched page's markup
//! and reads its text as a dotted-decimal IPv4 address.
//!
//! The structure of the remote page is knowledge private to this module: no
//! other module depends on the selector or on how the markup is searched.

use vstd::prelude::*;

use crate::domain::{spec_parse_ipv4, parse_ipv4, Ipv4Address};
use crate::error::Error;

verus! {

/// Whether a CSS selector string is well-formed, as the selector parser of
/// the `scraper` crate decides it.
pub uninterp spec fn css_selector_ok(selector: Seq<char>) -> bool;

/// The inner markup, as UTF-8 bytes, of each element of an HTML document
/// that matches a CSS selector, in the order the `scraper` crate walks the
/// parsed document. A pure function of the document text and the selector.
pub uninterp spec fn css_inner_texts(html: Seq<char>, selector: Seq<char>) -> Seq<Seq<u8>>;

/// Relies on `scraper::Selector::parse` (whether the selector is
/// well-formed), `scraper::Html::parse_document`, `scraper::Html::select`
/// and `scraper::ElementRef::inner_html` (the inner markup of each matching
/// element, in document-walk order).
#[verifier::external_body]
fn select_inner_texts(html: &str, selector: &str) -> (r: Option<Vec<Vec<u8>>>)
    ensures
        r is Some <==> css_selector_ok(selector@),
        r matches Some(texts) ==> texts.deep_view() == css_inner_texts(html@, selector@),
{
    match scraper::Selector::parse(selector) {
        Err(_) => None,
        Ok(sel) => {
            let doc = scraper::Html::parse_document(html);
            let mut out: Vec<Vec<u8>> = Vec::new();
            for element in doc.select(&sel) {
                out.push(element.inner_html().into_bytes());
            }
            Some(out)
        },
    }
}

/// The selector that identifies the address element of the remote page.
pub open spec fn address_selector() -> Seq<char> {
    "div.outIp"@
}

/// What the source makes of the matched texts: the first match, and only
/// the first, is read as a dotted-decimal address. No match at all, or a
/// first match that denotes no address, means the page no longer has the
/// expected structure.
pub open spec fn spec_extract_address(texts: Seq<Seq<u8>>) -> Result<Ipv4Address, Error> {
    if texts.len() == 0 {
        Err(Error::ExternalServiceSpecChanged)
    } else {
        match spec_parse_ipv4(texts[0]) {
            Some(address) => Ok(address),
            None => Err(Error::ExternalServiceSpecChanged),
        }
    }
}

/// Reads the fetched address out of the candidate texts, first match only.
pub fn extract_address(texts: &Vec<Vec<u8>>) -> (r: Result<Ipv4Address, Error>)
    ensures
        r == spec_extract_address(texts.deep_view()),
{
    proof {
        assert(texts.deep_view().len() == texts@.len());
    }
    if texts.len() == 0 {
        Err(Error::ExternalServiceSpecChanged)
    } else {
        proof {
            assert(texts.deep_view()[0] =~= texts@[0]@);
        }
        match parse_ipv4(texts[0].as_slice()) {
            Some(address) => Ok(address),
            None => Err(Error::ExternalServiceSpecChanged),
        }
    }
}

/// Parses the body of the fetched page and extracts the address: the text of
/// the first element matching the address selector, read as a dotted-decimal
/// IPv4 address. Fails with `ExternalServiceSpecChanged` when the page does
/// not have the expected structure.
pub fn parse_page(html: &str) -> (r: Result<Ipv4Address, Error>)
    ensures
        css_selector_ok(address_selector()) ==> r == spec_extract_address(
            css_inner_texts(html@, address_selector()),
        ),
        !css_selector_ok(address_selector()) ==> r == Err::<Ipv4Address, Error>(
            Error::ExternalServiceSpecChanged,
        ),
{
    match select_inner_texts(html, "div.outIp") {
        None => Err(Error::ExternalServiceSpecChanged),
        Some(texts) => extract_address(&texts),
    }
}

/// A document whose selector matches exactly one element, whose text denotes
/// an address, yields exactly that address.
pub proof fn lemma_single_valid_candidate(texts: Seq<Seq<u8>>, address: Ipv4Address)
    requires
        texts.len() == 1,
        spec_parse_ipv4(texts[0]) == Some(address),
    ensures
        spec_extract_address(texts) == Ok::<Ipv4Address, Error>(address),
{
}

/// A document with no matching element fails as a changed page structure.
pub proof fn lemma_no_candidates(texts: Seq<Seq<u8>>)
    requires
        texts.len() == 0,
    ensures
        spec_extract_address(texts) == Err::<Ipv4Address, Error>(
            Error::ExternalServiceSpecChanged,
        ),
{
}

/// A first matched text that denotes no valid address fails as a changed
/// page structure, whatever follows it.
pub proof fn lemma_invalid_candidate(texts: Seq<Seq<u8>>)
    requires
        texts.len() >= 1,
        spec_parse_ipv4(texts[0]) is None,
    ensures
        spec_extract_address(texts) == Err::<Ipv4Address, Error>(
            Error::ExternalServiceSpecChanged,
        ),
{
}

/// With several matching elements, the first in order decides alone: later
/// matches, valid or not, change nothing.
pub proof fn lemma_first_candidate_wins(texts: Seq<Seq<u8>>, address: Ipv4Address)
    requires
        texts.len() >= 1,
        spec_parse_ipv4(texts[0]) == Some(address),
    ensures
        spec_extract_address(texts) == Ok::<Ipv4Address, Error>(address),
{
}

} // verus!
