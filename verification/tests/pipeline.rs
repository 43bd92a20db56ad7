use ip_poller::domain::{parse_ipv4, Ipv4Address, PollingRecord};
use ip_poller::error::Error;
use ip_poller::source::{extract_address, parse_page};
use ip_poller::store::record_row;
use ip_poller::usecase::{next_action, on_fetched, on_fetched_at, on_stored, RunAction, RunState};

fn addr(o0: u8, o1: u8, o2: u8, o3: u8) -> Ipv4Address {
    Ipv4Address { o0, o1, o2, o3 }
}

#[test]
fn parse_ipv4_accepts_plain_address() {
    assert_eq!(parse_ipv4(b"93.184.216.34".as_slice()), Some(addr(93, 184, 216, 34)));
    assert_eq!(parse_ipv4(b"0.0.0.0".as_slice()), Some(addr(0, 0, 0, 0)));
    assert_eq!(parse_ipv4(b"255.255.255.255".as_slice()), Some(addr(255, 255, 255, 255)));
    assert_eq!(parse_ipv4(b"203.0.113.7".as_slice()), Some(addr(203, 0, 113, 7)));
}

#[test]
fn parse_ipv4_rejects_octet_over_255() {
    assert_eq!(parse_ipv4(b"999.1.1.1".as_slice()), None);
    assert_eq!(parse_ipv4(b"1.2.3.256".as_slice()), None);
}

#[test]
fn parse_ipv4_rejects_non_numeric_text() {
    assert_eq!(parse_ipv4(b"abc".as_slice()), None);
    assert_eq!(parse_ipv4(b"1.2.3.x".as_slice()), None);
    assert_eq!(parse_ipv4(b"".as_slice()), None);
    assert_eq!(parse_ipv4(b" 1.2.3.4".as_slice()), None);
    assert_eq!(parse_ipv4(b"1.2.3.4 ".as_slice()), None);
}

#[test]
fn parse_ipv4_rejects_wrong_segment_count() {
    assert_eq!(parse_ipv4(b"1.2.3".as_slice()), None);
    assert_eq!(parse_ipv4(b"1.2.3.4.5".as_slice()), None);
    assert_eq!(parse_ipv4(b"1.2.3.".as_slice()), None);
    assert_eq!(parse_ipv4(b".1.2.3".as_slice()), None);
    assert_eq!(parse_ipv4(b"1..2.3".as_slice()), None);
}

#[test]
fn parse_ipv4_rejects_redundant_leading_zero() {
    assert_eq!(parse_ipv4(b"01.2.3.4".as_slice()), None);
    assert_eq!(parse_ipv4(b"1.2.3.007".as_slice()), None);
    assert_eq!(parse_ipv4(b"0.00.0.0".as_slice()), None);
}

#[test]
fn parse_ipv4_rejects_overlong_octet() {
    assert_eq!(parse_ipv4(b"1234.1.1.1".as_slice()), None);
}

#[test]
fn bits_is_big_endian_integer_encoding() {
    assert_eq!(addr(203, 0, 113, 7).bits(), 0xCB00_7107);
    assert_eq!(addr(203, 0, 113, 7).bits(), 3_405_803_783);
    assert_eq!(addr(0, 0, 0, 1).bits(), 1);
    assert_eq!(addr(255, 255, 255, 255).bits(), u32::MAX);
}

#[test]
fn from_octets_builds_the_address() {
    assert_eq!(Ipv4Address::from_octets(10, 0, 0, 1), addr(10, 0, 0, 1));
}

#[test]
fn page_with_one_matching_element_yields_its_address() {
    let html = "<html><body><div class=\"outIp\">93.184.216.34</div></body></html>";
    assert_eq!(parse_page(html), Ok(addr(93, 184, 216, 34)));
}

#[test]
fn page_with_no_matching_element_is_spec_changed() {
    let html = "<html><body><div class=\"other\">1.2.3.4</div></body></html>";
    assert_eq!(parse_page(html), Err(Error::ExternalServiceSpecChanged));
    assert_eq!(parse_page(""), Err(Error::ExternalServiceSpecChanged));
}

#[test]
fn page_with_malformed_address_text_is_spec_changed() {
    let html = "<html><body><div class=\"outIp\">999.1.1.1</div></body></html>";
    assert_eq!(parse_page(html), Err(Error::ExternalServiceSpecChanged));
    let html2 = "<html><body><div class=\"outIp\">abc</div></body></html>";
    assert_eq!(parse_page(html2), Err(Error::ExternalServiceSpecChanged));
}

#[test]
fn first_matching_element_wins() {
    let html = "<html><body>\
        <div class=\"outIp\">203.0.113.7</div>\
        <div class=\"outIp\">10.0.0.1</div>\
        </body></html>";
    assert_eq!(parse_page(html), Ok(addr(203, 0, 113, 7)));
}

#[test]
fn first_match_decides_even_when_invalid() {
    let html = "<html><body>\
        <div class=\"outIp\">not-an-address</div>\
        <div class=\"outIp\">10.0.0.1</div>\
        </body></html>";
    assert_eq!(parse_page(html), Err(Error::ExternalServiceSpecChanged));
}

#[test]
fn extract_address_reads_first_candidate_only() {
    let texts: Vec<Vec<u8>> = vec![b"198.51.100.9".to_vec(), b"10.0.0.1".to_vec()];
    assert_eq!(extract_address(&texts), Ok(addr(198, 51, 100, 9)));
    let none: Vec<Vec<u8>> = Vec::new();
    assert_eq!(extract_address(&none), Err(Error::ExternalServiceSpecChanged));
    let bad: Vec<Vec<u8>> = vec![b"abc".to_vec()];
    assert_eq!(extract_address(&bad), Err(Error::ExternalServiceSpecChanged));
}

#[test]
fn record_row_encodes_address_and_keeps_timestamp() {
    let record = PollingRecord { address: addr(203, 0, 113, 7), timestamp: 1_700_000_000 };
    assert_eq!(record_row(&record), (0xCB00_7107, 1_700_000_000));
}

#[test]
fn successful_run_stores_fetched_address_then_finishes() {
    let fetched_address = addr(203, 0, 113, 7);
    let state = RunState::Start;
    assert_eq!(next_action(&state), RunAction::DoFetch);
    let state = on_fetched_at(&state, Ok(fetched_address), 1_700_000_000);
    let expected = PollingRecord { address: fetched_address, timestamp: 1_700_000_000 };
    assert_eq!(state, RunState::Pending(expected));
    assert_eq!(next_action(&state), RunAction::DoStore(expected));
    let state = on_stored(&state, Ok(()));
    assert_eq!(state, RunState::Done);
    assert_eq!(next_action(&state), RunAction::Finish(Ok(())));
}

#[test]
fn failed_fetch_fails_run_with_same_kind_and_no_store() {
    let state = RunState::Start;
    let state = on_fetched_at(&state, Err(Error::ExternalServiceUnavailable), 1_700_000_000);
    assert_eq!(state, RunState::Failed(Error::ExternalServiceUnavailable));
    assert!(!matches!(next_action(&state), RunAction::DoStore(_)));
    assert_eq!(
        next_action(&state),
        RunAction::Finish(Err(Error::ExternalServiceUnavailable))
    );
}

#[test]
fn failed_store_fails_run_with_same_kind() {
    let record = PollingRecord { address: addr(10, 0, 0, 1), timestamp: 1 };
    let pending = RunState::Pending(record);
    let state = on_stored(&pending, Err(Error::LocalSettingInvalid));
    assert_eq!(state, RunState::Failed(Error::LocalSettingInvalid));
    assert_eq!(
        next_action(&state),
        RunAction::Finish(Err(Error::LocalSettingInvalid))
    );
    let state = on_stored(&pending, Err(Error::StorageWriteFailed));
    assert_eq!(state, RunState::Failed(Error::StorageWriteFailed));
}

#[test]
fn on_fetched_stamps_a_pending_record_with_the_fetched_address() {
    let state = RunState::Start;
    let fetched_address = addr(198, 51, 100, 23);
    match on_fetched(&state, Ok(fetched_address)) {
        RunState::Pending(record) => assert_eq!(record.address, fetched_address),
        other => panic!("expected a pending record, got {:?}", other),
    }
    let failed = on_fetched(&state, Err(Error::ExternalServiceSpecChanged));
    assert_eq!(failed, RunState::Failed(Error::ExternalServiceSpecChanged));
}
