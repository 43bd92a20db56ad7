//! The domain data model: an IPv4 address as four octets, and the polling
//! record persisted by a run.

use vstd::prelude::*;

verus! {

/// A 32-bit IPv4 address, held as its four dotted-decimal octets in document
/// order (`o0` is the leftmost octet).
#[derive(Clone, Copy, Debug, PartialEq, Eq, Hash)]
pub struct Ipv4Address {
    pub o0: u8,
    pub o1: u8,
    pub o2: u8,
    pub o3: u8,
}

impl Ipv4Address {
    /// The address as one 32-bit value, leftmost octet in the most
    /// significant byte (the usual big-endian integer encoding).
    pub open spec fn spec_bits(self) -> u32 {
        ((self.o0 as int) * 0x1000000 + (self.o1 as int) * 0x10000 + (self.o2 as int) * 0x100
            + (self.o3 as int)) as u32
    }

    pub fn from_octets(o0: u8, o1: u8, o2: u8, o3: u8) -> (r: Self)
        ensures
            r == (Ipv4Address { o0, o1, o2, o3 }),
    {
        Ipv4Address { o0, o1, o2, o3 }
    }

    /// The integer encoding under which the address is persisted.
    pub fn bits(&self) -> (r: u32)
        ensures
            r == self.spec_bits(),
    {
        (self.o0 as u32) * 0x1000000 + (self.o1 as u32) * 0x10000 + (self.o2 as u32) * 0x100
            + (self.o3 as u32)
    }
}

/// The byte that separates the octets of a dotted-decimal address literal.
pub const DOT: u8 = 46;

/// The byte value of the decimal digit zero.
pub const DIGIT_ZERO: u8 = 48;

pub open spec fn is_dec_digit(b: u8) -> bool {
    48 <= b && b <= 57
}

pub open spec fn digit_val(b: u8) -> int {
    b as int - 48
}

pub open spec fn all_dec_digits(s: Seq<u8>) -> bool {
    forall|i: int| 0 <= i < s.len() ==> is_dec_digit(s[i])
}

/// The value denoted by a sequence of decimal digit bytes, most significant
/// digit first.
pub open spec fn dec_val(s: Seq<u8>) -> int
    decreases s.len(),
{
    if s.len() == 0 {
        0
    } else {
        dec_val(s.drop_last()) * 10 + digit_val(s.last())
    }
}

/// Whether a byte sequence is a well-formed decimal octet of an IPv4 address
/// literal: one to three digits, no redundant leading zero, value at most 255.
pub open spec fn valid_octet(s: Seq<u8>) -> bool {
    &&& 1 <= s.len() <= 3
    &&& all_dec_digits(s)
    &&& (s.len() > 1 ==> s[0] != DIGIT_ZERO)
    &&& dec_val(s) <= 255
}

/// With at most three digits, the denoted value fits well below 1000.
proof fn lemma_dec_val_bounds(s: Seq<u8>)
    requires
        all_dec_digits(s),
        s.len() <= 3,
    ensures
        0 <= dec_val(s),
        s.len() == 1 ==> dec_val(s) <= 9,
        s.len() == 2 ==> dec_val(s) <= 99,
        s.len() == 3 ==> dec_val(s) <= 999,
    decreases s.len(),
{
    if s.len() > 0 {
        assert(all_dec_digits(s.drop_last()));
        lemma_dec_val_bounds(s.drop_last());
    }
}

/// Parses the bytes of `s` between `start` and `end` as one decimal octet.
fn parse_octet(s: &[u8], start: usize, end: usize) -> (r: Option<u8>)
    requires
        start <= end <= s@.len(),
    ensures
        r is Some <==> valid_octet(s@.subrange(start as int, end as int)),
        r matches Some(v) ==> v as int == dec_val(s@.subrange(start as int, end as int)),
{
    let ghost seg = s@.subrange(start as int, end as int);
    let len: usize = end - start;
    if len == 0 || len > 3 {
        return None;
    }
    if len > 1 && s[start] == DIGIT_ZERO {
        return None;
    }
    let mut val: u32 = 0;
    let mut j: usize = start;
    while j < end
        invariant
            start <= j <= end <= s@.len(),
            end - start <= 3,
            seg == s@.subrange(start as int, end as int),
            all_dec_digits(s@.subrange(start as int, j as int)),
            val == dec_val(s@.subrange(start as int, j as int)),
        decreases end - j,
    {
        let b: u8 = s[j];
        if b < 48 || b > 57 {
            proof {
                assert(seg[j - start] == b);
                assert(!is_dec_digit(seg[j - start]));
            }
            return None;
        }
        proof {
            let pre = s@.subrange(start as int, j as int);
            lemma_dec_val_bounds(pre);
            assert(s@.subrange(start as int, j + 1) =~= pre.push(s@[j as int]));
            assert(s@.subrange(start as int, j + 1).drop_last() =~= pre);
        }
        val = val * 10 + ((b - 48) as u32);
        j = j + 1;
    }
    proof {
        assert(seg =~= s@.subrange(start as int, end as int));
        lemma_dec_val_bounds(seg);
    }
    if val > 255 {
        return None;
    }
    Some(val as u8)
}

/// The segments of `s` between its dot bytes, in order. A sequence with no
/// dot is one segment; every dot separates two (possibly empty) segments.
pub open spec fn split_dots(s: Seq<u8>) -> Seq<Seq<u8>>
    decreases s.len(),
{
    if s.len() == 0 {
        seq![Seq::<u8>::empty()]
    } else if s[0] == DOT {
        seq![Seq::<u8>::empty()] + split_dots(s.drop_first())
    } else {
        let rest = split_dots(s.drop_first());
        seq![seq![s[0]] + rest[0]] + rest.drop_first()
    }
}

proof fn lemma_split_dots_nonempty(s: Seq<u8>)
    ensures
        split_dots(s).len() >= 1,
    decreases s.len(),
{
    if s.len() > 0 {
        lemma_split_dots_nonempty(s.drop_first());
    }
}

/// A sequence without dots is exactly one segment: itself.
proof fn lemma_split_dots_no_dot(s: Seq<u8>)
    requires
        forall|m: int| 0 <= m < s.len() ==> s[m] != DOT,
    ensures
        split_dots(s) == seq![s],
    decreases s.len(),
{
    if s.len() == 0 {
        assert(split_dots(s) =~~= seq![s]);
    } else {
        lemma_split_dots_no_dot(s.drop_first());
        assert(seq![s[0]] + s.drop_first() =~= s);
        assert(split_dots(s) =~~= seq![s]);
    }
}

/// Splitting at the first dot: everything before it is the first segment, and
/// the rest of the segments are those of what follows it.
proof fn lemma_split_dots_first_dot(s: Seq<u8>, i: int)
    requires
        0 <= i < s.len(),
        s[i] == DOT,
        forall|m: int| 0 <= m < i ==> s[m] != DOT,
    ensures
        split_dots(s) == seq![s.take(i)] + split_dots(s.skip(i + 1)),
    decreases i,
{
    if i == 0 {
        assert(s.take(0) =~= Seq::<u8>::empty());
        assert(s.skip(1) =~= s.drop_first());
        assert(split_dots(s) =~~= seq![s.take(0)] + split_dots(s.skip(1)));
    } else {
        let t = s.drop_first();
        lemma_split_dots_first_dot(t, i - 1);
        lemma_split_dots_nonempty(t.skip(i));
        assert(t.take(i - 1) =~= s.subrange(1, i));
        assert(t.skip(i) =~= s.skip(i + 1));
        let rest = split_dots(t);
        assert(rest == seq![s.subrange(1, i)] + split_dots(s.skip(i + 1)));
        assert(rest[0] == s.subrange(1, i));
        assert(rest.drop_first() =~= split_dots(s.skip(i + 1)));
        assert(seq![s[0]] + s.subrange(1, i) =~= s.take(i));
        assert(split_dots(s) =~~= seq![s.take(i)] + split_dots(s.skip(i + 1)));
    }
}

/// The meaning of a dotted-decimal IPv4 address literal: exactly four
/// dot-separated segments, each a well-formed decimal octet; the address is
/// the octet values in order. Anything else denotes no address.
pub open spec fn spec_parse_ipv4(s: Seq<u8>) -> Option<Ipv4Address> {
    let parts = split_dots(s);
    if parts.len() == 4 && valid_octet(parts[0]) && valid_octet(parts[1]) && valid_octet(parts[2])
        && valid_octet(parts[3]) {
        Some(
            Ipv4Address {
                o0: dec_val(parts[0]) as u8,
                o1: dec_val(parts[1]) as u8,
                o2: dec_val(parts[2]) as u8,
                o3: dec_val(parts[3]) as u8,
            },
        )
    } else {
        None
    }
}

/// Parses a dotted-decimal IPv4 address literal, as the text of the remote
/// page presents one. Accepts exactly the byte strings that denote an
/// address under `spec_parse_ipv4`: four octets of one to three decimal
/// digits each, no redundant leading zeros, each at most 255.
pub fn parse_ipv4(s: &[u8]) -> (r: Option<Ipv4Address>)
    ensures
        r == spec_parse_ipv4(s@),
{
    let n: usize = s.len();
    let ghost parts = split_dots(s@);
    let mut count: usize = 0;
    let mut o0: u8 = 0;
    let mut o1: u8 = 0;
    let mut o2: u8 = 0;
    let mut start: usize = 0;
    let mut i: usize = 0;
    proof {
        assert(s@.skip(0) =~= s@);
        assert(parts.skip(0) =~= parts);
    }
    while i < n
        invariant
            n == s@.len(),
            start <= i <= n,
            count <= 3,
            parts == split_dots(s@),
            forall|m: int| start <= m < i ==> s@[m] != DOT,
            split_dots(s@.skip(start as int)) == parts.skip(count as int),
            parts.len() == count + split_dots(s@.skip(start as int)).len(),
            count >= 1 ==> valid_octet(parts[0]) && o0 as int == dec_val(parts[0]),
            count >= 2 ==> valid_octet(parts[1]) && o1 as int == dec_val(parts[1]),
            count >= 3 ==> valid_octet(parts[2]) && o2 as int == dec_val(parts[2]),
        decreases n - i,
    {
        if s[i] == DOT {
            proof {
                let suffix = s@.skip(start as int);
                let seg = s@.subrange(start as int, i as int);
                lemma_split_dots_first_dot(suffix, i - start);
                assert(suffix.take(i - start) =~= seg);
                assert(suffix.skip(i - start + 1) =~= s@.skip(i + 1));
                lemma_split_dots_nonempty(s@.skip(i + 1));
                assert(split_dots(suffix) == seq![seg] + split_dots(s@.skip(i + 1)));
                assert(parts.skip(count as int)[0] == seg);
                assert(parts.skip(count as int)[0] == parts[count as int]);
            }
            if count == 3 {
                // a fourth separator: at least five segments, so no address
                return None;
            }
            let v: u8 = match parse_octet(s, start, i) {
                Some(v) => v,
                None => {
                    return None;
                },
            };
            if count == 0 {
                o0 = v;
            } else if count == 1 {
                o1 = v;
            } else {
                o2 = v;
            }
            proof {
                assert(parts.skip(count as int).drop_first() =~= parts.skip(count + 1));
            }
            count = count + 1;
            start = i + 1;
        }
        i = i + 1;
    }
    proof {
        let seg = s@.subrange(start as int, n as int);
        lemma_split_dots_no_dot(s@.skip(start as int));
        assert(s@.skip(start as int) =~= seg);
        assert(parts.skip(count as int) == seq![seg]);
        assert(parts.skip(count as int)[0] == seg);
        assert(parts.skip(count as int)[0] == parts[count as int]);
    }
    if count != 3 {
        return None;
    }
    let v3: u8 = match parse_octet(s, start, n) {
        Some(v) => v,
        None => {
            return None;
        },
    };
    proof {
        lemma_dec_val_bounds(parts[0]);
        lemma_dec_val_bounds(parts[1]);
        lemma_dec_val_bounds(parts[2]);
        lemma_dec_val_bounds(parts[3]);
    }
    Some(Ipv4Address { o0, o1, o2, o3: v3 })
}

/// The persisted unit of a run: the fetched address and the UTC instant,
/// as seconds since the Unix epoch, at which it was fetched.
#[derive(Clone, Copy, Debug, PartialEq, Eq)]
pub struct PollingRecord {
    pub address: Ipv4Address,
    pub timestamp: i64,
}

} // verus!
