//! Address matching: a policy term against the address of a client, by text
//! for a bare address and by range for an address with a prefix length.
//!
//! An IPv4 address is its 32-bit number and an IPv6 address its 128-bit
//! number, the first octet of the address being the most significant.

use vstd::prelude::*;
use vstd::string::*;
use crate::text::{chars_of, find_char, is_first_at, same_text};

verus! {

/// The number that a run of decimal digits stands for.
pub open spec fn digits_value(s: Seq<char>) -> nat
    decreases s.len(),
{
    if s.len() == 0 {
        0
    } else {
        digits_value(s.drop_last()) * 10 + (s.last() as nat - 48) as nat
    }
}

/// Every character is one of `0` to `9`.
pub open spec fn all_digits(s: Seq<char>) -> bool {
    forall|i: int| 0 <= i < s.len() ==> 48 <= #[trigger] (s[i] as u32) <= 57
}

/// The prefix length that a text stands for: an optional `+`, then one or
/// more decimal digits whose value fits in eight bits. Nothing else is a
/// prefix length.
pub open spec fn u8_of_text(s: Seq<char>) -> Option<u8> {
    let digits = if s.len() > 0 && s[0] == '+' {
        s.subrange(1, s.len() as int)
    } else {
        s
    };
    if digits.len() > 0 && all_digits(digits) && digits_value(digits) <= 255 {
        Some(digits_value(digits) as u8)
    } else {
        None
    }
}

/// The IPv4 address that a text stands for in dotted notation, or nothing
/// where the text is no such address.
pub uninterp spec fn ipv4_of_text(s: Seq<char>) -> Option<u32>;

/// The IPv6 address that a text stands for in colon notation, or nothing
/// where the text is no such address.
pub uninterp spec fn ipv6_of_text(s: Seq<char>) -> Option<u128>;

/// The bits of an IPv4 address that a prefix of `len` bits leaves to the host.
pub open spec fn host_mask_v4(len: u8) -> u32 {
    if len < 32 {
        !0u32 >> (len as u32)
    } else {
        0u32
    }
}

/// The bits of an IPv6 address that a prefix of `len` bits leaves to the host.
pub open spec fn host_mask_v6(len: u8) -> u128 {
    if len < 128 {
        !0u128 >> (len as u128)
    } else {
        0u128
    }
}

/// What the range type of the `cidr` crate answers: `base` with a prefix of
/// `len` bits is a range that it accepts, and `cand` lies in it. It accepts a
/// length of at most 32 with a base that has no host bit set, and the range
/// holds the addresses that agree with the base on the network bits.
pub open spec fn in_range_v4(base: u32, len: u8, cand: u32) -> bool {
    &&& len <= 32
    &&& base & host_mask_v4(len) == 0
    &&& base & !host_mask_v4(len) == cand & !host_mask_v4(len)
}

/// What the range type of the `cidr` crate answers for IPv6: a length of at
/// most 128, a base that has no host bit set, and agreement on the network
/// bits.
pub open spec fn in_range_v6(base: u128, len: u8, cand: u128) -> bool {
    &&& len <= 128
    &&& base & host_mask_v6(len) == 0
    &&& base & !host_mask_v6(len) == cand & !host_mask_v6(len)
}

/// The range test on the two halves of a term once they are read: a half
/// that could not be read, or a length beyond 32, is no match; otherwise the
/// client matches where it agrees with the address of the term on the first
/// `len` bits. Host bits set in the address of the term do not matter.
pub open spec fn range_match_v4(prefix: Option<u8>, base: Option<u32>, cand: u32) -> bool {
    match (prefix, base) {
        (Some(len), Some(b)) => len <= 32 && b & !host_mask_v4(len) == cand & !host_mask_v4(len),
        _ => false,
    }
}

/// The range test on the two halves of an IPv6 term once they are read, with
/// 128 in the place of 32.
pub open spec fn range_match_v6(prefix: Option<u8>, base: Option<u128>, cand: u128) -> bool {
    match (prefix, base) {
        (Some(len), Some(b)) => len <= 128 && b & !host_mask_v6(len) == cand & !host_mask_v6(
            len,
        ),
        _ => false,
    }
}

/// The part of a term before its first `/`.
pub open spec fn address_part(term: Seq<char>) -> Seq<char> {
    term.subrange(0, choose|i: int| is_first_at(term, '/', i))
}

/// The part of a term after its first `/`.
pub open spec fn prefix_part(term: Seq<char>) -> Seq<char> {
    term.subrange((choose|i: int| is_first_at(term, '/', i)) + 1, term.len() as int)
}

/// Whether an IPv4 term matches a client: a term without `/` by equality
/// with the client's text; a term with exactly one `/` by the range test on
/// its two halves; a term with more than one `/` never.
pub open spec fn match_ipv4_spec(term: Seq<char>, cand: u32, cand_text: Seq<char>) -> bool {
    if !term.contains('/') {
        term == cand_text
    } else {
        &&& !prefix_part(term).contains('/')
        &&& range_match_v4(u8_of_text(prefix_part(term)), ipv4_of_text(address_part(term)), cand)
    }
}

/// Whether an IPv6 term matches a client, in the same three cases.
pub open spec fn match_ipv6_spec(term: Seq<char>, cand: u128, cand_text: Seq<char>) -> bool {
    if !term.contains('/') {
        term == cand_text
    } else {
        &&& !prefix_part(term).contains('/')
        &&& range_match_v6(u8_of_text(prefix_part(term)), ipv6_of_text(address_part(term)), cand)
    }
}

/// `str::parse::<u8>` of std. Trusted: it accepts an optional `+` followed by
/// one or more decimal digits whose value is at most 255, and nothing else.
#[verifier::external_body]
pub(crate) fn parse_prefix_len(s: &str) -> (r: Option<u8>)
    ensures
        r == u8_of_text(s@),
{
    s.parse::<u8>().ok()
}

/// `str::parse` into the address type of `cidr::Ipv4Cidr`, which is std's
/// IPv4 address, then `u32::from`. Trusted: the result depends on the text
/// alone.
#[verifier::external_body]
pub(crate) fn parse_ipv4(s: &str) -> (r: Option<u32>)
    ensures
        r == ipv4_of_text(s@),
{
    match s.parse::<<cidr::Ipv4Cidr as cidr::Cidr>::Address>() {
        Ok(a) => Some(u32::from(a)),
        Err(_) => None,
    }
}

/// `str::parse` into the address type of `cidr::Ipv6Cidr`, which is std's
/// IPv6 address, then `u128::from`. Trusted: the result depends on the text
/// alone.
#[verifier::external_body]
pub(crate) fn parse_ipv6(s: &str) -> (r: Option<u128>)
    ensures
        r == ipv6_of_text(s@),
{
    match s.parse::<<cidr::Ipv6Cidr as cidr::Cidr>::Address>() {
        Ok(a) => Some(u128::from(a)),
        Err(_) => None,
    }
}

/// `cidr::Ipv4Cidr::new` and `Ipv4Cidr::contains`. Trusted: `new` refuses a
/// length over 32 and a base with a host bit set; `contains` compares the
/// network bits of the two addresses.
#[verifier::external_body]
pub(crate) fn cidr_v4_contains(base: u32, len: u8, cand: u32) -> (r: bool)
    ensures
        r == in_range_v4(base, len, cand),
{
    match cidr::Ipv4Cidr::new(base.into(), len) {
        Ok(range) => range.contains(&cand.into()),
        Err(_) => false,
    }
}

/// `cidr::Ipv6Cidr::new` and `Ipv6Cidr::contains`. Trusted: `new` refuses a
/// length over 128 and a base with a host bit set; `contains` compares the
/// network bits of the two addresses.
#[verifier::external_body]
pub(crate) fn cidr_v6_contains(base: u128, len: u8, cand: u128) -> (r: bool)
    ensures
        r == in_range_v6(base, len, cand),
{
    match cidr::Ipv6Cidr::new(base.into(), len) {
        Ok(range) => range.contains(&cand.into()),
        Err(_) => false,
    }
}

/// The range test of an IPv4 term whose halves have been read. The range
/// is built on the network address of the term: its host bits are cleared
/// first, so that a term such as `203.0.113.5/24` stands for its network.
pub fn decide_v4(prefix: Option<u8>, base: Option<u32>, cand: u32) -> (r: bool)
    ensures
        r == range_match_v4(prefix, base, cand),
        r ==> prefix is Some && base is Some && prefix->Some_0 <= 32,
{
    match (prefix, base) {
        (Some(len), Some(b)) => {
            if len > 32 {
                return false;
            }
            let host: u32 = if len < 32 {
                !0u32 >> (len as u32)
            } else {
                0u32
            };
            let network: u32 = b & !host;
            assert(network & host == 0 && network & !host == b & !host) by (bit_vector)
                requires
                    network == b & !host,
            ;
            cidr_v4_contains(network, len, cand)
        },
        _ => false,
    }
}

/// The range test of an IPv6 term whose halves have been read. The range
/// is built on the network address of the term, as for IPv4.
pub fn decide_v6(prefix: Option<u8>, base: Option<u128>, cand: u128) -> (r: bool)
    ensures
        r == range_match_v6(prefix, base, cand),
        r ==> prefix is Some && base is Some && prefix->Some_0 <= 128,
{
    match (prefix, base) {
        (Some(len), Some(b)) => {
            if len > 128 {
                return false;
            }
            let host: u128 = if len < 128 {
                !0u128 >> (len as u128)
            } else {
                0u128
            };
            let network: u128 = b & !host;
            assert(network & host == 0 && network & !host == b & !host) by (bit_vector)
                requires
                    network == b & !host,
            ;
            cidr_v6_contains(network, len, cand)
        },
        _ => false,
    }
}

/// The first `/` of a term is where a scan found it.
proof fn first_slash_is_unique(term: Seq<char>, i: int)
    requires
        is_first_at(term, '/', i),
    ensures
        term.contains('/'),
        (choose|k: int| is_first_at(term, '/', k)) == i,
        address_part(term) == term.subrange(0, i),
        prefix_part(term) == term.subrange(i + 1, term.len() as int),
{
    assert(term[i] == '/');
    let k = choose|k: int| is_first_at(term, '/', k);
    assert(is_first_at(term, '/', k));
    if k < i {
        assert(term[k] != '/');
    }
    if i < k {
        assert(term[i] != '/');
    }
}

/// Tests an IPv4 term of a record against a client, given by its address
/// and by the text of that address. A malformed range is no match, never
/// an error.
pub fn match_ipv4(term: &str, candidate: u32, candidate_text: &str) -> (r: bool)
    ensures
        r == match_ipv4_spec(term@, candidate, candidate_text@),
{
    let chars = chars_of(term);
    let n: usize = chars.len();
    let i: usize = find_char(&chars, '/');
    if i == n {
        return same_text(term, candidate_text);
    }
    proof {
        first_slash_is_unique(term@, i as int);
    }
    let left: &str = term.substring_char(0, i);
    let right: &str = term.substring_char(i + 1, n);
    let rest = chars_of(right);
    let j: usize = find_char(&rest, '/');
    if j < rest.len() {
        assert(rest@[j as int] == '/');
        return false;
    }
    decide_v4(parse_prefix_len(right), parse_ipv4(left), candidate)
}

/// Tests an IPv6 term of a record against a client, given by its address
/// and by the text of that address. A malformed range is no match.
pub fn match_ipv6(term: &str, candidate: u128, candidate_text: &str) -> (r: bool)
    ensures
        r == match_ipv6_spec(term@, candidate, candidate_text@),
{
    let chars = chars_of(term);
    let n: usize = chars.len();
    let i: usize = find_char(&chars, '/');
    if i == n {
        return same_text(term, candidate_text);
    }
    proof {
        first_slash_is_unique(term@, i as int);
    }
    let left: &str = term.substring_char(0, i);
    let right: &str = term.substring_char(i + 1, n);
    let rest = chars_of(right);
    let j: usize = find_char(&rest, '/');
    if j < rest.len() {
        assert(rest@[j as int] == '/');
        return false;
    }
    decide_v6(parse_prefix_len(right), parse_ipv6(left), candidate)
}

/// A term without `/` matches exactly the client whose text it is; no range
/// is ever built for it.
pub proof fn bare_term_matches_by_text(
    term: Seq<char>,
    cand4: u32,
    cand6: u128,
    cand_text: Seq<char>,
)
    requires
        !term.contains('/'),
    ensures
        match_ipv4_spec(term, cand4, cand_text) == (term == cand_text),
        match_ipv6_spec(term, cand6, cand_text) == (term == cand_text),
{
}

/// A malformed range matches no client: one whose prefix length or address
/// cannot be read, and one whose length is beyond the address family's.
pub proof fn malformed_range_never_matches(
    prefix: Option<u8>,
    base4: Option<u32>,
    base6: Option<u128>,
    cand4: u32,
    cand6: u128,
)
    ensures
        prefix is None ==> !range_match_v4(prefix, base4, cand4) && !range_match_v6(
            prefix,
            base6,
            cand6,
        ),
        base4 is None ==> !range_match_v4(prefix, base4, cand4),
        base6 is None ==> !range_match_v6(prefix, base6, cand6),
        prefix is Some && prefix->Some_0 > 32 ==> !range_match_v4(prefix, base4, cand4),
        prefix is Some && prefix->Some_0 > 128 ==> !range_match_v6(prefix, base6, cand6),
{
}

/// A term with more than one `/` matches no client.
pub proof fn second_slash_never_matches(
    term: Seq<char>,
    cand4: u32,
    cand6: u128,
    cand_text: Seq<char>,
)
    requires
        term.contains('/'),
        prefix_part(term).contains('/'),
    ensures
        !match_ipv4_spec(term, cand4, cand_text),
        !match_ipv6_spec(term, cand6, cand_text),
{
}

/// Host bits set in the address of a range term do not matter: the term
/// matches the same clients as its network address does, and the network
/// address is a base that the range type accepts.
pub proof fn host_bits_do_not_matter(len: u8, base4: u32, base6: u128, cand4: u32, cand6: u128)
    ensures
        range_match_v4(Some(len), Some(base4), cand4) == range_match_v4(
            Some(len),
            Some(base4 & !host_mask_v4(len)),
            cand4,
        ),
        range_match_v4(Some(len), Some(base4), cand4) == in_range_v4(
            base4 & !host_mask_v4(len),
            len,
            cand4,
        ),
        range_match_v6(Some(len), Some(base6), cand6) == range_match_v6(
            Some(len),
            Some(base6 & !host_mask_v6(len)),
            cand6,
        ),
        range_match_v6(Some(len), Some(base6), cand6) == in_range_v6(
            base6 & !host_mask_v6(len),
            len,
            cand6,
        ),
{
    let h4 = host_mask_v4(len);
    let n4 = base4 & !h4;
    assert(n4 & h4 == 0 && n4 & !h4 == base4 & !h4) by (bit_vector)
        requires
            n4 == base4 & !h4,
    ;
    let h6 = host_mask_v6(len);
    let n6 = base6 & !h6;
    assert(n6 & h6 == 0 && n6 & !h6 == base6 & !h6) by (bit_vector)
        requires
            n6 == base6 & !h6,
    ;
}

} // verus!
