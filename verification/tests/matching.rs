use spf_validator::matcher::{decide_v4, decide_v6, match_ipv4, match_ipv6};
use spf_validator::text::{chars_of, contains_name, contains_text, find_char, matches_at, same_text};

fn v4(a: u32, b: u32, c: u32, d: u32) -> u32 {
    (a << 24) | (b << 16) | (c << 8) | d
}

fn v6(groups: [u128; 8]) -> u128 {
    let mut n: u128 = 0;
    for g in groups {
        n = (n << 16) | g;
    }
    n
}

#[test]
fn bare_ipv4_term_matches_its_own_text() {
    assert!(match_ipv4("203.0.113.5", v4(203, 0, 113, 5), "203.0.113.5"));
}

#[test]
fn bare_ipv4_term_does_not_match_by_containment() {
    assert!(!match_ipv4("203.0.113.5", v4(203, 0, 113, 50), "203.0.113.50"));
    assert!(!match_ipv4("203.0.113.50", v4(203, 0, 113, 5), "203.0.113.5"));
}

#[test]
fn bare_term_goes_by_text_and_not_by_number() {
    assert!(!match_ipv4("203.0.113.5", v4(203, 0, 113, 5), "203.000.113.5"));
    assert!(match_ipv4("anything", v4(1, 2, 3, 4), "anything"));
}

#[test]
fn ipv4_range_holds_its_addresses() {
    assert!(match_ipv4("203.0.113.0/24", v4(203, 0, 113, 200), "203.0.113.200"));
    assert!(match_ipv4("203.0.113.0/24", v4(203, 0, 113, 0), "203.0.113.0"));
    assert!(match_ipv4("203.0.113.0/24", v4(203, 0, 113, 255), "203.0.113.255"));
    assert!(!match_ipv4("203.0.113.0/24", v4(198, 51, 100, 1), "198.51.100.1"));
    assert!(!match_ipv4("203.0.113.0/24", v4(203, 0, 114, 0), "203.0.114.0"));
}

#[test]
fn ipv4_range_of_every_length() {
    assert!(match_ipv4("0.0.0.0/0", v4(198, 51, 100, 1), "198.51.100.1"));
    assert!(match_ipv4("203.0.113.5/32", v4(203, 0, 113, 5), "203.0.113.5"));
    assert!(!match_ipv4("203.0.113.5/32", v4(203, 0, 113, 4), "203.0.113.4"));
    assert!(match_ipv4("203.0.113.128/25", v4(203, 0, 113, 129), "203.0.113.129"));
    assert!(!match_ipv4("203.0.113.128/25", v4(203, 0, 113, 127), "203.0.113.127"));
}

#[test]
fn oversized_prefix_is_no_match() {
    assert!(!match_ipv4("203.0.113.0/33", v4(203, 0, 113, 1), "203.0.113.1"));
    assert!(!match_ipv4("203.0.113.0/255", v4(203, 0, 113, 1), "203.0.113.1"));
    assert!(!match_ipv4("203.0.113.0/256", v4(203, 0, 113, 1), "203.0.113.1"));
    assert!(!match_ipv6("2001:db8::/129", v6([0x2001, 0xdb8, 0, 0, 0, 0, 0, 1]), "2001:db8::1"));
}

#[test]
fn malformed_range_is_no_match() {
    let c = v4(203, 0, 113, 1);
    assert!(!match_ipv4("203.0.113.0/", c, "203.0.113.1"));
    assert!(!match_ipv4("203.0.113.0/abc", c, "203.0.113.1"));
    assert!(!match_ipv4("203.0.113.0/-1", c, "203.0.113.1"));
    assert!(!match_ipv4("203.0.113.0/ 24", c, "203.0.113.1"));
    assert!(!match_ipv4("/24", c, "203.0.113.1"));
    assert!(!match_ipv4("203.0.113/24", c, "203.0.113.1"));
    assert!(!match_ipv4("203.0.113.256/24", c, "203.0.113.1"));
    assert!(!match_ipv4("203.0.113.0/24/8", c, "203.0.113.1"));
    assert!(!match_ipv4("203.0.113.0//24", c, "203.0.113.1"));
}

#[test]
fn range_with_host_bits_stands_for_its_network() {
    assert!(match_ipv4("203.0.113.5/24", v4(203, 0, 113, 200), "203.0.113.200"));
    assert!(match_ipv4("203.0.113.5/24", v4(203, 0, 113, 5), "203.0.113.5"));
    assert!(!match_ipv4("203.0.113.5/24", v4(203, 0, 114, 5), "203.0.114.5"));
    assert!(decide_v4(Some(24), Some(v4(203, 0, 113, 5)), v4(203, 0, 113, 200)));
    assert!(!decide_v4(Some(24), Some(v4(203, 0, 113, 5)), v4(198, 51, 100, 1)));
    assert!(decide_v4(Some(0), Some(v4(203, 0, 113, 5)), v4(198, 51, 100, 1)));
    assert!(!decide_v4(Some(32), Some(v4(203, 0, 113, 5)), v4(203, 0, 113, 4)));
    assert!(!decide_v4(Some(33), Some(v4(203, 0, 113, 5)), v4(203, 0, 113, 5)));
    let base = v6([0x2001, 0xdb8, 0, 0, 0, 0, 0, 1]);
    assert!(decide_v6(Some(32), Some(base), v6([0x2001, 0xdb8, 0xffff, 0, 0, 0, 0, 9])));
    assert!(!decide_v6(Some(32), Some(base), v6([0x2001, 0xdb9, 0, 0, 0, 0, 0, 1])));
    assert!(!decide_v6(Some(129), Some(base), base));
}

#[test]
fn term_with_slash_never_matches_by_text() {
    assert!(!match_ipv4("203.0.113.0/33", v4(203, 0, 113, 0), "203.0.113.0/33"));
}

#[test]
fn prefix_length_may_carry_a_plus_sign_and_zeros() {
    assert!(match_ipv4("203.0.113.0/+24", v4(203, 0, 113, 9), "203.0.113.9"));
    assert!(match_ipv4("203.0.113.0/024", v4(203, 0, 113, 9), "203.0.113.9"));
    assert!(!match_ipv4("203.0.113.0/+", v4(203, 0, 113, 9), "203.0.113.9"));
}

#[test]
fn decide_v4_on_read_halves() {
    assert!(decide_v4(Some(24), Some(v4(203, 0, 113, 0)), v4(203, 0, 113, 200)));
    assert!(!decide_v4(Some(24), Some(v4(203, 0, 113, 0)), v4(198, 51, 100, 1)));
    assert!(!decide_v4(None, Some(v4(203, 0, 113, 0)), v4(203, 0, 113, 200)));
    assert!(!decide_v4(Some(24), None, v4(203, 0, 113, 200)));
    assert!(!decide_v4(Some(33), Some(0), 0));
    assert!(decide_v4(Some(0), Some(0), 0xffff_ffff));
    assert!(decide_v4(Some(32), Some(7), 7));
    assert!(!decide_v4(Some(32), Some(7), 6));
}

#[test]
fn decide_v6_on_read_halves() {
    let base = v6([0x2001, 0xdb8, 0, 0, 0, 0, 0, 0]);
    assert!(decide_v6(Some(32), Some(base), v6([0x2001, 0xdb8, 0xffff, 0, 0, 0, 0, 1])));
    assert!(!decide_v6(Some(32), Some(base), v6([0x2001, 0xdb9, 0, 0, 0, 0, 0, 1])));
    assert!(!decide_v6(Some(129), Some(0), 0));
    assert!(decide_v6(Some(0), Some(0), u128::MAX));
    assert!(decide_v6(Some(128), Some(base), base));
    assert!(!decide_v6(Some(128), Some(base), base + 1));
    assert!(!decide_v6(None, Some(base), base));
    assert!(!decide_v6(Some(32), None, base));
}

#[test]
fn ipv6_range_holds_its_addresses() {
    let inside = v6([0x2001, 0xdb8, 0, 0, 0, 0, 0, 1]);
    let outside = v6([0x2001, 0xdb9, 0, 0, 0, 0, 0, 1]);
    assert!(match_ipv6("2001:db8::/32", inside, "2001:db8::1"));
    assert!(!match_ipv6("2001:db8::/32", outside, "2001:db9::1"));
    assert!(match_ipv6("2001:db8::1", inside, "2001:db8::1"));
    assert!(!match_ipv6("2001:db8::1", v6([0x2001, 0xdb8, 0, 0, 0, 0, 0, 0x10]), "2001:db8::10"));
    assert!(match_ipv6("2001:db8::1/32", inside, "2001:db8::1"));
    assert!(!match_ipv6("2001:db8::1/32", outside, "2001:db9::1"));
    assert!(!match_ipv6("2001:zz8::/32", inside, "2001:db8::1"));
}

#[test]
fn substring_search() {
    assert!(contains_text("v=spf1 +all", "+all"));
    assert!(contains_text("v=spf1 +all", "spf"));
    assert!(contains_text("abc", ""));
    assert!(contains_text("", ""));
    assert!(!contains_text("", "a"));
    assert!(!contains_text("v=spf1 -all", "+all"));
    assert!(!contains_text("ab", "abc"));
    assert!(contains_text("aab", "ab"));
    assert!(contains_text("h\u{e9}llo mx", "mx"));
}

#[test]
fn character_helpers() {
    let v = chars_of("a/b/c");
    assert_eq!(v, vec!['a', '/', 'b', '/', 'c']);
    assert_eq!(find_char(&v, '/'), 1);
    assert_eq!(find_char(&v, 'x'), 5);
    assert_eq!(find_char(&chars_of(""), '/'), 0);
    assert!(matches_at(&v, &chars_of("b/c"), 2));
    assert!(!matches_at(&v, &chars_of("b/c"), 1));
    assert!(same_text("abc", "abc"));
    assert!(!same_text("abc", "abd"));
    let names = vec![String::from("mail.example.org"), String::from("mx.example.org")];
    assert!(contains_name(&names, "mx.example.org"));
    assert!(!contains_name(&names, "example.org"));
    assert!(!contains_name(&Vec::new(), "example.org"));
}
