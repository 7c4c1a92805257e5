use spf_validator::config::{adopt, assemble, spf_candidates, SpfConfig, SpfLookup};
use spf_validator::outcome::SpfError;

fn config() -> SpfConfig {
    match SpfConfig::new() {
        Ok(c) => c,
        Err(e) => panic!("setup failed: {:?}", e),
    }
}

fn parse(raw: &str) -> SpfLookup {
    match config().build(String::from(raw)) {
        Ok(l) => l,
        Err(e) => panic!("not parsed: {:?}", e),
    }
}

fn strings(items: &[&str]) -> Vec<String> {
    items.iter().map(|s| String::from(*s)).collect()
}

#[test]
fn setup_succeeds() {
    assert!(SpfConfig::new().is_ok());
}

#[test]
fn setup_keeps_each_pattern() {
    let c = config();
    assert_eq!(c.spf_regex.as_str(), r"v=spf1\s*([\w\d\D]+)");
    assert_eq!(c.spf_ipv4_regex.as_str(), r"ip4:([\d./]+)");
    assert_eq!(c.spf_ipv6_regex.as_str(), r"ip6:([\w\d:/]+)");
    assert_eq!(c.spf_domain_regex.as_str(), r"a:([\w\d.-]+)");
    assert_eq!(c.spf_include_regex.as_str(), r"include:([\w\d.-]+)");
    assert_eq!(c.spf_redirect_regex.as_str(), r"redirect=([\w\d.-]+)");
    assert_eq!(c.spf_mx_regex.as_str(), r"([\d]*)\s*([\w\d.-]+)");
}

#[test]
fn refused_pattern_is_a_setup_failure() {
    let refused = regex::Regex::new("(");
    assert!(refused.is_err());
    assert_eq!(adopt(refused).err(), Some(SpfError::ConfigInitFailed));
    let taken = adopt(regex::Regex::new("a+"));
    assert_eq!(taken.map(|r| String::from(r.as_str())), Ok(String::from("a+")));
}

#[test]
fn terms_are_read_in_order() {
    let l = parse(
        "v=spf1 ip4:34.243.61.237 ip4:34.243.61.0/24 ip6:2a05:d018:e3:8c00:bb71:dea8:8b83:851e \
         ip6:2001:db8::/32 a:mail.example.org a:smtp.example.org -all",
    );
    assert_eq!(l.ipv4s, strings(&["34.243.61.237", "34.243.61.0/24"]));
    assert_eq!(l.ipv6s, strings(&["2a05:d018:e3:8c00:bb71:dea8:8b83:851e", "2001:db8::/32"]));
    assert_eq!(l.domains, strings(&["mail.example.org", "smtp.example.org"]));
    assert_eq!(l.redirects, Vec::<String>::new());
    assert!(!l.all);
    assert!(!l.mx);
}

#[test]
fn redirect_targets_come_before_inclusion_targets() {
    let l = parse(
        "v=spf1 include:first.example include:second.example redirect=_spf.example.com \
         redirect=_spf1.example.com -all",
    );
    assert_eq!(
        l.redirects,
        strings(&["_spf.example.com", "_spf1.example.com", "first.example", "second.example"])
    );
}

#[test]
fn text_without_the_prefix_is_no_policy_record() {
    let c = config();
    assert_eq!(c.build(String::from("hello world")).err(), Some(SpfError::NotAPolicyRecord));
    assert_eq!(c.build(String::from("")).err(), Some(SpfError::NotAPolicyRecord));
    assert_eq!(c.build(String::from("spf2.0/pra")).err(), Some(SpfError::NotAPolicyRecord));
    assert_eq!(c.build(String::from("v=spf1")).err(), Some(SpfError::NotAPolicyRecord));
}

#[test]
fn prefix_followed_by_blanks_is_an_empty_policy() {
    let l = parse("v=spf1   ");
    assert_eq!(l.ipv4s, Vec::<String>::new());
    assert_eq!(l.ipv6s, Vec::<String>::new());
    assert_eq!(l.domains, Vec::<String>::new());
    assert_eq!(l.redirects, Vec::<String>::new());
    assert!(!l.all);
    assert!(!l.mx);
}

#[test]
fn prefix_may_stand_anywhere_in_the_text() {
    let l = parse("note v=spf1 ip4:203.0.113.5 -all");
    assert_eq!(l.ipv4s, strings(&["203.0.113.5"]));
}

#[test]
fn terms_before_the_prefix_are_not_read() {
    let l = parse("ip4:198.51.100.1 v=spf1 ip4:203.0.113.5 -all");
    assert_eq!(l.ipv4s, strings(&["203.0.113.5"]));
}

#[test]
fn allow_all_flag_is_read_from_the_raw_text() {
    assert!(parse("v=spf1 +all").all);
    assert!(!parse("v=spf1 -all").all);
    assert!(!parse("v=spf1 all").all);
    assert!(parse("v=spf1 a:x+all.example -all").all);
    assert!(parse("+all v=spf1 -all").all);
}

#[test]
fn mx_flag_is_read_from_the_raw_text() {
    assert!(parse("v=spf1 mx -all").mx);
    assert!(parse("v=spf1 MX -all").mx);
    assert!(parse("v=spf1 Mx -all").mx);
    assert!(parse("v=spf1 mX -all").mx);
    assert!(!parse("v=spf1 ip4:203.0.113.5 -all").mx);
}

#[test]
fn mx_flag_trips_on_a_name_that_holds_mx() {
    assert!(parse("v=spf1 a:mx1.example.org -all").mx);
    assert!(parse("v=spf1 redirect=_spf.mxroute.example").mx);
    assert!(parse("v=spf1 include:lamxa.example -all").mx);
}

#[test]
fn build_is_pure() {
    let raw = "v=spf1 ip4:203.0.113.0/24 ip6:2001:db8::/32 a:mail.example.org \
               include:example.net redirect=example.org mx +all";
    let c = config();
    let a = c.build(String::from(raw)).unwrap();
    let b = c.build(String::from(raw)).unwrap();
    assert_eq!(a.ipv4s, b.ipv4s);
    assert_eq!(a.ipv6s, b.ipv6s);
    assert_eq!(a.domains, b.domains);
    assert_eq!(a.redirects, b.redirects);
    assert_eq!(a.all, b.all);
    assert_eq!(a.mx, b.mx);
    let other = config().build(String::from(raw)).unwrap();
    assert_eq!(a.ipv4s, other.ipv4s);
    assert_eq!(a.redirects, other.redirects);
    assert_eq!(a.redirects, strings(&["example.org", "example.net"]));
}

#[test]
fn assemble_keeps_what_was_captured() {
    let l = assemble(
        vec![Some(String::from("203.0.113.5")), None, Some(String::from("203.0.113.0/24"))],
        vec![None],
        vec![],
        vec![Some(String::from("r.example"))],
        vec![None, Some(String::from("i.example"))],
        "v=spf1 whatever +all Mx",
    );
    assert_eq!(l.ipv4s, strings(&["203.0.113.5", "203.0.113.0/24"]));
    assert_eq!(l.ipv6s, Vec::<String>::new());
    assert_eq!(l.domains, Vec::<String>::new());
    assert_eq!(l.redirects, strings(&["r.example", "i.example"]));
    assert!(l.all);
    assert!(l.mx);
}

#[test]
fn candidates_hold_spf_somewhere() {
    let pool = strings(&[
        "google-site-verification=abc",
        "v=spf1 -all",
        "spf2.0/pra",
        "V=SPF1 -all",
        "my spf note",
    ]);
    assert_eq!(spf_candidates(&pool), strings(&["v=spf1 -all", "spf2.0/pra", "my spf note"]));
    assert_eq!(spf_candidates(&Vec::new()), Vec::<String>::new());
}

#[test]
fn mx_answer_gives_its_host_name() {
    let c = config();
    assert_eq!(c.mx_hostname("10 mail.example.com."), Some(String::from("mail.example.com")));
    assert_eq!(c.mx_hostname("mail.example.com."), Some(String::from("mail.example.com")));
    assert_eq!(c.mx_hostname("10 mail.example.com"), Some(String::from("mail.example.com")));
    assert_eq!(c.mx_hostname("5 mx"), Some(String::from("mx")));
    assert_eq!(c.mx_hostname("5 mx.."), Some(String::from("mx.")));
    assert_eq!(c.mx_hostname("."), Some(String::from("")));
    assert_eq!(c.mx_hostname(""), None);
    assert_eq!(c.mx_hostname("   "), None);
}

#[test]
fn mx_answers_give_their_host_names_in_order() {
    let c = config();
    let answers = strings(&["10 a.example.com.", "", "20 b.example.com.", "30 c.example.com"]);
    assert_eq!(
        c.mx_hostnames(&answers),
        strings(&["a.example.com", "b.example.com", "c.example.com"])
    );
}
