//! The term matchers of a policy record, and the parser that turns one raw
//! record into its terms.

use vstd::prelude::*;
use regex::Regex;
use crate::outcome::SpfError;
use vstd::string::*;
use crate::pattern::{
    capture_each, capture_group, compile, each_capture, first_capture, opt_text, opt_texts,
    pattern_compiles, regex_source,
};
use crate::text::{contains_text, has_substring, texts};

verus! {

/// The policy prefix, followed by the body of the record as the one group.
pub const SPF_PATTERN: &'static str = "v=spf1\\s*([\\w\\d\\D]+)";

/// An IPv4 term; the group is the address, with or without a prefix length.
pub const IPV4_PATTERN: &'static str = "ip4:([\\d./]+)";

/// An IPv6 term; the group is the address, with or without a prefix length.
pub const IPV6_PATTERN: &'static str = "ip6:([\\w\\d:/]+)";

/// A domain term; the group is the host name.
pub const DOMAIN_PATTERN: &'static str = "a:([\\w\\d.-]+)";

/// A term that pulls in the policy of another domain; the group is that domain.
pub const INCLUDE_PATTERN: &'static str = "include:([\\w\\d.-]+)";

/// A term that hands the decision to another domain; the group is that domain.
pub const REDIRECT_PATTERN: &'static str = "redirect=([\\w\\d.-]+)";

/// A mail-exchange answer: an optional preference, then the host name as the
/// second group.
pub const MX_PATTERN: &'static str = "([\\d]*)\\s*([\\w\\d.-]+)";

/// The compiled term matchers. Made once, never changed, shared by all
/// evaluations.
pub struct SpfConfig {
    pub spf_regex: Regex,
    pub spf_ipv4_regex: Regex,
    pub spf_ipv6_regex: Regex,
    pub spf_domain_regex: Regex,
    pub spf_include_regex: Regex,
    pub spf_redirect_regex: Regex,
    pub spf_mx_regex: Regex,
}

/// The terms of one policy record, each list in the order of the text.
pub struct SpfLookup {
    pub ipv4s: Vec<String>,
    pub ipv6s: Vec<String>,
    pub domains: Vec<String>,
    /// Chain targets: those of the redirect terms first, then those of the
    /// inclusion terms. The two kinds are deliberately not told apart.
    pub redirects: Vec<String>,
    /// The text `+all` stands somewhere in the record.
    pub all: bool,
    /// The text `mx`, in any mix of upper and lower case, stands somewhere in
    /// the record.
    pub mx: bool,
}

/// The mathematical content of an `SpfLookup`.
pub struct SpfLookupView {
    pub ipv4s: Seq<Seq<char>>,
    pub ipv6s: Seq<Seq<char>>,
    pub domains: Seq<Seq<char>>,
    pub redirects: Seq<Seq<char>>,
    pub all: bool,
    pub mx: bool,
}

impl View for SpfLookup {
    type V = SpfLookupView;

    open spec fn view(&self) -> SpfLookupView {
        SpfLookupView {
            ipv4s: texts(self.ipv4s@),
            ipv6s: texts(self.ipv6s@),
            domains: texts(self.domains@),
            redirects: texts(self.redirects@),
            all: self.all,
            mx: self.mx,
        }
    }
}

/// The entries of `found` that hold a text, in order.
pub open spec fn present(found: Seq<Option<Seq<char>>>) -> Seq<Seq<char>>
    decreases found.len(),
{
    if found.len() == 0 {
        Seq::empty()
    } else {
        match found.last() {
            Some(t) => present(found.drop_last()).push(t),
            None => present(found.drop_last()),
        }
    }
}

/// The record-level allow-all flag: `+all` anywhere in the raw text.
pub open spec fn allow_all_flag(raw: Seq<char>) -> bool {
    has_substring(raw, "+all"@)
}

/// The record-level mail-exchange flag: `mx` anywhere in the raw text,
/// whatever the case of its two letters.
pub open spec fn mx_flag(raw: Seq<char>) -> bool {
    ||| has_substring(raw, "mx"@)
    ||| has_substring(raw, "MX"@)
    ||| has_substring(raw, "Mx"@)
    ||| has_substring(raw, "mX"@)
}

/// The record that the term captures of a policy body and the raw text
/// around it make up.
pub open spec fn assemble_spec(
    ipv4: Seq<Option<Seq<char>>>,
    ipv6: Seq<Option<Seq<char>>>,
    domain: Seq<Option<Seq<char>>>,
    redirect: Seq<Option<Seq<char>>>,
    inclusion: Seq<Option<Seq<char>>>,
    raw: Seq<char>,
) -> SpfLookupView {
    SpfLookupView {
        ipv4s: present(ipv4),
        ipv6s: present(ipv6),
        domains: present(domain),
        redirects: present(redirect) + present(inclusion),
        all: allow_all_flag(raw),
        mx: mx_flag(raw),
    }
}

/// What parsing `raw` with the matchers of `config` yields: nothing where the
/// policy prefix, or the body after it, is missing; otherwise the terms of
/// the body and the two flags of the raw text.
pub open spec fn parse_record(config: SpfConfig, raw: Seq<char>) -> Option<SpfLookupView> {
    match first_capture(config.spf_regex, raw, 1) {
        None => None,
        Some(body) => Some(
            assemble_spec(
                each_capture(config.spf_ipv4_regex, body, 1),
                each_capture(config.spf_ipv6_regex, body, 1),
                each_capture(config.spf_domain_regex, body, 1),
                each_capture(config.spf_redirect_regex, body, 1),
                each_capture(config.spf_include_regex, body, 1),
                raw,
            ),
        ),
    }
}

/// A name without the dot that closes it, where it ends in one.
pub open spec fn without_closing_dot(name: Seq<char>) -> Seq<char> {
    if name.len() > 0 && name.last() == '.' {
        name.drop_last()
    } else {
        name
    }
}

/// The host name in one mail-exchange answer: the second group of the
/// answer pattern, without the dot that closes a fully qualified name.
/// Nothing where the pattern finds no host name.
pub open spec fn mx_hostname_spec(config: SpfConfig, answer: Seq<char>) -> Option<Seq<char>> {
    match first_capture(config.spf_mx_regex, answer, 2) {
        None => None,
        Some(name) => Some(without_closing_dot(name)),
    }
}

/// The host names in a list of mail-exchange answers, in the order of the
/// answers; an answer without a host name is passed over.
pub open spec fn mx_hostnames_spec(config: SpfConfig, answers: Seq<Seq<char>>) -> Seq<Seq<char>>
    decreases answers.len(),
{
    if answers.len() == 0 {
        Seq::empty()
    } else {
        match mx_hostname_spec(config, answers.last()) {
            Some(name) => mx_hostnames_spec(config, answers.drop_last()).push(name),
            None => mx_hostnames_spec(config, answers.drop_last()),
        }
    }
}

/// The texts of a pool of text records that may be policy records: those
/// that hold `spf` somewhere, in the order of the pool.
pub open spec fn candidates_of(pool: Seq<Seq<char>>) -> Seq<Seq<char>>
    decreases pool.len(),
{
    if pool.len() == 0 {
        Seq::empty()
    } else if has_substring(pool.last(), "spf"@) {
        candidates_of(pool.drop_last()).push(pool.last())
    } else {
        candidates_of(pool.drop_last())
    }
}

/// Keeps the text records that hold `spf` somewhere. This is a coarse
/// filter, looser than the prefix that parsing asks for.
pub fn spf_candidates(pool: &Vec<String>) -> (r: Vec<String>)
    ensures
        texts(r@) == candidates_of(texts(pool@)),
{
    let ghost all = texts(pool@);
    let mut kept: Vec<String> = Vec::new();
    let mut i: usize = 0;
    assert(all.take(0) =~= Seq::empty());
    assert(texts(kept@) =~= candidates_of(all.take(0)));
    while i < pool.len()
        invariant
            i <= pool.len(),
            all == texts(pool@),
            texts(kept@) == candidates_of(all.take(i as int)),
        decreases pool.len() - i,
    {
        let ghost prev = texts(kept@);
        assert(all.take(i + 1).drop_last() =~= all.take(i as int));
        assert(all.take(i + 1).last() == pool@[i as int]@);
        if contains_text(pool[i].as_str(), "spf") {
            let copy: String = pool[i].clone();
            kept.push(copy);
            assert(texts(kept@) =~= prev.push(pool@[i as int]@));
        }
        i += 1;
    }
    assert(all.take(pool.len() as int) =~= all);
    kept
}

/// Moves the entries of `found` that hold a text to the end of `into`.
pub fn append_present(into: &mut Vec<String>, found: Vec<Option<String>>)
    ensures
        texts(final(into)@) == texts(old(into)@) + present(opt_texts(found@)),
{
    let ghost before = texts(into@);
    let ghost all = opt_texts(found@);
    let mut found = found;
    let n: usize = found.len();
    let mut i: usize = 0;
    assert(all.take(0) =~= Seq::empty());
    assert(texts(into@) =~= before + present(all.take(0)));
    while i < n
        invariant
            i <= n,
            n == found.len(),
            all.len() == n,
            forall|k: int| i <= k < n ==> opt_texts(found@)[k] == all[k],
            texts(into@) == before + present(all.take(i as int)),
        decreases n - i,
    {
        let ghost prev = texts(into@);
        let ghost entry = all[i as int];
        assert(opt_texts(found@)[i as int] == entry);
        let mut taken: Option<String> = None;
        std::mem::swap(&mut found[i], &mut taken);
        assert(all.take(i + 1).drop_last() =~= all.take(i as int));
        assert(all.take(i + 1).last() == entry);
        match taken {
            Some(s) => {
                into.push(s);
                assert(texts(into@) =~= prev.push(s@));
                assert(texts(into@) =~= before + present(all.take(i + 1)));
            },
            None => {
                assert(texts(into@) =~= before + present(all.take(i + 1)));
            },
        }
        i += 1;
    }
    assert(all.take(n as int) =~= all);
}

/// Puts a record together from the term captures of its body and its raw
/// text.
pub fn assemble(
    ipv4: Vec<Option<String>>,
    ipv6: Vec<Option<String>>,
    domain: Vec<Option<String>>,
    redirect: Vec<Option<String>>,
    inclusion: Vec<Option<String>>,
    raw: &str,
) -> (r: SpfLookup)
    ensures
        r@ == assemble_spec(
            opt_texts(ipv4@),
            opt_texts(ipv6@),
            opt_texts(domain@),
            opt_texts(redirect@),
            opt_texts(inclusion@),
            raw@,
        ),
{
    let mut ipv4s: Vec<String> = Vec::new();
    let mut ipv6s: Vec<String> = Vec::new();
    let mut domains: Vec<String> = Vec::new();
    let mut redirects: Vec<String> = Vec::new();
    append_present(&mut ipv4s, ipv4);
    append_present(&mut ipv6s, ipv6);
    append_present(&mut domains, domain);
    append_present(&mut redirects, redirect);
    append_present(&mut redirects, inclusion);
    let all = contains_text(raw, "+all");
    let mx = contains_text(raw, "mx") || contains_text(raw, "MX") || contains_text(raw, "Mx")
        || contains_text(raw, "mX");
    let r = SpfLookup { ipv4s, ipv6s, domains, redirects, all, mx };
    assert(r@.ipv4s =~= present(opt_texts(ipv4@)));
    assert(r@.ipv6s =~= present(opt_texts(ipv6@)));
    assert(r@.domains =~= present(opt_texts(domain@)));
    assert(r@.redirects =~= present(opt_texts(redirect@)) + present(opt_texts(inclusion@)));
    r
}

/// What setting up one matcher comes to: the compiled pattern, or the setup
/// error where the pattern engine refused the pattern.
pub fn adopt(compiled: Result<Regex, regex::Error>) -> (r: Result<Regex, SpfError>)
    ensures
        match compiled {
            Ok(re) => r == Ok::<Regex, SpfError>(re),
            Err(_) => r == Err::<Regex, SpfError>(SpfError::ConfigInitFailed),
        },
{
    match compiled {
        Ok(re) => Ok(re),
        Err(_) => Err(SpfError::ConfigInitFailed),
    }
}

/// The pattern engine accepts each of the seven patterns.
pub open spec fn all_patterns_compile() -> bool {
    &&& pattern_compiles(SPF_PATTERN@)
    &&& pattern_compiles(IPV4_PATTERN@)
    &&& pattern_compiles(IPV6_PATTERN@)
    &&& pattern_compiles(DOMAIN_PATTERN@)
    &&& pattern_compiles(INCLUDE_PATTERN@)
    &&& pattern_compiles(REDIRECT_PATTERN@)
    &&& pattern_compiles(MX_PATTERN@)
}

impl SpfConfig {
    /// Each matcher was compiled from the pattern that belongs to it.
    pub open spec fn wf(&self) -> bool {
        &&& regex_source(self.spf_regex) == SPF_PATTERN@
        &&& regex_source(self.spf_ipv4_regex) == IPV4_PATTERN@
        &&& regex_source(self.spf_ipv6_regex) == IPV6_PATTERN@
        &&& regex_source(self.spf_domain_regex) == DOMAIN_PATTERN@
        &&& regex_source(self.spf_include_regex) == INCLUDE_PATTERN@
        &&& regex_source(self.spf_redirect_regex) == REDIRECT_PATTERN@
        &&& regex_source(self.spf_mx_regex) == MX_PATTERN@
    }

    /// Compiles the seven matchers. The setup succeeds exactly when the
    /// pattern engine accepts all seven patterns; where it refuses one, the
    /// setup fails as a whole.
    pub fn new() -> (r: Result<SpfConfig, SpfError>)
        ensures
            r is Ok <==> all_patterns_compile(),
            match r {
                Ok(config) => config.wf(),
                Err(e) => e == SpfError::ConfigInitFailed,
            },
    {
        let spf_regex = match adopt(compile(SPF_PATTERN)) {
            Ok(re) => re,
            Err(e) => { return Err(e); },
        };
        let spf_ipv4_regex = match adopt(compile(IPV4_PATTERN)) {
            Ok(re) => re,
            Err(e) => { return Err(e); },
        };
        let spf_ipv6_regex = match adopt(compile(IPV6_PATTERN)) {
            Ok(re) => re,
            Err(e) => { return Err(e); },
        };
        let spf_include_regex = match adopt(compile(INCLUDE_PATTERN)) {
            Ok(re) => re,
            Err(e) => { return Err(e); },
        };
        let spf_domain_regex = match adopt(compile(DOMAIN_PATTERN)) {
            Ok(re) => re,
            Err(e) => { return Err(e); },
        };
        let spf_mx_regex = match adopt(compile(MX_PATTERN)) {
            Ok(re) => re,
            Err(e) => { return Err(e); },
        };
        let spf_redirect_regex = match adopt(compile(REDIRECT_PATTERN)) {
            Ok(re) => re,
            Err(e) => { return Err(e); },
        };
        Ok(
            SpfConfig {
                spf_regex,
                spf_ipv4_regex,
                spf_ipv6_regex,
                spf_domain_regex,
                spf_include_regex,
                spf_redirect_regex,
                spf_mx_regex,
            },
        )
    }

    /// Reads the host name out of one mail-exchange answer and drops the dot
    /// that closes it, where there is one.
    pub fn mx_hostname(&self, answer: &str) -> (r: Option<String>)
        ensures
            opt_text(r) == mx_hostname_spec(*self, answer@),
    {
        match capture_group(&self.spf_mx_regex, answer, 2) {
            None => None,
            Some(name) => {
                let n: usize = name.as_str().unicode_len();
                if n > 0 && name.as_str().get_char(n - 1) == '.' {
                    let cut: &str = name.as_str().substring_char(0, n - 1);
                    assert(cut@ =~= name@.drop_last());
                    Some(cut.to_owned())
                } else {
                    Some(name)
                }
            },
        }
    }

    /// Reads the host names out of a list of mail-exchange answers.
    pub fn mx_hostnames(&self, answers: &Vec<String>) -> (r: Vec<String>)
        ensures
            texts(r@) == mx_hostnames_spec(*self, texts(answers@)),
    {
        let ghost all = texts(answers@);
        let mut names: Vec<String> = Vec::new();
        let mut i: usize = 0;
        assert(all.take(0) =~= Seq::empty());
        assert(texts(names@) =~= mx_hostnames_spec(*self, all.take(0)));
        while i < answers.len()
            invariant
                i <= answers.len(),
                all == texts(answers@),
                texts(names@) == mx_hostnames_spec(*self, all.take(i as int)),
            decreases answers.len() - i,
        {
            let ghost prev = texts(names@);
            assert(all.take(i + 1).drop_last() =~= all.take(i as int));
            assert(all.take(i + 1).last() == answers@[i as int]@);
            match self.mx_hostname(answers[i].as_str()) {
                Some(name) => {
                    names.push(name);
                    assert(texts(names@) =~= prev.push(name@));
                },
                None => {},
            }
            i += 1;
        }
        assert(all.take(answers.len() as int) =~= all);
        names
    }

    /// Parses one raw record: fails where the policy prefix or the body after
    /// it is missing, and otherwise gives the terms of the body, each list in
    /// the order of the text, with the two flags of the raw text.
    pub fn build(&self, dns_record: String) -> (r: Result<SpfLookup, SpfError>)
        ensures
            match r {
                Ok(lookup) => parse_record(*self, dns_record@) == Some(lookup@),
                Err(e) => e == SpfError::NotAPolicyRecord && parse_record(*self, dns_record@)
                    is None,
            },
    {
        let raw: &str = dns_record.as_str();
        match capture_group(&self.spf_regex, raw, 1) {
            None => Err(SpfError::NotAPolicyRecord),
            Some(body) => {
                let body_text: &str = body.as_str();
                let ipv4 = capture_each(&self.spf_ipv4_regex, body_text, 1);
                let ipv6 = capture_each(&self.spf_ipv6_regex, body_text, 1);
                let domain = capture_each(&self.spf_domain_regex, body_text, 1);
                let redirect = capture_each(&self.spf_redirect_regex, body_text, 1);
                let inclusion = capture_each(&self.spf_include_regex, body_text, 1);
                Ok(assemble(ipv4, ipv6, domain, redirect, inclusion, raw))
            },
        }
    }
}

/// Parsing is a function of the matchers and the raw text: two records
/// parsed from the same text with the same matchers agree in every field,
/// the order of the terms included.
pub proof fn build_is_deterministic(config: SpfConfig, raw: Seq<char>, a: SpfLookup, b: SpfLookup)
    requires
        parse_record(config, raw) == Some(a@),
        parse_record(config, raw) == Some(b@),
    ensures
        a@ == b@,
        a@.ipv4s == b@.ipv4s,
        a@.ipv6s == b@.ipv6s,
        a@.domains == b@.domains,
        a@.redirects == b@.redirects,
        a@.all == b@.all,
        a@.mx == b@.mx,
{
}

} // verus!
