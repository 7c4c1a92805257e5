//! The chain walk of one evaluation, as a state machine. The caller fetches
//! the records; the machine says which domain to ask next, judges what came
//! back, and stops the walk when it has asked as often as it may.

use vstd::prelude::*;
use crate::config::{
    candidates_of, parse_record, spf_candidates, SpfConfig, SpfLookup, SpfLookupView,
};
use crate::matcher::{match_ipv4, match_ipv4_spec, match_ipv6, match_ipv6_spec};
use crate::outcome::{SpfError, SpfQueryResult};
use crate::text::{contains_name, same_text, texts};

verus! {

/// The address of a client as a number, by family.
#[derive(Clone, Copy, Debug, PartialEq, Eq, Structural)]
pub enum ClientAddr {
    V4(u32),
    V6(u128),
}

/// The client of one evaluation: its address, and the text of that address
/// in the usual notation of its family.
pub struct Client {
    pub addr: ClientAddr,
    pub text: String,
}

/// Some IPv4 term matches the client. No IPv4 term matches an IPv6 client.
pub open spec fn any_ipv4_match(terms: Seq<Seq<char>>, addr: ClientAddr, text: Seq<char>) -> bool {
    match addr {
        ClientAddr::V4(a) => exists|i: int|
            0 <= i < terms.len() && match_ipv4_spec(#[trigger] terms[i], a, text),
        ClientAddr::V6(_) => false,
    }
}

/// Some IPv6 term matches the client. No IPv6 term matches an IPv4 client.
pub open spec fn any_ipv6_match(terms: Seq<Seq<char>>, addr: ClientAddr, text: Seq<char>) -> bool {
    match addr {
        ClientAddr::V4(_) => false,
        ClientAddr::V6(a) => exists|i: int|
            0 <= i < terms.len() && match_ipv6_spec(#[trigger] terms[i], a, text),
    }
}

/// The record lets the client pass: by an address term, by a domain term
/// that is the presented host name, or by the mail-exchange flag where the
/// presented host name is one of the sender's mail exchangers.
pub open spec fn record_passes(
    lookup: SpfLookupView,
    addr: ClientAddr,
    text: Seq<char>,
    host: Seq<char>,
    mx_hosts: Seq<Seq<char>>,
) -> bool {
    ||| any_ipv4_match(lookup.ipv4s, addr, text)
    ||| any_ipv6_match(lookup.ipv6s, addr, text)
    ||| lookup.domains.contains(host)
    ||| (lookup.mx && mx_hosts.contains(host))
}

/// The verdict that one record gives, if it gives one: `Pass` where the
/// record lets the client pass; else, where the record names no chain
/// target and none is pending, `SoftFail` with the allow-all flag and `Fail`
/// without it; else none, and the walk goes on.
pub open spec fn record_verdict(
    lookup: SpfLookupView,
    addr: ClientAddr,
    text: Seq<char>,
    host: Seq<char>,
    mx_hosts: Seq<Seq<char>>,
    pending: Seq<Seq<char>>,
) -> Option<SpfQueryResult> {
    if record_passes(lookup, addr, text, host, mx_hosts) {
        Some(SpfQueryResult::Pass)
    } else if lookup.redirects.len() == 0 && pending.len() == 0 {
        Some(
            if lookup.all {
                SpfQueryResult::SoftFail
            } else {
                SpfQueryResult::Fail
            },
        )
    } else {
        None
    }
}

/// What the candidate records of one domain come to, taken in order from
/// position `from`: the first verdict that a record gives, or `ParseFailed`
/// at the first record that does not parse, or nothing where every record
/// was read without a verdict. With it, the pending chain targets: each
/// record read without a verdict has added its own at the end.
pub open spec fn walk_records(
    config: SpfConfig,
    raws: Seq<Seq<char>>,
    from: int,
    addr: ClientAddr,
    text: Seq<char>,
    host: Seq<char>,
    mx_hosts: Seq<Seq<char>>,
    pending: Seq<Seq<char>>,
) -> (Option<Result<SpfQueryResult, SpfError>>, Seq<Seq<char>>)
    decreases raws.len() - from,
{
    if from < 0 || from >= raws.len() {
        (None, pending)
    } else {
        match parse_record(config, raws[from]) {
            None => (Some(Err(SpfError::ParseFailed)), pending),
            Some(lookup) => match record_verdict(lookup, addr, text, host, mx_hosts, pending) {
                Some(v) => (Some(Ok(v)), pending),
                None => walk_records(
                    config,
                    raws,
                    from + 1,
                    addr,
                    text,
                    host,
                    mx_hosts,
                    pending + lookup.redirects,
                ),
            },
        }
    }
}

/// Whether some IPv4 term of a record matches the client.
pub fn matches_any_ipv4(terms: &Vec<String>, client: &Client) -> (r: bool)
    ensures
        r == any_ipv4_match(texts(terms@), client.addr, client.text@),
{
    match client.addr {
        ClientAddr::V6(_) => false,
        ClientAddr::V4(a) => {
            let mut i: usize = 0;
            while i < terms.len()
                invariant
                    i <= terms.len(),
                    client.addr == ClientAddr::V4(a),
                    forall|k: int|
                        0 <= k < i ==> !match_ipv4_spec(
                            #[trigger] texts(terms@)[k],
                            a,
                            client.text@,
                        ),
                decreases terms.len() - i,
            {
                if match_ipv4(terms[i].as_str(), a, client.text.as_str()) {
                    assert(match_ipv4_spec(texts(terms@)[i as int], a, client.text@));
                    return true;
                }
                assert(!match_ipv4_spec(texts(terms@)[i as int], a, client.text@));
                i += 1;
            }
            false
        },
    }
}

/// Whether some IPv6 term of a record matches the client.
pub fn matches_any_ipv6(terms: &Vec<String>, client: &Client) -> (r: bool)
    ensures
        r == any_ipv6_match(texts(terms@), client.addr, client.text@),
{
    match client.addr {
        ClientAddr::V4(_) => false,
        ClientAddr::V6(a) => {
            let mut i: usize = 0;
            while i < terms.len()
                invariant
                    i <= terms.len(),
                    client.addr == ClientAddr::V6(a),
                    forall|k: int|
                        0 <= k < i ==> !match_ipv6_spec(
                            #[trigger] texts(terms@)[k],
                            a,
                            client.text@,
                        ),
                decreases terms.len() - i,
            {
                if match_ipv6(terms[i].as_str(), a, client.text.as_str()) {
                    assert(match_ipv6_spec(texts(terms@)[i as int], a, client.text@));
                    return true;
                }
                assert(!match_ipv6_spec(texts(terms@)[i as int], a, client.text@));
                i += 1;
            }
            false
        },
    }
}

/// Judges one parsed record. The terms are tried in a fixed order: IPv4
/// terms, IPv6 terms, domain terms, the mail-exchange flag; the first that
/// holds gives `Pass`. A record without a verdict hands its chain targets to
/// the end of `pending`; a record with one leaves `pending` as it was.
pub fn evaluate_record(
    lookup: SpfLookup,
    client: &Client,
    host: &str,
    mx_hosts: &Vec<String>,
    pending: &mut Vec<String>,
) -> (r: Option<SpfQueryResult>)
    ensures
        r == record_verdict(
            lookup@,
            client.addr,
            client.text@,
            host@,
            texts(mx_hosts@),
            texts(old(pending)@),
        ),
        r is Some ==> final(pending)@ == old(pending)@,
        r is None ==> texts(final(pending)@) == texts(old(pending)@) + lookup@.redirects,
{
    if matches_any_ipv4(&lookup.ipv4s, client) {
        return Some(SpfQueryResult::Pass);
    }
    if matches_any_ipv6(&lookup.ipv6s, client) {
        return Some(SpfQueryResult::Pass);
    }
    if contains_name(&lookup.domains, host) {
        return Some(SpfQueryResult::Pass);
    }
    if lookup.mx && contains_name(mx_hosts, host) {
        return Some(SpfQueryResult::Pass);
    }
    if lookup.redirects.len() == 0 {
        if pending.len() == 0 {
            if lookup.all {
                return Some(SpfQueryResult::SoftFail);
            } else {
                return Some(SpfQueryResult::Fail);
            }
        }
        assert(texts(pending@) =~= texts(pending@) + lookup@.redirects);
        None
    } else {
        let mut targets: Vec<String> = lookup.redirects;
        let ghost before = pending@;
        let ghost added = targets@;
        pending.append(&mut targets);
        assert(texts(pending@) =~= texts(before) + texts(added));
        None
    }
}

/// The state of one evaluation between two lookups.
pub struct EvaluationState {
    /// The domain whose records were asked for last, or will be asked for
    /// first.
    pub current: String,
    /// The chain targets still to be asked, first in, first out.
    pub queue: Vec<String>,
    /// The mail exchangers of the sender domain, fetched once.
    pub mx_hosts: Vec<String>,
    /// How many record lookups the walk has asked for.
    pub lookups: usize,
    /// How many record lookups the walk may ask for.
    pub max_lookups: usize,
}

impl EvaluationState {
    /// The walk has not asked for more lookups than it may.
    pub open spec fn wf(&self) -> bool {
        self.lookups <= self.max_lookups
    }

    /// How many lookups the walk may still ask for.
    pub open spec fn remaining(&self) -> nat {
        if self.lookups <= self.max_lookups {
            (self.max_lookups - self.lookups) as nat
        } else {
            0
        }
    }

    /// Starts an evaluation for `sender` from the outcome of the one
    /// mail-exchange lookup: where that lookup failed, the evaluation fails
    /// with it and nothing else is asked.
    pub fn begin(sender: String, mx_hosts: Option<Vec<String>>, max_lookups: usize) -> (r: Result<
        EvaluationState,
        SpfError,
    >)
        ensures
            match mx_hosts {
                None => r is Err && r->Err_0 == SpfError::MxLookupFailed,
                Some(hosts) => r is Ok && r->Ok_0.current == sender && r->Ok_0.queue@.len() == 0
                    && r->Ok_0.mx_hosts == hosts && r->Ok_0.lookups == 0 && r->Ok_0.max_lookups
                    == max_lookups && r->Ok_0.wf(),
            },
    {
        match mx_hosts {
            None => Err(SpfError::MxLookupFailed),
            Some(hosts) => Ok(
                EvaluationState {
                    current: sender,
                    queue: Vec::new(),
                    mx_hosts: hosts,
                    lookups: 0,
                    max_lookups,
                },
            ),
        }
    }

    /// Names the domain to ask next: the front of the queue where one is
    /// pending, else the current domain once more. Every call that names a
    /// domain counts as a lookup; when the walk has used up its lookups the
    /// call fails with `LoopDetected` and the state stays as it was. So no
    /// walk, whatever the records say, asks more than `max_lookups` times.
    pub fn next_target(&mut self) -> (r: Result<String, SpfError>)
        ensures
            r is Ok <==> old(self).lookups < old(self).max_lookups,
            r is Err ==> r->Err_0 == SpfError::LoopDetected && *final(self) == *old(self),
            r is Ok ==> r->Ok_0@ == final(self).current@,
            r is Ok ==> final(self).lookups == old(self).lookups + 1,
            r is Ok ==> final(self).remaining() < old(self).remaining(),
            final(self).max_lookups == old(self).max_lookups,
            final(self).mx_hosts == old(self).mx_hosts,
            old(self).wf() ==> final(self).wf(),
            r is Ok && old(self).queue@.len() > 0 ==> final(self).current == old(self).queue@[0]
                && final(self).queue@ == old(self).queue@.drop_first(),
            r is Ok && old(self).queue@.len() == 0 ==> final(self).current == old(self).current
                && final(self).queue@ == old(self).queue@,
    {
        if self.lookups >= self.max_lookups {
            return Err(SpfError::LoopDetected);
        }
        if self.queue.len() > 0 {
            let ghost before = self.queue@;
            let front: String = self.queue.remove(0);
            assert(self.queue@ =~= before.drop_first());
            self.current = front;
        }
        self.lookups = self.lookups + 1;
        Ok(self.current.clone())
    }

    /// Judges the outcome of the lookup that `next_target` asked for. A
    /// failed lookup ends the evaluation with `TxtLookupFailed`. Otherwise
    /// the candidate records are read in the order given: the first verdict
    /// ends the evaluation, a record that does not parse ends it with
    /// `ParseFailed`, and where neither happens the walk goes on with the
    /// chain targets that the records have added to the queue.
    pub fn on_records(
        &mut self,
        config: &SpfConfig,
        client: &Client,
        host: &str,
        candidates: Option<Vec<String>>,
    ) -> (r: Option<Result<SpfQueryResult, SpfError>>)
        ensures
            final(self).current == old(self).current,
            final(self).mx_hosts == old(self).mx_hosts,
            final(self).lookups == old(self).lookups,
            final(self).max_lookups == old(self).max_lookups,
            match candidates {
                None => r == Some(Err::<SpfQueryResult, SpfError>(SpfError::TxtLookupFailed))
                    && final(self).queue@ == old(self).queue@,
                Some(raws) => (r, texts(final(self).queue@)) == walk_records(
                    *config,
                    texts(raws@),
                    0,
                    client.addr,
                    client.text@,
                    host@,
                    texts(old(self).mx_hosts@),
                    texts(old(self).queue@),
                ),
            },
    {
        match candidates {
            None => Some(Err(SpfError::TxtLookupFailed)),
            Some(raws) => {
                let ghost all = texts(raws@);
                let ghost goal = walk_records(
                    *config,
                    all,
                    0,
                    client.addr,
                    client.text@,
                    host@,
                    texts(self.mx_hosts@),
                    texts(self.queue@),
                );
                let mut i: usize = 0;
                while i < raws.len()
                    invariant
                        i <= raws.len(),
                        all == texts(raws@),
                        candidates == Some(raws),
                        goal == walk_records(
                            *config,
                            all,
                            0,
                            client.addr,
                            client.text@,
                            host@,
                            texts(old(self).mx_hosts@),
                            texts(old(self).queue@),
                        ),
                        self.current == old(self).current,
                        self.mx_hosts == old(self).mx_hosts,
                        self.lookups == old(self).lookups,
                        self.max_lookups == old(self).max_lookups,
                        goal == walk_records(
                            *config,
                            all,
                            i as int,
                            client.addr,
                            client.text@,
                            host@,
                            texts(self.mx_hosts@),
                            texts(self.queue@),
                        ),
                    decreases raws.len() - i,
                {
                    let raw: String = raws[i].clone();
                    assert(raw@ == all[i as int]);
                    match config.build(raw) {
                        Err(_) => {
                            return Some(Err(SpfError::ParseFailed));
                        },
                        Ok(lookup) => {
                            match evaluate_record(
                                lookup,
                                client,
                                host,
                                &self.mx_hosts,
                                &mut self.queue,
                            ) {
                                Some(v) => {
                                    return Some(Ok(v));
                                },
                                None => {},
                            }
                        },
                    }
                    i += 1;
                }
                None
            },
        }
    }
}

/// The text records that one domain publishes.
pub struct Zone {
    pub domain: String,
    pub records: Vec<String>,
}

/// The text records that `domain` publishes according to `zones`, looking
/// from position `from` on: those of the first entry for that domain, or
/// nothing where no entry is for it.
pub open spec fn published_from(zones: Seq<Zone>, domain: Seq<char>, from: int) -> Option<
    Seq<Seq<char>>,
>
    decreases zones.len() - from,
{
    if from < 0 || from >= zones.len() {
        None
    } else if zones[from].domain@ == domain {
        Some(texts(zones[from].records@))
    } else {
        published_from(zones, domain, from + 1)
    }
}

/// The outcome of a walk that may still ask `budget` times. Each round asks
/// for the front of the pending targets, or for the current domain once more
/// where none is pending; a domain without an entry is a failed lookup; the
/// candidates among its records give a verdict or an error, or the walk goes
/// on with what they left pending. A walk out of budget is `LoopDetected`.
pub open spec fn walk(
    config: SpfConfig,
    zones: Seq<Zone>,
    addr: ClientAddr,
    text: Seq<char>,
    host: Seq<char>,
    mx_hosts: Seq<Seq<char>>,
    current: Seq<char>,
    pending: Seq<Seq<char>>,
    budget: nat,
) -> Result<SpfQueryResult, SpfError>
    decreases budget,
{
    if budget == 0 {
        Err(SpfError::LoopDetected)
    } else {
        let target = if pending.len() > 0 {
            pending[0]
        } else {
            current
        };
        let rest = if pending.len() > 0 {
            pending.drop_first()
        } else {
            pending
        };
        match published_from(zones, target, 0) {
            None => Err(SpfError::TxtLookupFailed),
            Some(pool) => {
                let step = walk_records(
                    config,
                    candidates_of(pool),
                    0,
                    addr,
                    text,
                    host,
                    mx_hosts,
                    rest,
                );
                match step.0 {
                    Some(end) => end,
                    None => walk(
                        config,
                        zones,
                        addr,
                        text,
                        host,
                        mx_hosts,
                        target,
                        step.1,
                        (budget - 1) as nat,
                    ),
                }
            },
        }
    }
}

/// The outcome of a whole evaluation against known records: a failed
/// mail-exchange lookup ends it before any record is asked for; otherwise
/// the walk starts at the sender domain with nothing pending.
pub open spec fn check_spec(
    config: SpfConfig,
    zones: Seq<Zone>,
    addr: ClientAddr,
    text: Seq<char>,
    host: Seq<char>,
    sender: Seq<char>,
    mx_hosts: Option<Seq<Seq<char>>>,
    max_lookups: nat,
) -> Result<SpfQueryResult, SpfError> {
    match mx_hosts {
        None => Err(SpfError::MxLookupFailed),
        Some(hosts) => walk(
            config,
            zones,
            addr,
            text,
            host,
            hosts,
            sender,
            Seq::empty(),
            max_lookups,
        ),
    }
}

/// The position of the first entry of `zones` for `domain`.
pub fn find_zone(zones: &Vec<Zone>, domain: &str) -> (r: Option<usize>)
    ensures
        match r {
            Some(i) => i < zones.len() && zones@[i as int].domain@ == domain@ && (forall|k: int|
                0 <= k < i ==> zones@[k].domain@ != domain@) && published_from(zones@, domain@, 0)
                == Some(texts(zones@[i as int].records@)),
            None => (forall|k: int| 0 <= k < zones.len() ==> zones@[k].domain@ != domain@)
                && published_from(zones@, domain@, 0) is None,
        },
{
    let mut i: usize = 0;
    while i < zones.len()
        invariant
            i <= zones.len(),
            published_from(zones@, domain@, 0) == published_from(zones@, domain@, i as int),
            forall|k: int| 0 <= k < i ==> zones@[k].domain@ != domain@,
        decreases zones.len() - i,
    {
        if same_text(zones[i].domain.as_str(), domain) {
            return Some(i);
        }
        i += 1;
    }
    None
}

/// Evaluates a client against the policy of `sender`, with the records that
/// the domains publish given in `zones` and the sender's mail exchangers in
/// `mx_hosts` (nothing where that lookup failed). The evaluation ends in
/// exactly one of a verdict and an error, after at most `max_lookups` record
/// lookups: a chain of domains that refer to each other without end is cut
/// off with `LoopDetected`.
pub fn check(
    config: &SpfConfig,
    zones: &Vec<Zone>,
    client: &Client,
    host: &str,
    sender: &str,
    mx_hosts: Option<Vec<String>>,
    max_lookups: usize,
) -> (r: Result<SpfQueryResult, SpfError>)
    ensures
        r == check_spec(
            *config,
            zones@,
            client.addr,
            client.text@,
            host@,
            sender@,
            match mx_hosts {
                Some(hosts) => Some(texts(hosts@)),
                None => None,
            },
            max_lookups as nat,
        ),
{
    let mut state = match EvaluationState::begin(sender.to_owned(), mx_hosts, max_lookups) {
        Err(e) => {
            return Err(e);
        },
        Ok(state) => state,
    };
    let ghost hosts = texts(state.mx_hosts@);
    let ghost goal = walk(
        *config,
        zones@,
        client.addr,
        client.text@,
        host@,
        hosts,
        sender@,
        Seq::empty(),
        max_lookups as nat,
    );
    assert(texts(state.queue@) =~= Seq::empty());
    loop
        invariant
            state.wf(),
            hosts == texts(state.mx_hosts@),
            goal == check_spec(
                *config,
                zones@,
                client.addr,
                client.text@,
                host@,
                sender@,
                match mx_hosts {
                    Some(hosts) => Some(texts(hosts@)),
                    None => None,
                },
                max_lookups as nat,
            ),
            goal == walk(
                *config,
                zones@,
                client.addr,
                client.text@,
                host@,
                hosts,
                state.current@,
                texts(state.queue@),
                state.remaining(),
            ),
        decreases state.remaining(),
    {
        let ghost before = state;
        let target: String = match state.next_target() {
            Err(e) => {
                return Err(e);
            },
            Ok(target) => target,
        };
        proof {
            if before.queue@.len() > 0 {
                assert(texts(before.queue@)[0] == target@);
                assert(texts(state.queue@) =~= texts(before.queue@).drop_first());
            }
        }
        let candidates: Option<Vec<String>> = match find_zone(zones, target.as_str()) {
            None => None,
            Some(i) => Some(spf_candidates(&zones[i].records)),
        };
        match state.on_records(config, client, host, candidates) {
            Some(end) => {
                return end;
            },
            None => {},
        }
    }
}

/// A record that holds nothing but the allow-all flag gives `SoftFail` to
/// every client, whatever its address, where no chain target is pending.
pub proof fn allow_all_alone_is_soft_fail(
    lookup: SpfLookupView,
    addr: ClientAddr,
    text: Seq<char>,
    host: Seq<char>,
    mx_hosts: Seq<Seq<char>>,
)
    requires
        lookup.ipv4s.len() == 0,
        lookup.ipv6s.len() == 0,
        lookup.domains.len() == 0,
        lookup.redirects.len() == 0,
        !lookup.mx,
        lookup.all,
    ensures
        record_verdict(lookup, addr, text, host, mx_hosts, Seq::empty()) == Some(
            SpfQueryResult::SoftFail,
        ),
{
    assert(!lookup.domains.contains(host));
}

/// One round of the walk from the given state gives neither a verdict nor
/// an error: the domain asked has an entry, and its candidates are read to
/// the end without one.
pub open spec fn round_stays_open(
    config: SpfConfig,
    zones: Seq<Zone>,
    addr: ClientAddr,
    text: Seq<char>,
    host: Seq<char>,
    mx_hosts: Seq<Seq<char>>,
    current: Seq<char>,
    pending: Seq<Seq<char>>,
) -> bool {
    let target = next_domain(current, pending);
    match published_from(zones, target, 0) {
        None => false,
        Some(pool) => walk_records(
            config,
            candidates_of(pool),
            0,
            addr,
            text,
            host,
            mx_hosts,
            rest_after(pending),
        ).0 is None,
    }
}

/// The domain that a round asks for.
pub open spec fn next_domain(current: Seq<char>, pending: Seq<Seq<char>>) -> Seq<char> {
    if pending.len() > 0 {
        pending[0]
    } else {
        current
    }
}

/// The pending targets once a round has taken the one it asks for.
pub open spec fn rest_after(pending: Seq<Seq<char>>) -> Seq<Seq<char>> {
    if pending.len() > 0 {
        pending.drop_first()
    } else {
        pending
    }
}

/// The pending targets that a round which stays open leaves behind.
pub open spec fn pending_after(
    config: SpfConfig,
    zones: Seq<Zone>,
    addr: ClientAddr,
    text: Seq<char>,
    host: Seq<char>,
    mx_hosts: Seq<Seq<char>>,
    current: Seq<char>,
    pending: Seq<Seq<char>>,
) -> Seq<Seq<char>> {
    match published_from(zones, next_domain(current, pending), 0) {
        None => rest_after(pending),
        Some(pool) => walk_records(
            config,
            candidates_of(pool),
            0,
            addr,
            text,
            host,
            mx_hosts,
            rest_after(pending),
        ).1,
    }
}

/// A chain without end is cut off. Let `reachable` hold of the state the
/// walk starts in, and let every round from a reachable state stay open and
/// lead to a reachable state again, as with two domains that redirect to
/// each other. Then the walk ends, for every budget, in `LoopDetected`.
pub proof fn endless_chain_is_cut_off(
    config: SpfConfig,
    zones: Seq<Zone>,
    addr: ClientAddr,
    text: Seq<char>,
    host: Seq<char>,
    mx_hosts: Seq<Seq<char>>,
    current: Seq<char>,
    pending: Seq<Seq<char>>,
    budget: nat,
    reachable: spec_fn(Seq<char>, Seq<Seq<char>>) -> bool,
)
    requires
        reachable(current, pending),
        forall|c: Seq<char>, p: Seq<Seq<char>>| #[trigger]
            reachable(c, p) ==> round_stays_open(config, zones, addr, text, host, mx_hosts, c, p)
                && reachable(
                next_domain(c, p),
                pending_after(config, zones, addr, text, host, mx_hosts, c, p),
            ),
    ensures
        walk(config, zones, addr, text, host, mx_hosts, current, pending, budget) == Err::<
            SpfQueryResult,
            SpfError,
        >(SpfError::LoopDetected),
    decreases budget,
{
    if budget > 0 {
        assert(round_stays_open(config, zones, addr, text, host, mx_hosts, current, pending));
        endless_chain_is_cut_off(
            config,
            zones,
            addr,
            text,
            host,
            mx_hosts,
            next_domain(current, pending),
            pending_after(config, zones, addr, text, host, mx_hosts, current, pending),
            (budget - 1) as nat,
            reachable,
        );
    }
}

/// A sender whose one candidate record holds nothing but the allow-all flag
/// gets `SoftFail` from a whole evaluation, for every client, every
/// presented host, every list of mail exchangers and every limit that lets
/// one lookup through.
pub proof fn allow_all_record_ends_in_soft_fail(
    config: SpfConfig,
    zones: Seq<Zone>,
    addr: ClientAddr,
    text: Seq<char>,
    host: Seq<char>,
    sender: Seq<char>,
    mx_hosts: Seq<Seq<char>>,
    max_lookups: nat,
    raw: Seq<char>,
    lookup: SpfLookupView,
)
    requires
        max_lookups > 0,
        published_from(zones, sender, 0) is Some,
        candidates_of(published_from(zones, sender, 0)->Some_0) == seq![raw],
        parse_record(config, raw) == Some(lookup),
        lookup.ipv4s.len() == 0,
        lookup.ipv6s.len() == 0,
        lookup.domains.len() == 0,
        lookup.redirects.len() == 0,
        !lookup.mx,
        lookup.all,
    ensures
        check_spec(config, zones, addr, text, host, sender, Some(mx_hosts), max_lookups) == Ok::<
            SpfQueryResult,
            SpfError,
        >(SpfQueryResult::SoftFail),
{
    allow_all_alone_is_soft_fail(lookup, addr, text, host, mx_hosts);
    let none: Seq<Seq<char>> = Seq::empty();
    let step = walk_records(config, seq![raw], 0, addr, text, host, mx_hosts, none);
    assert(seq![raw][0] == raw);
    assert(step.0 == Some(Ok::<SpfQueryResult, SpfError>(SpfQueryResult::SoftFail)));
}

/// A whole evaluation over a chain without end is `LoopDetected`, whatever
/// the limit: the law of `endless_chain_is_cut_off`, from the state that an
/// evaluation starts in.
pub proof fn endless_chain_ends_in_loop_detected(
    config: SpfConfig,
    zones: Seq<Zone>,
    addr: ClientAddr,
    text: Seq<char>,
    host: Seq<char>,
    sender: Seq<char>,
    mx_hosts: Seq<Seq<char>>,
    max_lookups: nat,
    reachable: spec_fn(Seq<char>, Seq<Seq<char>>) -> bool,
)
    requires
        reachable(sender, Seq::empty()),
        forall|c: Seq<char>, p: Seq<Seq<char>>| #[trigger]
            reachable(c, p) ==> round_stays_open(config, zones, addr, text, host, mx_hosts, c, p)
                && reachable(
                next_domain(c, p),
                pending_after(config, zones, addr, text, host, mx_hosts, c, p),
            ),
    ensures
        check_spec(config, zones, addr, text, host, sender, Some(mx_hosts), max_lookups) == Err::<
            SpfQueryResult,
            SpfError,
        >(SpfError::LoopDetected),
{
    endless_chain_is_cut_off(
        config,
        zones,
        addr,
        text,
        host,
        mx_hosts,
        sender,
        Seq::empty(),
        max_lookups,
        reachable,
    );
}

} // verus!
