//! Per-client request metrics: how often and when each address was seen,
//! what it visited recently, and which login credentials it used.
use vstd::prelude::*;
use crate::access::{BanList, strings_view, position_of};
use crate::assoc::{keys_unique, to_map, lemma_to_map_finite, find_key, lemma_to_map_index, lemma_to_map_absent, lemma_push,
    lemma_update, lemma_to_map_empty};
use crate::common::{PreviousRequestsList, bounded_push};
use crate::message::opt_view;
use crate::PREVIOUS_REQUEST_LIST_CAP;

verus! {

/// What is known of one client address.
pub struct UserMetric {
    pub request_count: u64,
    pub logins: Option<Vec<String>>,
    pub last_time_seen: Option<u64>,
    pub last_page_visited: Option<String>,
    pub previous_pages: Option<PreviousRequestsList>,
}

/// What a client's metrics hold, as values; recent pages come with the
/// number of pages the list keeps.
pub struct UserMetricView {
    pub request_count: u64,
    pub logins: Option<Seq<Seq<char>>>,
    pub last_time_seen: Option<u64>,
    pub last_page_visited: Option<Seq<char>>,
    pub previous_pages: Option<(Seq<Seq<char>>, nat)>,
}

impl UserMetric {
    /// A copy of these metrics.
    pub fn copy(&self) -> (r: UserMetric)
        ensures
            r@ == self@,
    {
        let logins = match &self.logins {
            Some(l) => Some(crate::access::copy_strings(l)),
            None => None,
        };
        let pages = match &self.previous_pages {
            Some(p) => {
                let q = PreviousRequestsList::from_parts(crate::access::copy_strings(p.get_list()), p.limit_value());
                assert(q@ =~= p@);
                Some(q)
            },
            None => None,
        };
        UserMetric {
            request_count: self.request_count,
            logins,
            last_time_seen: self.last_time_seen,
            last_page_visited: crate::message::copy_opt(&self.last_page_visited),
            previous_pages: pages,
        }
    }

    /// Whether this client was seen within `window` seconds of `now`; a last
    /// sighting later than `now` counts as online.
    pub fn is_online(&self, window: u64, now: u64) -> (r: bool)
        ensures
            r == (match self.last_time_seen {
                Some(t) => t > now || now - t <= window,
                None => false,
            }),
    {
        match self.last_time_seen {
            Some(t) => t > now || now - t <= window,
            None => false,
        }
    }

    /// Seconds from the last sighting to `now`; zero if never seen or if the
    /// sighting is later than `now`.
    pub fn seconds_since_seen(&self, now: u64) -> (r: u64)
        ensures
            r == (match self.last_time_seen {
                Some(t) => if t <= now { now - t } else { 0 },
                None => 0,
            }),
    {
        match self.last_time_seen {
            Some(t) => if t <= now { now - t } else { 0 },
            None => 0,
        }
    }
}

impl View for UserMetric {
    type V = UserMetricView;

    open spec fn view(&self) -> UserMetricView {
        UserMetricView {
            request_count: self.request_count,
            logins: match self.logins {
                Some(l) => Some(strings_view(l@)),
                None => None,
            },
            last_time_seen: self.last_time_seen,
            last_page_visited: opt_view(self.last_page_visited),
            previous_pages: match self.previous_pages {
                Some(p) => Some((p@, p.limit())),
                None => None,
            },
        }
    }
}

/// The metrics of a client seen for the first time, requesting `uri` at `now`.
pub open spec fn first_seen(uri: Seq<char>, now: u64) -> UserMetricView {
    UserMetricView {
        request_count: 1,
        logins: Some(Seq::empty()),
        last_time_seen: Some(now),
        last_page_visited: Some(uri),
        previous_pages: Some((bounded_push(Seq::empty(), uri, PREVIOUS_REQUEST_LIST_CAP as nat), PREVIOUS_REQUEST_LIST_CAP as nat)),
    }
}

/// `u` after one more request, for `uri` at `now`; the count stops at its
/// largest value.
pub open spec fn seen_again(u: UserMetricView, uri: Seq<char>, now: u64) -> UserMetricView {
    UserMetricView {
        request_count: if u.request_count < u64::MAX { (u.request_count + 1) as u64 } else { u64::MAX },
        last_time_seen: Some(now),
        last_page_visited: Some(uri),
        previous_pages: Some(
            match u.previous_pages {
                Some((h, limit)) => (bounded_push(h, uri, limit), limit),
                None => (bounded_push(Seq::empty(), uri, PREVIOUS_REQUEST_LIST_CAP as nat), PREVIOUS_REQUEST_LIST_CAP as nat),
            },
        ),
        ..u
    }
}

/// The metrics after `ip` requests `uri` at `now`.
pub open spec fn after_request(m: Map<Seq<char>, UserMetricView>, ip: Seq<char>, uri: Seq<char>, now: u64) -> Map<
    Seq<char>,
    UserMetricView,
> {
    m.insert(
        ip,
        if m.contains_key(ip) {
            seen_again(m[ip], uri, now)
        } else {
            first_seen(uri, now)
        },
    )
}

/// The metrics after `ip` logs in with `credential`: the credential is noted
/// once for a known address; unknown addresses are not recorded.
pub open spec fn after_login(m: Map<Seq<char>, UserMetricView>, ip: Seq<char>, credential: Seq<char>) -> Map<
    Seq<char>,
    UserMetricView,
> {
    if m.contains_key(ip) {
        m.insert(
            ip,
            UserMetricView {
                logins: Some(
                    match m[ip].logins {
                        Some(l) => if l.contains(credential) {
                            l
                        } else {
                            l.push(credential)
                        },
                        None => seq![credential],
                    },
                ),
                ..m[ip]
            },
        )
    } else {
        m
    }
}

/// Whether a client entry was seen within `window` seconds of `now`; a last
/// sighting later than `now` counts as online.
pub open spec fn online(window: u64, now: u64) -> spec_fn((Seq<char>, UserMetricView)) -> bool {
    |e: (Seq<char>, UserMetricView)|
        match e.1.last_time_seen {
            Some(t) => t > now || now - t <= window,
            None => false,
        }
}

/// The total of the request counts of `entries`.
pub open spec fn sum_requests(entries: Seq<(Seq<char>, UserMetricView)>) -> int
    decreases entries.len(),
{
    if entries.len() == 0 {
        0
    } else {
        sum_requests(entries.drop_last()) + entries.last().1.request_count
    }
}

/// The address and request count of each client of `entries`.
pub open spec fn request_counts(entries: Seq<(Seq<char>, UserMetricView)>) -> Seq<(Seq<char>, u64)> {
    entries.map_values(|e: (Seq<char>, UserMetricView)| (e.0, e.1.request_count))
}

/// The address pairs of `v`, as values.
pub open spec fn count_pairs_view(v: Seq<(String, u64)>) -> Seq<(Seq<char>, u64)> {
    v.map_values(|p: (String, u64)| (p.0@, p.1))
}

pub open spec fn metric_entry_view(e: (String, UserMetric)) -> (Seq<char>, UserMetricView) {
    (e.0@, e.1@)
}

/// The metrics of every client address seen so far.
pub struct Metrics {
    entries: Vec<(String, UserMetric)>,
}

impl View for Metrics {
    type V = Map<Seq<char>, UserMetricView>;

    closed spec fn view(&self) -> Map<Seq<char>, UserMetricView> {
        to_map(self.entries())
    }
}

impl Metrics {
    /// The clients in the order in which they were first seen.
    pub closed spec fn entries(&self) -> Seq<(Seq<char>, UserMetricView)> {
        self.entries@.map_values(|e: (String, UserMetric)| metric_entry_view(e))
    }

    #[verifier::type_invariant]
    spec fn well_formed(&self) -> bool {
        keys_unique(self.entries())
    }

    /// No client seen yet.
    pub fn new() -> (r: Self)
        ensures
            r@ == Map::<Seq<char>, UserMetricView>::empty(),
    {
        let r = Metrics { entries: Vec::new() };
        proof {
            lemma_to_map_empty(r.entries());
        }
        r
    }

    /// The store holds finitely many records.
    pub proof fn lemma_dom_finite(&self)
        ensures
            self@.dom().finite(),
    {
        lemma_to_map_finite(self.entries());
    }

    /// All clients with their metrics.
    pub fn get_entries(&self) -> (r: &Vec<(String, UserMetric)>)
        ensures
            r@.map_values(|e: (String, UserMetric)| metric_entry_view(e)) == self.entries(),
            self@ == to_map(self.entries()),
            self@.dom().finite(),
    {
        proof {
            lemma_to_map_finite(self.entries());
        }
        &self.entries
    }

    fn index_of(&self, ip: &String) -> (r: Option<usize>)
        ensures
            r matches Some(i) ==> i < self.entries().len() && self.entries()[i as int].0 == ip@
                && self@.contains_key(ip@) && self@[ip@] == self.entries()[i as int].1,
            r is None ==> !self@.contains_key(ip@),
    {
        proof {
            use_type_invariant(self);
        }
        let r = find_key(&self.entries, ip);
        proof {
            match r {
                Some(i) => {
                    lemma_to_map_index(self.entries(), i as int);
                },
                None => {
                    assert forall|j: int| 0 <= j < self.entries().len() implies #[trigger] self.entries()[j].0 != ip@ by {
                        assert(self.entries()[j] == metric_entry_view(self.entries@[j]));
                    }
                    lemma_to_map_absent(self.entries(), ip@);
                },
            }
        }
        r
    }

    /// The metrics of `ip`, if it was seen.
    pub fn get(&self, ip: &String) -> (r: Option<&UserMetric>)
        ensures
            r is Some <==> self@.contains_key(ip@),
            r matches Some(u) ==> u@ == self@[ip@],
    {
        match self.index_of(ip) {
            Some(i) => Some(&self.entries[i].1),
            None => None,
        }
    }

    /// A copy of the registry.
    pub fn copy(&self) -> (r: Metrics)
        ensures
            r@ == self@,
            r.entries() == self.entries(),
    {
        proof {
            use_type_invariant(self);
        }
        let mut entries: Vec<(String, UserMetric)> = Vec::new();
        let mut i: usize = 0;
        while i < self.entries.len()
            invariant
                i <= self.entries@.len(),
                entries@.len() == i,
                forall|k: int| 0 <= k < i ==> metric_entry_view(#[trigger] entries@[k]) == metric_entry_view(self.entries@[k]),
            decreases self.entries@.len() - i,
        {
            entries.push((self.entries[i].0.clone(), self.entries[i].1.copy()));
            i = i + 1;
        }
        assert(entries@.map_values(|e: (String, UserMetric)| metric_entry_view(e)) =~= self.entries());
        Metrics { entries }
    }

    /// Puts `metric` in place of whatever `ip` had.
    pub fn insert_metric(&mut self, ip: String, metric: UserMetric)
        ensures
            final(self)@ == old(self)@.insert(ip@, metric@),
    {
        let idx = self.index_of(&ip);
        proof {
            use_type_invariant(&*self);
        }
        let mut entries: Vec<(String, UserMetric)> = Vec::new();
        std::mem::swap(&mut entries, &mut self.entries);
        let ghost before = entries@.map_values(|e: (String, UserMetric)| metric_entry_view(e));
        let ghost uv = metric@;
        let ghost kv = ip@;
        match idx {
            Some(i) => {
                entries.remove(i);
                entries.insert(i, (ip, metric));
                proof {
                    assert(entries@.map_values(|e: (String, UserMetric)| metric_entry_view(e)) =~= before.update(i as int, (before[i as int].0, uv)));
                    lemma_update(before, i as int, uv);
                }
            },
            None => {
                entries.push((ip, metric));
                proof {
                    assert(entries@.map_values(|e: (String, UserMetric)| metric_entry_view(e)) =~= before.push((kv, uv)));
                    lemma_push(before, kv, uv);
                }
            },
        }
        self.entries = entries;
    }

    /// Counts a request of `ip` for `uri` at `now`.
    pub fn record_request(&mut self, ip: &String, uri: &String, now: u64)
        ensures
            final(self)@ == after_request(old(self)@, ip@, uri@, now),
    {
        let updated = match self.index_of(ip) {
            Some(i) => {
                let u = &self.entries[i].1;
                let count = if u.request_count < u64::MAX { u.request_count + 1 } else { u64::MAX };
                let logins = match &u.logins {
                    Some(l) => Some(crate::access::copy_strings(l)),
                    None => None,
                };
                let pages = match &u.previous_pages {
                    Some(p) => {
                        let mut q = PreviousRequestsList::from_parts(crate::access::copy_strings(p.get_list()), p.limit_value());
                        assert(q@ =~= p@);
                        q.push(uri.as_str());
                        q
                    },
                    None => {
                        let mut q = PreviousRequestsList::new(PREVIOUS_REQUEST_LIST_CAP);
                        q.push(uri.as_str());
                        q
                    },
                };
                UserMetric {
                    request_count: count,
                    logins,
                    last_time_seen: Some(now),
                    last_page_visited: Some(uri.clone()),
                    previous_pages: Some(pages),
                }
            },
            None => {
                let mut q = PreviousRequestsList::new(PREVIOUS_REQUEST_LIST_CAP);
                q.push(uri.as_str());
                UserMetric {
                    request_count: 1,
                    logins: Some(Vec::new()),
                    last_time_seen: Some(now),
                    last_page_visited: Some(uri.clone()),
                    previous_pages: Some(q),
                }
            },
        };
        proof {
            if !old(self)@.contains_key(ip@) {
                assert(updated@.logins->0 =~= Seq::<Seq<char>>::empty());
            }
            assert(updated@ =~= (if old(self)@.contains_key(ip@) {
                seen_again(old(self)@[ip@], uri@, now)
            } else {
                first_seen(uri@, now)
            }));
        }
        self.insert_metric(ip.clone(), updated);
    }

    /// Handles a request of `ip` for `uri` at `now`: a banned address is
    /// turned away (the result is `true`) and nothing is recorded; any other
    /// request is counted.
    pub fn on_request(&mut self, bans: &BanList, ip: &String, uri: &String, now: u64) -> (r: bool)
        ensures
            r == bans@.contains(ip@),
            final(self)@ == (if r {
                old(self)@
            } else {
                after_request(old(self)@, ip@, uri@, now)
            }),
    {
        if bans.is_banned(ip) {
            return true;
        }
        self.record_request(ip, uri, now);
        false
    }

    /// Notes that `ip` logged in with `credential`, once per credential;
    /// addresses never seen are not recorded.
    pub fn record_login(&mut self, ip: &String, credential: &String)
        ensures
            final(self)@ == after_login(old(self)@, ip@, credential@),
    {
        match self.index_of(ip) {
            Some(i) => {
                let u = &self.entries[i].1;
                let logins = match &u.logins {
                    Some(l) => {
                        let mut c = crate::access::copy_strings(l);
                        if position_of(l, credential).is_none() {
                            c.push(credential.clone());
                            assert(strings_view(c@) =~= strings_view(l@).push(credential@));
                        }
                        c
                    },
                    None => {
                        let mut c: Vec<String> = Vec::new();
                        c.push(credential.clone());
                        assert(strings_view(c@) =~= seq![credential@]);
                        c
                    },
                };
                let mut updated = u.copy();
                updated.logins = Some(logins);
                proof {
                    assert(updated@ =~= UserMetricView { logins: updated@.logins, ..old(self)@[ip@] });
                }
                self.insert_metric(ip.clone(), updated);
            },
            None => {},
        }
    }

    /// Every address with its request count, busiest first.
    pub fn busiest_first(&self) -> (r: Vec<(String, u64)>)
        ensures
            count_pairs_view(r@).to_multiset() == request_counts(self.entries()).to_multiset(),
            forall|i: int, j: int| 0 <= i < j < r@.len() ==> r@[i].1 >= r@[j].1,
    {
        let ghost ev = self.entries();
        let mut out: Vec<(String, u64)> = Vec::new();
        let mut i: usize = 0;
        proof {
            assert(count_pairs_view(out@) =~= request_counts(ev.take(0)));
        }
        while i < self.entries.len()
            invariant
                i <= self.entries@.len(),
                ev == self.entries(),
                count_pairs_view(out@).to_multiset() == request_counts(ev.take(i as int)).to_multiset(),
                forall|a: int, b: int| 0 <= a < b < out@.len() ==> out@[a].1 >= out@[b].1,
            decreases self.entries@.len() - i,
        {
            let c = self.entries[i].1.request_count;
            let mut p: usize = 0;
            while p < out.len() && out[p].1 >= c
                invariant
                    p <= out@.len(),
                    forall|k: int| 0 <= k < p ==> out@[k].1 >= c,
                decreases out@.len() - p,
            {
                p = p + 1;
            }
            let ghost before = out@;
            out.insert(p, (self.entries[i].0.clone(), c));
            proof {
                assert(forall|k: int| p <= k < before.len() ==> before[k].1 < c) by {
                    assert forall|k: int| p <= k < before.len() implies before[k].1 < c by {
                        if k > p {
                            assert(before[p as int].1 >= before[k].1);
                        }
                    }
                }
                assert(count_pairs_view(out@) =~= count_pairs_view(before).insert(p as int, (ev[i as int].0, c)));
                assert(ev[i as int] == metric_entry_view(self.entries@[i as int]));
                assert(request_counts(ev.take(i + 1)) =~= request_counts(ev.take(i as int)).push((ev[i as int].0, c)));
                let x = (ev[i as int].0, c);
                vstd::seq_lib::to_multiset_insert(count_pairs_view(before), p as int, x);
                let rc = request_counts(ev.take(i as int));
                vstd::seq_lib::to_multiset_build(rc, x);
                assert(count_pairs_view(out@).to_multiset() == count_pairs_view(before).to_multiset().insert(x));
                assert forall|a: int, b: int| 0 <= a < b < out@.len() implies out@[a].1 >= out@[b].1 by {
                    if b < p {
                        assert(out@[a] == before[a] && out@[b] == before[b]);
                    } else if b == p {
                        assert(out@[a] == before[a]);
                    } else if a < p {
                        assert(out@[a] == before[a] && out@[b] == before[b - 1]);
                    } else if a == p {
                        assert(out@[b] == before[b - 1]);
                    } else {
                        assert(out@[a] == before[a - 1] && out@[b] == before[b - 1]);
                    }
                }
            }
            i = i + 1;
        }
        assert(ev.take(i as int) =~= ev);
        out
    }

    /// How many clients were seen within `window` seconds of `now`.
    pub fn count_online(&self, window: u64, now: u64) -> (r: usize)
        ensures
            r == self.entries().filter(online(window, now)).len(),
    {
        let ghost pred = online(window, now);
        let ghost ev = self.entries();
        let mut count: usize = 0;
        let mut i: usize = 0;
        while i < self.entries.len()
            invariant
                i <= self.entries@.len(),
                pred == online(window, now),
                ev == self.entries(),
                count == ev.take(i as int).filter(pred).len(),
                count <= i,
            decreases self.entries@.len() - i,
        {
            proof {
                assert(ev.take(i + 1) =~= ev.take(i as int).push(ev[i as int]));
                ev.take(i as int).lemma_filter_push(ev[i as int], pred);
                assert(ev[i as int] == metric_entry_view(self.entries@[i as int]));
            }
            let is_online = match self.entries[i].1.last_time_seen {
                Some(t) => t > now || now - t <= window,
                None => false,
            };
            if is_online {
                count = count + 1;
            }
            i = i + 1;
        }
        assert(ev.take(i as int) =~= ev);
        count
    }

    /// The number of requests of all clients together, stopping at the
    /// largest `u64`.
    pub fn total_requests(&self) -> (r: u64)
        ensures
            r == (if sum_requests(self.entries()) < u64::MAX { sum_requests(self.entries()) } else { u64::MAX as int }),
    {
        let ghost ev = self.entries();
        let mut total: u64 = 0;
        let mut i: usize = 0;
        while i < self.entries.len()
            invariant
                i <= self.entries@.len(),
                ev == self.entries(),
                total == (if sum_requests(ev.take(i as int)) < u64::MAX { sum_requests(ev.take(i as int)) } else { u64::MAX as int }),
            decreases self.entries@.len() - i,
        {
            proof {
                assert(ev.take(i + 1).drop_last() =~= ev.take(i as int));
                assert(ev[i as int] == metric_entry_view(self.entries@[i as int]));
                assert(sum_requests(ev.take(i as int)) >= 0) by {
                    lemma_sum_nonneg(ev.take(i as int));
                }
            }
            let c = self.entries[i].1.request_count;
            if total < u64::MAX - c {
                total = total + c;
            } else {
                total = u64::MAX;
            }
            i = i + 1;
        }
        assert(ev.take(i as int) =~= ev);
        total
    }
}

/// A request never drops a client, and never lowers a client's count.
pub proof fn lemma_requests_only_grow(m: Map<Seq<char>, UserMetricView>, ip: Seq<char>, uri: Seq<char>, now: u64)
    ensures
        m.dom().subset_of(after_request(m, ip, uri, now).dom()),
        forall|k: Seq<char>| #[trigger] m.contains_key(k) ==> after_request(m, ip, uri, now)[k].request_count >= m[k].request_count,
{
}

proof fn lemma_sum_nonneg(entries: Seq<(Seq<char>, UserMetricView)>)
    ensures
        sum_requests(entries) >= 0,
    decreases entries.len(),
{
    if entries.len() > 0 {
        lemma_sum_nonneg(entries.drop_last());
    }
}

} // verus!
