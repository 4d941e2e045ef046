//! The proxy pool: working set, dead set and stats archive, with validation
//! bookkeeping, fairness-aware selection, failure tracking and eviction.
//!
//! A proxy is identified by its endpoint URL. Once validation has run, every
//! known URL is in exactly one of the working set and the dead set; eviction
//! (working to dead) is one-way and fires exactly when a proxy's failure
//! count reaches the configured threshold. A live proxy's failure count only
//! ever rises, by one per reported failure, until an explicit success report
//! resets it to zero: each operation's contract below pins the new count
//! exactly.

use crate::config::Config;
use crate::error::ProxyError;
use crate::stats::{hist_bump, stats_equiv, strings_view, ProxyStats};
use crate::utils::{trim, trim_spec};
use vstd::prelude::*;
use vstd::string::StringExecFns;

verus! {

/// Mutable per-proxy record while the proxy is in the working set.
#[derive(Debug)]
pub struct ProxyState {
    pub url: String,
    /// Consecutive failures since the last success.
    pub failures: u32,
    /// Tick of the most recent selection or success, as supplied by callers.
    pub last_used: u64,
    pub stats: ProxyStats,
}

/// No two working entries share a URL.
pub open spec fn urls_unique(w: Seq<ProxyState>) -> bool {
    forall|i: int, j: int|
        0 <= i < w.len() && 0 <= j < w.len() && i != j ==> w[i].url@ != w[j].url@
}

/// Whether some working entry has the URL `u`.
pub open spec fn contains_url(w: Seq<ProxyState>, u: Seq<char>) -> bool {
    exists|i: int| 0 <= i < w.len() && w[i].url@ == u
}

/// The index of the working entry with URL `u` (meaningful when present and
/// the URLs are unique).
pub open spec fn url_index(w: Seq<ProxyState>, u: Seq<char>) -> int {
    choose|i: int| 0 <= i < w.len() && w[i].url@ == u
}

/// Whether the dead list holds the URL `u`.
pub open spec fn dead_contains(d: Seq<String>, u: Seq<char>) -> bool {
    exists|i: int| 0 <= i < d.len() && d[i]@ == u
}

/// Whether the archive holds stats for the URL `u`.
pub open spec fn archive_contains(a: Seq<(String, ProxyStats)>, u: Seq<char>) -> bool {
    exists|i: int| 0 <= i < a.len() && a[i].0@ == u
}

/// The stats record of a proxy that has just passed validation: marked
/// successful, with no requests recorded yet.
pub open spec fn fresh_validated_stats(s: ProxyStats) -> bool {
    &&& s.wf()
    &&& s.validation_status matches Some(v) && v@ == "success"@
    &&& s.total_requests == 0
    &&& s.successful_requests == 0
    &&& s.failed_requests == 0
    &&& s.status_codes@.len() == 0
    &&& s.successful_urls@.len() == 0
    &&& s.failed_urls@.len() == 0
}

/// How `ProxyStats::record_success` relates a new stats record to an old one.
pub open spec fn success_recorded(
    olds: ProxyStats,
    news: ProxyStats,
    url: Seq<char>,
    code: u16,
) -> bool {
    &&& news.validation_status == olds.validation_status
    &&& news.total_requests == olds.total_requests + 1
    &&& news.successful_requests == olds.successful_requests + 1
    &&& news.failed_requests == olds.failed_requests
    &&& news.status_codes@ == hist_bump(olds.status_codes@, code)
    &&& strings_view(news.successful_urls@) == strings_view(olds.successful_urls@).push(url)
    &&& news.failed_urls == olds.failed_urls
}

/// How `ProxyStats::record_failure` relates a new stats record to an old one.
pub open spec fn failure_recorded(
    olds: ProxyStats,
    news: ProxyStats,
    url: Seq<char>,
    reason: Seq<char>,
    code: Option<u16>,
) -> bool {
    &&& news.validation_status == olds.validation_status
    &&& news.total_requests == olds.total_requests + 1
    &&& news.successful_requests == olds.successful_requests
    &&& news.failed_requests == olds.failed_requests + 1
    &&& news.status_codes@ == match code {
        Some(c) => hist_bump(olds.status_codes@, c),
        None => olds.status_codes@,
    }
    &&& news.successful_urls == olds.successful_urls
    &&& news.failed_urls@.len() == olds.failed_urls@.len() + 1
    &&& forall|i: int|
        0 <= i < olds.failed_urls@.len() ==> news.failed_urls@[i] == #[trigger] olds.failed_urls@[i]
    &&& news.failed_urls@.last().0@ == url
    &&& news.failed_urls@.last().1@ == reason
}

/// Selection order, non-strict: `a` is at least as good a choice as `b` —
/// fewer recorded failures first, ties broken by least-recent use.
pub open spec fn sel_le(a: ProxyState, b: ProxyState) -> bool {
    a.failures < b.failures || (a.failures == b.failures && a.last_used <= b.last_used)
}

/// Selection order, strict.
pub open spec fn sel_lt(a: ProxyState, b: ProxyState) -> bool {
    a.failures < b.failures || (a.failures == b.failures && a.last_used < b.last_used)
}

/// `b` is the index selection must pick from `w`: no entry is a strictly
/// better choice, and every earlier entry is strictly worse (so the first
/// optimum wins).
pub open spec fn is_selected(w: Seq<ProxyState>, b: int) -> bool {
    &&& 0 <= b < w.len()
    &&& forall|i: int| 0 <= i < w.len() ==> sel_le(w[b], #[trigger] w[i])
    &&& forall|i: int| 0 <= i < b ==> sel_lt(w[b], #[trigger] w[i])
}

/// What a successful `get_proxy` call does: it returns the URL of the
/// selected entry and refreshes that entry's timestamp, touching nothing
/// else.
pub open spec fn selection_ok(
    oldw: Seq<ProxyState>,
    neww: Seq<ProxyState>,
    u: Seq<char>,
    b: int,
    now: u64,
) -> bool {
    &&& is_selected(oldw, b)
    &&& u == oldw[b].url@
    &&& neww.len() == oldw.len()
    &&& forall|j: int| 0 <= j < oldw.len() && j != b ==> neww[j] == #[trigger] oldw[j]
    &&& neww[b].url == oldw[b].url
    &&& neww[b].failures == oldw[b].failures
    &&& neww[b].stats == oldw[b].stats
    &&& neww[b].last_used == now
}

/// A selection happened: some index satisfied `is_selected` and the pool
/// was updated accordingly.
pub open spec fn selection_performed(
    oldw: Seq<ProxyState>,
    neww: Seq<ProxyState>,
    u: Seq<char>,
    now: u64,
) -> bool {
    exists|b: int| selection_ok(oldw, neww, u, b, now)
}

/// Some probe outcome concerns the URL `u`.
pub open spec fn outcome_has(outs: Seq<(String, bool)>, u: Seq<char>) -> bool {
    exists|i: int| 0 <= i < outs.len() && outs[i].0@ == u
}

/// The first probe outcome for the URL `u` exists and is a success. (The
/// first one decides: later outcomes for a URL the pool already knows are
/// ignored.)
pub open spec fn first_outcome_success(outs: Seq<(String, bool)>, u: Seq<char>) -> bool {
    exists|i: int|
        {
            &&& 0 <= i < outs.len()
            &&& outs[i].0@ == u
            &&& outs[i].1
            &&& forall|j: int| 0 <= j < i ==> (#[trigger] outs[j]).0@ != u
        }
}

/// How appending outcome `i` changes `outcome_has` and
/// `first_outcome_success` over the prefix of outcomes seen so far.
proof fn lemma_outcome_step(outs: Seq<(String, bool)>, i: int, v: Seq<char>)
    requires
        0 <= i < outs.len(),
    ensures
        outcome_has(outs.take(i + 1), v) == (outcome_has(outs.take(i), v) || outs[i].0@ == v),
        outs[i].0@ != v ==> first_outcome_success(outs.take(i + 1), v) == first_outcome_success(
            outs.take(i),
            v,
        ),
        outs[i].0@ == v && !outcome_has(outs.take(i), v) ==> first_outcome_success(
            outs.take(i + 1),
            v,
        ) == outs[i].1,
        outs[i].0@ == v && outcome_has(outs.take(i), v) ==> first_outcome_success(
            outs.take(i + 1),
            v,
        ) == first_outcome_success(outs.take(i), v),
{
    let t0 = outs.take(i);
    let t1 = outs.take(i + 1);
    assert(t0.len() == i);
    assert(t1.len() == i + 1);
    assert(forall|j: int| 0 <= j < i ==> t0[j] == #[trigger] outs[j]);
    assert(forall|j: int| 0 <= j <= i ==> t1[j] == #[trigger] outs[j]);
    // outcome_has
    if outcome_has(t1, v) {
        let k = choose|k: int| 0 <= k < t1.len() && t1[k].0@ == v;
        if k < i {
            assert(t0[k].0@ == v);
        } else {
            assert(outs[i].0@ == v);
        }
    }
    if outcome_has(t0, v) {
        let k = choose|k: int| 0 <= k < t0.len() && t0[k].0@ == v;
        assert(t1[k].0@ == v);
    }
    if outs[i].0@ == v {
        assert(t1[i].0@ == v);
    }
    // first_outcome_success, forward transfers
    if first_outcome_success(t0, v) {
        let k = choose|k: int|
            {
                &&& 0 <= k < t0.len()
                &&& t0[k].0@ == v
                &&& t0[k].1
                &&& forall|j: int| 0 <= j < k ==> (#[trigger] t0[j]).0@ != v
            };
        assert(t1[k].0@ == v && t1[k].1);
        assert(forall|j: int| 0 <= j < k ==> (#[trigger] t1[j]).0@ != v);
        assert(first_outcome_success(t1, v));
    }
    if outs[i].0@ == v && !outcome_has(t0, v) && outs[i].1 {
        assert(t1[i].0@ == v && t1[i].1);
        assert forall|j: int| 0 <= j < i implies (#[trigger] t1[j]).0@ != v by {
            assert(t0[j] == t1[j]);
            if t0[j].0@ == v {
                assert(outcome_has(t0, v));
            }
        }
        assert(first_outcome_success(t1, v));
    }
    // first_outcome_success, backward transfers
    if first_outcome_success(t1, v) {
        let k = choose|k: int|
            {
                &&& 0 <= k < t1.len()
                &&& t1[k].0@ == v
                &&& t1[k].1
                &&& forall|j: int| 0 <= j < k ==> (#[trigger] t1[j]).0@ != v
            };
        if k < i {
            assert(t0[k].0@ == v && t0[k].1);
            assert(forall|j: int| 0 <= j < k ==> (#[trigger] t0[j]).0@ != v);
            assert(first_outcome_success(t0, v));
        } else {
            // The deciding outcome is the new one: nothing before it matched.
            assert(k == i);
            assert(outs[i].0@ == v && outs[i].1);
            assert forall|j: int| 0 <= j < i implies (#[trigger] t0[j]).0@ != v by {
                assert(t0[j] == t1[j]);
            }
            assert(!outcome_has(t0, v));
        }
    }
}

/// Membership in a working set that grew by one entry at the end.
proof fn lemma_contains_after_push(oldw: Seq<ProxyState>, neww: Seq<ProxyState>)
    requires
        neww.len() == oldw.len() + 1,
        forall|i: int| 0 <= i < oldw.len() ==> neww[i] == #[trigger] oldw[i],
    ensures
        forall|v: Seq<char>|
            #![trigger contains_url(neww, v)]
            contains_url(neww, v) == (contains_url(oldw, v) || neww.last().url@ == v),
{
    assert forall|v: Seq<char>|
        contains_url(neww, v) == (contains_url(oldw, v) || neww.last().url@ == v) by {
        if contains_url(neww, v) {
            let k = choose|k: int| 0 <= k < neww.len() && neww[k].url@ == v;
            if k < oldw.len() {
                assert(oldw[k].url@ == v);
            }
        }
        if contains_url(oldw, v) {
            let k = choose|k: int| 0 <= k < oldw.len() && oldw[k].url@ == v;
            assert(neww[k].url@ == v);
        }
        if neww.last().url@ == v {
            assert(neww[neww.len() - 1].url@ == v);
        }
    }
}

/// Membership in a dead list that grew by one URL at the end.
proof fn lemma_dead_after_push(oldd: Seq<String>, newd: Seq<String>)
    requires
        newd.len() == oldd.len() + 1,
        forall|i: int| 0 <= i < oldd.len() ==> newd[i] == #[trigger] oldd[i],
    ensures
        forall|v: Seq<char>|
            #![trigger dead_contains(newd, v)]
            dead_contains(newd, v) == (dead_contains(oldd, v) || newd.last()@ == v),
{
    assert forall|v: Seq<char>|
        dead_contains(newd, v) == (dead_contains(oldd, v) || newd.last()@ == v) by {
        if dead_contains(newd, v) {
            let k = choose|k: int| 0 <= k < newd.len() && newd[k]@ == v;
            if k < oldd.len() {
                assert(oldd[k]@ == v);
            }
        }
        if dead_contains(oldd, v) {
            let k = choose|k: int| 0 <= k < oldd.len() && oldd[k]@ == v;
            assert(newd[k]@ == v);
        }
        if newd.last()@ == v {
            assert(newd[newd.len() - 1]@ == v);
        }
    }
}

/// A first successful outcome is in particular an outcome.
proof fn lemma_fos_implies_has(outs: Seq<(String, bool)>, u: Seq<char>)
    requires
        first_outcome_success(outs, u),
    ensures
        outcome_has(outs, u),
{
    let k = choose|k: int|
        {
            &&& 0 <= k < outs.len()
            &&& outs[k].0@ == u
            &&& outs[k].1
            &&& forall|j: int| 0 <= j < k ==> (#[trigger] outs[j]).0@ != u
        };
    assert(0 <= k < outs.len() && outs[k].0@ == u);
}

/// Law: after the validation phase, every probed candidate URL is in exactly
/// one of the working set and the dead list — never both, never neither.
/// The first two hypotheses are exactly what `validate_proxies` ensures.
pub proof fn lemma_probe_partition(m: ProxyManager, outs: Seq<(String, bool)>, u: Seq<char>)
    requires
        m.wf(),
        forall|v: Seq<char>| contains_url(m.working@, v) == first_outcome_success(outs, v),
        forall|v: Seq<char>|
            dead_contains(m.dead@, v) == (outcome_has(outs, v) && !first_outcome_success(outs, v)),
        outcome_has(outs, u),
    ensures
        contains_url(m.working@, u) != dead_contains(m.dead@, u),
{
    assert(contains_url(m.working@, u) == first_outcome_success(outs, u));
    assert(dead_contains(m.dead@, u) == !first_outcome_success(outs, u));
}

/// At most one index can satisfy `is_selected`: selection is deterministic.
pub proof fn lemma_selected_unique(w: Seq<ProxyState>, b1: int, b2: int)
    requires
        is_selected(w, b1),
        is_selected(w, b2),
    ensures
        b1 == b2,
{
    if b1 < b2 {
        assert(sel_lt(w[b2], w[b1]));
        assert(sel_le(w[b1], w[b2]));
    } else if b2 < b1 {
        assert(sel_lt(w[b1], w[b2]));
        assert(sel_le(w[b2], w[b1]));
    }
}

/// Law (failure counts differ): if one working entry has strictly fewer
/// recorded failures than every other, selection picks it, whatever the
/// timestamps are.
pub proof fn lemma_selection_prefers_fewer_failures(w: Seq<ProxyState>, s: int, i: int)
    requires
        is_selected(w, s),
        0 <= i < w.len(),
        forall|j: int| 0 <= j < w.len() && j != i ==> w[i].failures < (#[trigger] w[j]).failures,
    ensures
        s == i,
{
    if s != i {
        assert(sel_le(w[s], w[i]));
        assert(w[i].failures < w[s].failures);
    }
}

/// Law (failure counts equal): among working entries with equal failure
/// counts, selection picks the least recently used one.
pub proof fn lemma_selection_prefers_least_recent(w: Seq<ProxyState>, s: int, i: int)
    requires
        is_selected(w, s),
        0 <= i < w.len(),
        forall|j: int| 0 <= j < w.len() ==> (#[trigger] w[j]).failures == w[i].failures,
        forall|j: int|
            0 <= j < w.len() && j != i ==> w[i].last_used < (#[trigger] w[j]).last_used,
    ensures
        s == i,
{
    if s != i {
        assert(sel_le(w[s], w[i]));
        assert(w[s].failures == w[i].failures);
        assert(w[i].last_used < w[s].last_used);
    }
}

/// What candidate preparation yields: each supplied line trimmed, blank
/// lines dropped, and the proxy scheme prefixed to the rest.
pub open spec fn candidates_spec(lines: Seq<Seq<char>>) -> Seq<Seq<char>>
    decreases lines.len(),
{
    if lines.len() == 0 {
        Seq::empty()
    } else {
        let rest = candidates_spec(lines.drop_last());
        let t = trim_spec(lines.last());
        if t.len() == 0 {
            rest
        } else {
            rest.push("socks5://"@ + t)
        }
    }
}

/// Turns the raw lines of a proxy source file into candidate endpoints:
/// whitespace is trimmed, blank lines are ignored, and the fixed proxy
/// scheme is applied to each remaining `host:port`.
pub fn prepare_candidates(lines: &Vec<String>) -> (r: Vec<String>)
    ensures
        strings_view(r@) == candidates_spec(strings_view(lines@)),
{
    let mut out: Vec<String> = Vec::new();
    let n = lines.len();
    let mut i: usize = 0;
    proof {
        assert(strings_view(lines@).take(0) =~= Seq::<Seq<char>>::empty());
        assert(strings_view(out@) =~= candidates_spec(strings_view(lines@).take(0)));
    }
    while i < n
        invariant
            n == lines@.len(),
            i <= n,
            strings_view(out@) == candidates_spec(strings_view(lines@).take(i as int)),
        decreases n - i,
    {
        let ghost pre = strings_view(out@);
        let t = trim(lines[i].as_str());
        if !t.is_empty() {
            let candidate = "socks5://".to_owned().concat(t);
            out.push(candidate);
            proof {
                assert(strings_view(out@) =~= pre.push("socks5://"@ + t@));
            }
        }
        proof {
            let lv = strings_view(lines@);
            assert(lv.take(i as int + 1).drop_last() =~= lv.take(i as int));
            assert(lv.take(i as int + 1).last() == lv[i as int]);
            assert(lv[i as int] == lines@[i as int]@);
        }
        i = i + 1;
    }
    proof {
        assert(strings_view(lines@).take(n as int) =~= strings_view(lines@));
    }
    out
}

/// One line of the diagnostic report: a proxy, whether it is still working,
/// and a snapshot of its stats (`None` for a proxy that died before
/// validation ever succeeded, since no stats are created for those).
pub struct ReportEntry {
    pub url: String,
    pub active: bool,
    pub stats: Option<ProxyStats>,
}

/// Read-only diagnostic summary over the pool: the two counts, then one
/// entry per proxy — working proxies first, in stored key order, then dead
/// proxies in eviction order.
pub struct Report {
    pub working_count: usize,
    pub dead_count: usize,
    pub entries: Vec<ReportEntry>,
}

/// The index of the archive entry for `u` (meaningful when present and keys
/// are unique).
pub open spec fn archive_index(a: Seq<(String, ProxyStats)>, u: Seq<char>) -> int {
    choose|i: int| 0 <= i < a.len() && a[i].0@ == u
}

/// The pool. The three collections are the only shared mutable state of the
/// system; every operation below observes and produces a consistent view.
pub struct ProxyManager {
    pub working: Vec<ProxyState>,
    pub dead: Vec<String>,
    pub archive: Vec<(String, ProxyStats)>,
    pub config: Config,
}

impl ProxyManager {
    /// The configured failure threshold before eviction.
    pub open spec fn spec_threshold(self) -> u32 {
        self.config.proxy.max_retries
    }

    /// Pool invariant: URLs are unique within each collection, no URL is both
    /// working and dead, archived stats belong to dead proxies, the threshold
    /// is positive, and every live failure count is still below it.
    pub open spec fn wf(self) -> bool {
        &&& urls_unique(self.working@)
        &&& forall|i: int, j: int|
            0 <= i < self.dead@.len() && 0 <= j < self.dead@.len() && i != j
                ==> self.dead@[i]@ != self.dead@[j]@
        &&& forall|i: int|
            0 <= i < self.working@.len() ==> !dead_contains(
                self.dead@,
                (#[trigger] self.working@[i]).url@,
            )
        &&& forall|i: int, j: int|
            0 <= i < self.archive@.len() && 0 <= j < self.archive@.len() && i != j
                ==> self.archive@[i].0@ != self.archive@[j].0@
        &&& forall|i: int|
            0 <= i < self.archive@.len() ==> dead_contains(
                self.dead@,
                (#[trigger] self.archive@[i]).0@,
            )
        &&& self.spec_threshold() >= 1
        &&& forall|i: int|
            0 <= i < self.working@.len() ==> (#[trigger] self.working@[i]).failures
                < self.spec_threshold()
        &&& forall|i: int| 0 <= i < self.working@.len() ==> (#[trigger] self.working@[i]).stats.wf()
        &&& forall|i: int| 0 <= i < self.archive@.len() ==> (#[trigger] self.archive@[i]).1.wf()
    }

    /// A fresh, empty pool. Validation outcomes are fed in afterwards through
    /// `validate_proxies`; the probes themselves run outside this core.
    pub fn new(config: Config) -> (r: ProxyManager)
        requires
            config.proxy.max_retries >= 1,
        ensures
            r.wf(),
            r.working@.len() == 0,
            r.dead@.len() == 0,
            r.archive@.len() == 0,
            r.config == config,
    {
        ProxyManager { working: Vec::new(), dead: Vec::new(), archive: Vec::new(), config }
    }

    /// The failure threshold before eviction.
    pub fn get_max_retries(&self) -> (r: u32)
        ensures
            r == self.spec_threshold(),
    {
        self.config.proxy.max_retries
    }

    /// The per-probe timeout, in seconds.
    pub fn get_request_timeout(&self) -> (r: u64)
        ensures
            r == self.config.proxy.request_timeout,
    {
        self.config.proxy.request_timeout
    }

    /// The maximum number of validation probes in flight at once.
    pub fn get_concurrent_validations(&self) -> (r: usize)
        ensures
            r == self.config.proxy.concurrent_validations,
    {
        self.config.proxy.concurrent_validations
    }

    /// Records the outcome of one validation probe. A URL the pool already
    /// knows is left untouched, so no candidate can end up in both sets; a
    /// new URL joins the working set on success (fresh state and stats) and
    /// the dead list on failure.
    pub fn record_probe_outcome(&mut self, url: String, success: bool, now: u64)
        requires
            old(self).wf(),
        ensures
            final(self).wf(),
            final(self).config == old(self).config,
            final(self).archive == old(self).archive,
            ({
                let known = contains_url(old(self).working@, url@) || dead_contains(
                    old(self).dead@,
                    url@,
                );
                if known {
                    final(self).working == old(self).working && final(self).dead == old(self).dead
                } else if success {
                    &&& final(self).dead == old(self).dead
                    &&& final(self).working@.len() == old(self).working@.len() + 1
                    &&& forall|i: int|
                        0 <= i < old(self).working@.len() ==> final(self).working@[i]
                            == #[trigger] old(self).working@[i]
                    &&& final(self).working@.last().url == url
                    &&& final(self).working@.last().failures == 0
                    &&& final(self).working@.last().last_used == now
                    &&& fresh_validated_stats(final(self).working@.last().stats)
                } else {
                    &&& final(self).working == old(self).working
                    &&& final(self).dead@ == old(self).dead@.push(url)
                }
            }),
    {
        if self.known_url(&url) {
            return ;
        }
        if success {
            let mut stats = ProxyStats::new();
            stats.set_validation_status("success".to_owned());
            let state = ProxyState { url, failures: 0, last_used: now, stats };
            self.working.push(state);
            proof {
                assert forall|i: int, j: int|
                    0 <= i < self.working@.len() && 0 <= j < self.working@.len() && i
                        != j implies self.working@[i].url@ != self.working@[j].url@ by {
                    if i == self.working@.len() - 1 || j == self.working@.len() - 1 {
                        assert(!contains_url(old(self).working@, self.working@.last().url@));
                    }
                }
            }
        } else {
            self.dead.push(url);
            proof {
                assert forall|i: int|
                    0 <= i < self.working@.len() implies !dead_contains(
                    self.dead@,
                    (#[trigger] self.working@[i]).url@,
                ) by {
                    assert(!dead_contains(old(self).dead@, self.working@[i].url@));
                    assert(!contains_url(old(self).working@, self.dead@.last()@));
                }
                assert forall|i: int|
                    0 <= i < self.archive@.len() implies dead_contains(
                    self.dead@,
                    (#[trigger] self.archive@[i]).0@,
                ) by {
                    assert(dead_contains(old(self).dead@, self.archive@[i].0@));
                    let k = choose|k: int|
                        0 <= k < old(self).dead@.len() && old(self).dead@[k]@ == self.archive@[i].0@;
                    assert(self.dead@[k]@ == self.archive@[i].0@);
                }
            }
        }
    }

    /// The entry (if any) for `u` has room left in its request counters.
    /// Counters only ever grow, so a caller must leave headroom for one more
    /// recorded request.
    pub open spec fn stats_have_room(self, u: Seq<char>) -> bool {
        contains_url(self.working@, u) ==> self.working@[url_index(
            self.working@,
            u,
        )].stats.total_requests < usize::MAX
    }

    /// Reports a successful real request through `proxy_url`. If that proxy
    /// is still working, its failure count resets to 0, its timestamp
    /// refreshes, and its stats record the success; if it has already been
    /// evicted (or was never known), this is a silent no-op.
    pub fn mark_proxy_success(&mut self, proxy_url: &str, url: &str, status_code: u16, now: u64)
        requires
            old(self).wf(),
            old(self).stats_have_room(proxy_url@),
        ensures
            final(self).wf(),
            final(self).config == old(self).config,
            final(self).dead == old(self).dead,
            final(self).archive == old(self).archive,
            !contains_url(old(self).working@, proxy_url@) ==> final(self).working == old(
                self,
            ).working,
            contains_url(old(self).working@, proxy_url@) ==> ({
                let i = url_index(old(self).working@, proxy_url@);
                &&& final(self).working@.len() == old(self).working@.len()
                &&& forall|j: int|
                    0 <= j < old(self).working@.len() && j != i ==> final(self).working@[j]
                        == #[trigger] old(self).working@[j]
                &&& final(self).working@[i].url == old(self).working@[i].url
                &&& final(self).working@[i].failures == 0
                &&& final(self).working@[i].last_used == now
                &&& success_recorded(
                    old(self).working@[i].stats,
                    final(self).working@[i].stats,
                    url@,
                    status_code,
                )
            }),
    {
        let found = self.find_working(proxy_url);
        if let Some(i) = found {
            let ghost gi = url_index(old(self).working@, proxy_url@);
            proof {
                assert(old(self).working@[gi].url@ == proxy_url@);
                assert(gi == i as int);
            }
            let entry = self.working.remove(i);
            let mut stats = entry.stats;
            stats.record_success(url.to_owned(), status_code);
            proof {
                assert(strings_view(stats.successful_urls@) =~= strings_view(
                    old(self).working@[i as int].stats.successful_urls@,
                ).push(url@));
            }
            let refreshed = ProxyState { url: entry.url, failures: 0, last_used: now, stats };
            self.working.insert(i, refreshed);
            proof {
                assert forall|j: int|
                    0 <= j < self.working@.len() implies !dead_contains(
                    self.dead@,
                    (#[trigger] self.working@[j]).url@,
                ) by {
                    assert(self.working@[j].url@ == old(self).working@[j].url@);
                }
            }
        }
    }

    /// Acquires a proxy for the next request. First sweeps any entry whose
    /// failure count has reached the threshold into the dead list (under the
    /// pool invariant the sweep finds nothing, since failure reporting evicts
    /// eagerly; it is kept as the selection-side half of the eviction
    /// contract). Then, if the pool is empty, fails — `AllProxiesExhausted`
    /// when proxies once existed, `NoWorkingProxies` when none ever did —
    /// and otherwise returns the entry with the fewest failures, ties broken
    /// by least-recent use, refreshing its timestamp.
    #[verifier::rlimit(50)]
    pub fn get_proxy(&mut self, now: u64) -> (r: Result<String, ProxyError>)
        requires
            old(self).wf(),
        ensures
            final(self).wf(),
            final(self).config == old(self).config,
            final(self).dead == old(self).dead,
            final(self).archive == old(self).archive,
            old(self).working@.len() == 0 ==> final(self).working == old(self).working,
            old(self).working@.len() == 0 && old(self).dead@.len() > 0 ==> (r matches Err(e)
                && e matches ProxyError::AllProxiesExhausted { failed_proxies } && {
                &&& failed_proxies@.len() == old(self).dead@.len()
                &&& forall|i: int|
                    0 <= i < old(self).dead@.len() ==> (#[trigger] failed_proxies@[i]).0@ == old(
                        self,
                    ).dead@[i]@ && failed_proxies@[i].1@ == "Max retries exceeded"@
            }),
            old(self).working@.len() == 0 && old(self).dead@.len() == 0 ==> r == Err::<
                String,
                ProxyError,
            >(ProxyError::NoWorkingProxies),
            old(self).working@.len() > 0 ==> r is Ok && selection_performed(
                old(self).working@,
                final(self).working@,
                r->Ok_0@,
                now,
            ),
    {
        let threshold = self.config.proxy.max_retries;
        // Lazy eviction sweep, step 1 of selection.
        let mut k: usize = 0;
        while k < self.working.len()
            invariant
                old(self).wf(),
                self.working == old(self).working,
                self.dead == old(self).dead,
                self.archive == old(self).archive,
                self.config == old(self).config,
                threshold == old(self).spec_threshold(),
                k <= self.working@.len(),
            decreases self.working@.len() - k,
        {
            if self.working[k].failures >= threshold {
                // Unreachable while the invariant holds: every live entry is
                // below the threshold.
                let entry = self.working.remove(k);
                self.dead.push(entry.url.clone());
                self.archive.push((entry.url, entry.stats));
            } else {
                k = k + 1;
            }
        }
        if self.working.len() == 0 {
            if self.dead.len() > 0 {
                let m = self.dead.len();
                let mut failed: Vec<(String, String)> = Vec::new();
                let mut t: usize = 0;
                while t < m
                    invariant
                        self.dead == old(self).dead,
                        m == self.dead@.len(),
                        t <= m,
                        failed@.len() == t,
                        forall|i: int|
                            0 <= i < t ==> (#[trigger] failed@[i]).0@ == self.dead@[i]@
                                && failed@[i].1@ == "Max retries exceeded"@,
                    decreases m - t,
                {
                    failed.push((self.dead[t].clone(), "Max retries exceeded".to_owned()));
                    t = t + 1;
                }
                return Err(ProxyError::AllProxiesExhausted { failed_proxies: failed });
            } else {
                return Err(ProxyError::NoWorkingProxies);
            }
        }
        // Selection, steps 3 and 4: first entry minimal in
        // (failures ascending, last_used ascending).
        let n = self.working.len();
        let mut best: usize = 0;
        let mut j: usize = 1;
        while j < n
            invariant
                self.working == old(self).working,
                n == self.working@.len(),
                best < j <= n,
                forall|i: int|
                    0 <= i < j ==> sel_le(self.working@[best as int], #[trigger] self.working@[i]),
                forall|i: int|
                    0 <= i < best ==> sel_lt(
                        self.working@[best as int],
                        #[trigger] self.working@[i],
                    ),
            decreases n - j,
        {
            let cand_failures = self.working[j].failures;
            let cand_last = self.working[j].last_used;
            let best_failures = self.working[best].failures;
            let best_last = self.working[best].last_used;
            if cand_failures < best_failures || (cand_failures == best_failures && cand_last
                < best_last) {
                best = j;
            }
            j = j + 1;
        }
        let entry = self.working.remove(best);
        let selected = entry.url.clone();
        let refreshed = ProxyState {
            url: entry.url,
            failures: entry.failures,
            last_used: now,
            stats: entry.stats,
        };
        self.working.insert(best, refreshed);
        proof {
            assert(is_selected(old(self).working@, best as int));
            assert(selection_ok(
                old(self).working@,
                self.working@,
                selected@,
                best as int,
                now,
            ));
            assert(selection_performed(old(self).working@, self.working@, selected@, now));
            assert forall|i: int|
                0 <= i < self.working@.len() implies !dead_contains(
                self.dead@,
                (#[trigger] self.working@[i]).url@,
            ) by {
                assert(self.working@[i].url@ == old(self).working@[i].url@);
            }
            assert forall|i: int, j2: int|
                0 <= i < self.working@.len() && 0 <= j2 < self.working@.len() && i
                    != j2 implies self.working@[i].url@ != self.working@[j2].url@ by {
                assert(self.working@[i].url@ == old(self).working@[i].url@);
                assert(self.working@[j2].url@ == old(self).working@[j2].url@);
            }
        }
        Ok(selected)
    }

    /// Reports a failed real request through `proxy_url`. If that proxy is
    /// still working, its failure count rises by one and its stats record the
    /// failure; the proxy is evicted — removed from the working set, its URL
    /// appended to the dead list, its stats archived — exactly when the new
    /// count reaches the threshold. An unknown or already-evicted proxy is
    /// left untouched.
    pub fn mark_proxy_failure(
        &mut self,
        proxy_url: &str,
        error: &str,
        status_code: Option<u16>,
        request_url: &str,
    )
        requires
            old(self).wf(),
            old(self).stats_have_room(proxy_url@),
        ensures
            final(self).wf(),
            final(self).config == old(self).config,
            !contains_url(old(self).working@, proxy_url@) ==> final(self).working == old(
                self,
            ).working && final(self).dead == old(self).dead && final(self).archive == old(
                self,
            ).archive,
            contains_url(old(self).working@, proxy_url@) ==> ({
                let i = url_index(old(self).working@, proxy_url@);
                let p = old(self).working@[i];
                if p.failures + 1 < old(self).spec_threshold() {
                    &&& final(self).dead == old(self).dead
                    &&& final(self).archive == old(self).archive
                    &&& final(self).working@.len() == old(self).working@.len()
                    &&& forall|j: int|
                        0 <= j < old(self).working@.len() && j != i ==> final(self).working@[j]
                            == #[trigger] old(self).working@[j]
                    &&& final(self).working@[i].url == p.url
                    &&& final(self).working@[i].failures == p.failures + 1
                    &&& final(self).working@[i].last_used == p.last_used
                    &&& failure_recorded(
                        p.stats,
                        final(self).working@[i].stats,
                        request_url@,
                        error@,
                        status_code,
                    )
                } else {
                    &&& p.failures + 1 == old(self).spec_threshold()
                    &&& final(self).working@ == old(self).working@.remove(i)
                    &&& final(self).dead@.len() == old(self).dead@.len() + 1
                    &&& forall|j: int|
                        0 <= j < old(self).dead@.len() ==> final(self).dead@[j] == #[trigger] old(
                            self,
                        ).dead@[j]
                    &&& final(self).dead@.last()@ == proxy_url@
                    &&& final(self).archive@.len() == old(self).archive@.len() + 1
                    &&& forall|j: int|
                        0 <= j < old(self).archive@.len() ==> final(self).archive@[j]
                            == #[trigger] old(self).archive@[j]
                    &&& final(self).archive@.last().0 == p.url
                    &&& failure_recorded(
                        p.stats,
                        final(self).archive@.last().1,
                        request_url@,
                        error@,
                        status_code,
                    )
                }
            }),
    {
        let found = self.find_working(proxy_url);
        if let Some(i) = found {
            let ghost gi = url_index(old(self).working@, proxy_url@);
            proof {
                assert(old(self).working@[gi].url@ == proxy_url@);
                assert(gi == i as int);
            }
            let threshold = self.config.proxy.max_retries;
            let entry = self.working.remove(i);
            let mut stats = entry.stats;
            stats.record_failure(request_url.to_owned(), error.to_owned(), status_code);
            let failures = entry.failures + 1;
            if failures >= threshold {
                self.dead.push(entry.url.clone());
                self.archive.push((entry.url, stats));
                proof {
                    let ghost p = old(self).working@[i as int];
                    assert forall|j: int|
                        0 <= j < self.working@.len() implies !dead_contains(
                        self.dead@,
                        (#[trigger] self.working@[j]).url@,
                    ) by {
                        let jj = if j < i as int {
                            j
                        } else {
                            j + 1
                        };
                        assert(self.working@[j] == old(self).working@[jj]);
                        assert(!dead_contains(old(self).dead@, old(self).working@[jj].url@));
                        assert(old(self).working@[jj].url@ != p.url@);
                    }
                    assert(!dead_contains(old(self).dead@, p.url@));
                    assert(!archive_contains(old(self).archive@, p.url@)) by {
                        if archive_contains(old(self).archive@, p.url@) {
                            let k = choose|k: int|
                                0 <= k < old(self).archive@.len() && old(self).archive@[k].0@
                                    == p.url@;
                            assert(dead_contains(old(self).dead@, old(self).archive@[k].0@));
                        }
                    }
                    assert forall|j: int|
                        0 <= j < self.archive@.len() implies dead_contains(
                        self.dead@,
                        (#[trigger] self.archive@[j]).0@,
                    ) by {
                        if j < old(self).archive@.len() {
                            assert(dead_contains(old(self).dead@, old(self).archive@[j].0@));
                            let k = choose|k: int|
                                0 <= k < old(self).dead@.len() && old(self).dead@[k]@ == old(
                                    self,
                                ).archive@[j].0@;
                            assert(self.dead@[k]@ == self.archive@[j].0@);
                        } else {
                            assert(self.dead@.last()@ == self.archive@[j].0@);
                        }
                    }
                }
            } else {
                let refreshed = ProxyState {
                    url: entry.url,
                    failures,
                    last_used: entry.last_used,
                    stats,
                };
                self.working.insert(i, refreshed);
                proof {
                    assert forall|j: int|
                        0 <= j < old(self).working@.len() && j != i as int implies self.working@[j]
                        == old(self).working@[j] by {}
                    assert forall|j: int|
                        0 <= j < self.working@.len() implies !dead_contains(
                        self.dead@,
                        (#[trigger] self.working@[j]).url@,
                    ) by {
                        assert(self.working@[j].url@ == old(self).working@[j].url@);
                    }
                }
            }
        }
    }

    /// The index of the working entry whose URL matches, if any.
    fn find_working(&self, url: &str) -> (r: Option<usize>)
        requires
            urls_unique(self.working@),
        ensures
            match r {
                Some(i) => i < self.working@.len() && self.working@[i as int].url@ == url@ && i
                    as int == url_index(self.working@, url@),
                None => !contains_url(self.working@, url@),
            },
    {
        let key: String = url.to_owned();
        let n = self.working.len();
        let mut i: usize = 0;
        while i < n
            invariant
                n == self.working@.len(),
                i <= n,
                key@ == url@,
                urls_unique(self.working@),
                forall|k: int| 0 <= k < i ==> (#[trigger] self.working@[k]).url@ != url@,
            decreases n - i,
        {
            if self.working[i].url.eq(&key) {
                proof {
                    let w = self.working@;
                    let gi = url_index(w, url@);
                    assert(w[i as int].url@ == url@);
                    assert(0 <= gi < w.len() && w[gi].url@ == url@);
                    assert(gi == i as int);
                }
                return Some(i);
            }
            i = i + 1;
        }
        None
    }

    /// Applies the outcomes of the startup validation probes, in completion
    /// order, to a freshly constructed pool. The first outcome for each URL
    /// decides: success inserts a fresh working entry, anything else appends
    /// the URL to the dead list. Fails with `NoWorkingProxies` exactly when
    /// no candidate survived.
    pub fn validate_proxies(&mut self, outcomes: &Vec<(String, bool)>, now: u64) -> (r: Result<
        (),
        ProxyError,
    >)
        requires
            old(self).wf(),
            old(self).working@.len() == 0,
            old(self).dead@.len() == 0,
            old(self).archive@.len() == 0,
        ensures
            final(self).wf(),
            final(self).config == old(self).config,
            final(self).archive == old(self).archive,
            forall|u: Seq<char>|
                #![trigger contains_url(final(self).working@, u)]
                contains_url(final(self).working@, u) == first_outcome_success(outcomes@, u),
            forall|u: Seq<char>|
                #![trigger dead_contains(final(self).dead@, u)]
                dead_contains(final(self).dead@, u) == (outcome_has(outcomes@, u)
                    && !first_outcome_success(outcomes@, u)),
            forall|i: int|
                0 <= i < final(self).working@.len() ==> {
                    let p = #[trigger] final(self).working@[i];
                    p.failures == 0 && p.last_used == now && fresh_validated_stats(p.stats)
                },
            r is Ok <==> final(self).working@.len() > 0,
            r is Err ==> r == Err::<(), ProxyError>(ProxyError::NoWorkingProxies),
    {
        let ghost outs = outcomes@;
        let n = outcomes.len();
        let mut idx: usize = 0;
        proof {
            assert(outs.take(0) =~= Seq::<(String, bool)>::empty());
        }
        while idx < n
            invariant
                n == outs.len(),
                outs == outcomes@,
                idx <= n,
                self.wf(),
                self.config == old(self).config,
                self.archive == old(self).archive,
                forall|u: Seq<char>|
                    #![trigger contains_url(self.working@, u)]
                    contains_url(self.working@, u) == first_outcome_success(
                        outs.take(idx as int),
                        u,
                    ),
                forall|u: Seq<char>|
                    #![trigger dead_contains(self.dead@, u)]
                    dead_contains(self.dead@, u) == (outcome_has(outs.take(idx as int), u)
                        && !first_outcome_success(outs.take(idx as int), u)),
                forall|i: int|
                    0 <= i < self.working@.len() ==> {
                        let p = #[trigger] self.working@[i];
                        p.failures == 0 && p.last_used == now && fresh_validated_stats(p.stats)
                    },
            decreases n - idx,
        {
            let url = outcomes[idx].0.clone();
            let ok = outcomes[idx].1;
            let ghost pre = *self;
            let ghost t0 = outs.take(idx as int);
            let ghost t1 = outs.take(idx as int + 1);
            let ghost ui = outs[idx as int].0@;
            proof {
                assert(url@ == ui);
                if first_outcome_success(t0, ui) {
                    lemma_fos_implies_has(t0, ui);
                }
                if contains_url(pre.working@, ui) || dead_contains(pre.dead@, ui) {
                    assert(outcome_has(t0, ui));
                }
            }
            self.record_probe_outcome(url, ok, now);
            proof {
                let known = contains_url(pre.working@, ui) || dead_contains(pre.dead@, ui);
                assert(known == outcome_has(t0, ui));
                if !known && ok {
                    lemma_contains_after_push(pre.working@, self.working@);
                    assert(self.working@.last().url@ == ui);
                } else if !known && !ok {
                    lemma_dead_after_push(pre.dead@, self.dead@);
                    assert(self.dead@.last()@ == ui);
                }
                assert forall|u: Seq<char>|
                    contains_url(self.working@, u) == first_outcome_success(t1, u) by {
                    lemma_outcome_step(outs, idx as int, u);
                    if first_outcome_success(t0, u) {
                        lemma_fos_implies_has(t0, u);
                    }
                }
                assert forall|u: Seq<char>|
                    dead_contains(self.dead@, u) == (outcome_has(t1, u) && !first_outcome_success(
                        t1,
                        u,
                    )) by {
                    lemma_outcome_step(outs, idx as int, u);
                    if first_outcome_success(t0, u) {
                        lemma_fos_implies_has(t0, u);
                    }
                    if first_outcome_success(t1, u) {
                        lemma_fos_implies_has(t1, u);
                    }
                }
            }
            idx = idx + 1;
        }
        proof {
            assert(outs.take(n as int) =~= outs);
        }
        if self.working.len() == 0 {
            Err(ProxyError::NoWorkingProxies)
        } else {
            Ok(())
        }
    }

    /// Builds the diagnostic report: pool counts, then per-proxy snapshots —
    /// every working proxy first, in stored key order, then every dead proxy
    /// in eviction order, with its archived stats when validation ever
    /// succeeded for it.
    pub fn report(&self) -> (r: Report)
        requires
            self.wf(),
        ensures
            r.working_count == self.working@.len(),
            r.dead_count == self.dead@.len(),
            r.entries@.len() == self.working@.len() + self.dead@.len(),
            forall|i: int|
                0 <= i < self.working@.len() ==> {
                    let e = #[trigger] r.entries@[i];
                    &&& e.url == self.working@[i].url
                    &&& e.active == true
                    &&& e.stats matches Some(s) && stats_equiv(self.working@[i].stats, s)
                },
            forall|k: int|
                0 <= k < self.dead@.len() ==> {
                    let e = #[trigger] r.entries@[self.working@.len() + k];
                    &&& e.url == self.dead@[k]
                    &&& e.active == false
                    &&& match e.stats {
                        Some(s) => archive_contains(self.archive@, self.dead@[k]@) && stats_equiv(
                            self.archive@[archive_index(self.archive@, self.dead@[k]@)].1,
                            s,
                        ),
                        None => !archive_contains(self.archive@, self.dead@[k]@),
                    }
                },
    {
        let mut entries: Vec<ReportEntry> = Vec::new();
        let wlen = self.working.len();
        let mut i: usize = 0;
        while i < wlen
            invariant
                wlen == self.working@.len(),
                i <= wlen,
                entries@.len() == i,
                forall|t: int|
                    0 <= t < i ==> {
                        let e = #[trigger] entries@[t];
                        &&& e.url == self.working@[t].url
                        &&& e.active == true
                        &&& e.stats matches Some(s) && stats_equiv(self.working@[t].stats, s)
                    },
            decreases wlen - i,
        {
            let entry = ReportEntry {
                url: self.working[i].url.clone(),
                active: true,
                stats: Some(self.working[i].stats.duplicate()),
            };
            proof {
                // Cloned strings agree in view; the report keeps the value.
                assert(entry.url@ == self.working@[i as int].url@);
            }
            entries.push(entry);
            i = i + 1;
        }
        let dlen = self.dead.len();
        let mut k: usize = 0;
        while k < dlen
            invariant
                self.wf(),
                wlen == self.working@.len(),
                dlen == self.dead@.len(),
                k <= dlen,
                entries@.len() == wlen + k,
                forall|t: int|
                    0 <= t < wlen ==> {
                        let e = #[trigger] entries@[t];
                        &&& e.url == self.working@[t].url
                        &&& e.active == true
                        &&& e.stats matches Some(s) && stats_equiv(self.working@[t].stats, s)
                    },
                forall|t: int|
                    0 <= t < k ==> {
                        let e = #[trigger] entries@[wlen + t];
                        &&& e.url == self.dead@[t]
                        &&& e.active == false
                        &&& match e.stats {
                            Some(s) => archive_contains(self.archive@, self.dead@[t]@)
                                && stats_equiv(
                                self.archive@[archive_index(self.archive@, self.dead@[t]@)].1,
                                s,
                            ),
                            None => !archive_contains(self.archive@, self.dead@[t]@),
                        }
                    },
            decreases dlen - k,
        {
            let stats = match self.find_archive(&self.dead[k]) {
                Some(a) => Some(self.archive[a].1.duplicate()),
                None => None,
            };
            let entry = ReportEntry { url: self.dead[k].clone(), active: false, stats };
            entries.push(entry);
            k = k + 1;
        }
        Report { working_count: wlen, dead_count: dlen, entries }
    }

    /// The index of the archive entry whose key matches, if any.
    fn find_archive(&self, url: &String) -> (r: Option<usize>)
        requires
            forall|i: int, j: int|
                0 <= i < self.archive@.len() && 0 <= j < self.archive@.len() && i != j
                    ==> self.archive@[i].0@ != self.archive@[j].0@,
        ensures
            match r {
                Some(a) => a < self.archive@.len() && self.archive@[a as int].0@ == url@ && a as int
                    == archive_index(self.archive@, url@),
                None => !archive_contains(self.archive@, url@),
            },
    {
        let n = self.archive.len();
        let mut i: usize = 0;
        while i < n
            invariant
                n == self.archive@.len(),
                i <= n,
                forall|i2: int, j2: int|
                    0 <= i2 < self.archive@.len() && 0 <= j2 < self.archive@.len() && i2 != j2
                        ==> self.archive@[i2].0@ != self.archive@[j2].0@,
                forall|t: int| 0 <= t < i ==> (#[trigger] self.archive@[t]).0@ != url@,
            decreases n - i,
        {
            if self.archive[i].0.eq(url) {
                proof {
                    let gi = archive_index(self.archive@, url@);
                    assert(self.archive@[i as int].0@ == url@);
                    assert(0 <= gi < self.archive@.len() && self.archive@[gi].0@ == url@);
                    assert(gi == i as int);
                }
                return Some(i);
            }
            i = i + 1;
        }
        None
    }

    /// Whether the pool already tracks `url`, working or dead.
    fn known_url(&self, url: &String) -> (r: bool)
        ensures
            r == (contains_url(self.working@, url@) || dead_contains(self.dead@, url@)),
    {
        let n = self.working.len();
        let mut i: usize = 0;
        while i < n
            invariant
                n == self.working@.len(),
                i <= n,
                forall|k: int| 0 <= k < i ==> (#[trigger] self.working@[k]).url@ != url@,
            decreases n - i,
        {
            if self.working[i].url.eq(url) {
                return true;
            }
            i = i + 1;
        }
        let m = self.dead.len();
        let mut j: usize = 0;
        while j < m
            invariant
                m == self.dead@.len(),
                j <= m,
                forall|k: int| 0 <= k < j ==> (#[trigger] self.dead@[k])@ != url@,
                !contains_url(self.working@, url@),
            decreases m - j,
        {
            if self.dead[j].eq(url) {
                return true;
            }
            j = j + 1;
        }
        false
    }
}

} // verus!
