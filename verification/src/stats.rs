//! Per-proxy performance records: request counters, a status-code histogram,
//! and the lists of successfully and unsuccessfully fetched URLs.

use vstd::prelude::*;

verus! {

/// Performance record of a single proxy. Created once when its validation
/// probe succeeds; it is only relocated (live pool to archive) afterwards,
/// never destroyed.
#[derive(Debug)]
pub struct ProxyStats {
    pub validation_status: Option<String>,
    pub total_requests: usize,
    pub successful_requests: usize,
    pub failed_requests: usize,
    /// Histogram of observed HTTP status codes, keyed by code, keys unique.
    pub status_codes: Vec<(u16, usize)>,
    pub successful_urls: Vec<String>,
    /// Each entry is a `(request url, reason)` pair.
    pub failed_urls: Vec<(String, String)>,
}

/// The views of a sequence of owned strings.
pub open spec fn strings_view(v: Seq<String>) -> Seq<Seq<char>> {
    v.map_values(|s: String| s@)
}

/// `b` carries the same observable record as `a`: equal counters and
/// histogram, and string contents equal character for character.
pub open spec fn stats_equiv(a: ProxyStats, b: ProxyStats) -> bool {
    &&& match (a.validation_status, b.validation_status) {
        (Some(x), Some(y)) => x@ == y@,
        (None, None) => true,
        _ => false,
    }
    &&& b.total_requests == a.total_requests
    &&& b.successful_requests == a.successful_requests
    &&& b.failed_requests == a.failed_requests
    &&& b.status_codes@ == a.status_codes@
    &&& strings_view(b.successful_urls@) == strings_view(a.successful_urls@)
    &&& b.failed_urls@.len() == a.failed_urls@.len()
    &&& forall|i: int|
        0 <= i < a.failed_urls@.len() ==> (#[trigger] b.failed_urls@[i]).0@ == a.failed_urls@[i].0@
            && b.failed_urls@[i].1@ == a.failed_urls@[i].1@
}

/// No status code occurs twice in the histogram.
pub open spec fn hist_keys_unique(h: Seq<(u16, usize)>) -> bool {
    forall|i: int, j: int|
        0 <= i < h.len() && 0 <= j < h.len() && i != j ==> h[i].0 != h[j].0
}

/// Whether the histogram holds an entry for `code`.
pub open spec fn hist_has(h: Seq<(u16, usize)>, code: u16) -> bool {
    exists|i: int| 0 <= i < h.len() && h[i].0 == code
}

/// The histogram after one more observation of `code`: the existing entry is
/// incremented, or a fresh entry with count 1 is appended.
pub open spec fn hist_bump(h: Seq<(u16, usize)>, code: u16) -> Seq<(u16, usize)> {
    if hist_has(h, code) {
        let i = choose|i: int| 0 <= i < h.len() && h[i].0 == code;
        h.update(i, (code, (h[i].1 + 1) as usize))
    } else {
        h.push((code, 1))
    }
}

impl ProxyStats {
    /// Internal consistency: the counters agree with the URL lists, and every
    /// histogram count is bounded by the total number of requests.
    pub open spec fn wf(self) -> bool {
        &&& self.successful_requests == self.successful_urls@.len()
        &&& self.failed_requests == self.failed_urls@.len()
        &&& self.total_requests == self.successful_requests + self.failed_requests
        &&& hist_keys_unique(self.status_codes@)
        &&& forall|i: int|
            0 <= i < self.status_codes@.len() ==> (#[trigger] self.status_codes@[i]).1
                <= self.total_requests
    }

    /// A fresh record: no validation status, no requests seen.
    pub fn new() -> (r: ProxyStats)
        ensures
            r.wf(),
            r.validation_status is None,
            r.total_requests == 0,
            r.successful_requests == 0,
            r.failed_requests == 0,
            r.status_codes@ =~= Seq::<(u16, usize)>::empty(),
            r.successful_urls@ =~= Seq::<String>::empty(),
            r.failed_urls@ =~= Seq::<(String, String)>::empty(),
    {
        ProxyStats {
            validation_status: None,
            total_requests: 0,
            successful_requests: 0,
            failed_requests: 0,
            status_codes: Vec::new(),
            successful_urls: Vec::new(),
            failed_urls: Vec::new(),
        }
    }

    /// Overwrites the validation status; everything else is untouched.
    pub fn set_validation_status(&mut self, status: String)
        ensures
            final(self).validation_status == Some(status),
            final(self).total_requests == old(self).total_requests,
            final(self).successful_requests == old(self).successful_requests,
            final(self).failed_requests == old(self).failed_requests,
            final(self).status_codes == old(self).status_codes,
            final(self).successful_urls == old(self).successful_urls,
            final(self).failed_urls == old(self).failed_urls,
            old(self).wf() ==> final(self).wf(),
    {
        self.validation_status = Some(status);
    }

    /// Records one successful request: bumps the total, the success counter
    /// and the histogram entry of `status_code`, and appends `url` to the
    /// successful list.
    pub fn record_success(&mut self, url: String, status_code: u16)
        requires
            old(self).wf(),
            old(self).total_requests < usize::MAX,
        ensures
            final(self).wf(),
            final(self).validation_status == old(self).validation_status,
            final(self).total_requests == old(self).total_requests + 1,
            final(self).successful_requests == old(self).successful_requests + 1,
            final(self).failed_requests == old(self).failed_requests,
            final(self).status_codes@ == hist_bump(old(self).status_codes@, status_code),
            final(self).successful_urls@ == old(self).successful_urls@.push(url),
            final(self).failed_urls == old(self).failed_urls,
    {
        self.total_requests = self.total_requests + 1;
        self.successful_requests = self.successful_requests + 1;
        hist_record(&mut self.status_codes, status_code);
        self.successful_urls.push(url);
    }

    /// Records one failed request: bumps the total and the failure counter,
    /// bumps the histogram only when a status code is known, and appends the
    /// `(url, reason)` pair to the failed list.
    pub fn record_failure(&mut self, url: String, reason: String, status_code: Option<u16>)
        requires
            old(self).wf(),
            old(self).total_requests < usize::MAX,
        ensures
            final(self).wf(),
            final(self).validation_status == old(self).validation_status,
            final(self).total_requests == old(self).total_requests + 1,
            final(self).successful_requests == old(self).successful_requests,
            final(self).failed_requests == old(self).failed_requests + 1,
            final(self).status_codes@ == match status_code {
                Some(code) => hist_bump(old(self).status_codes@, code),
                None => old(self).status_codes@,
            },
            final(self).successful_urls == old(self).successful_urls,
            final(self).failed_urls@ == old(self).failed_urls@.push((url, reason)),
    {
        self.total_requests = self.total_requests + 1;
        self.failed_requests = self.failed_requests + 1;
        if let Some(code) = status_code {
            hist_record(&mut self.status_codes, code);
        }
        self.failed_urls.push((url, reason));
    }
}

impl ProxyStats {
    /// An independent copy of this record, equal in every observable field.
    /// Used to snapshot live and archived stats into a report.
    pub fn duplicate(&self) -> (r: ProxyStats)
        ensures
            stats_equiv(*self, r),
            self.wf() ==> r.wf(),
    {
        let validation_status = match &self.validation_status {
            Some(s) => Some(s.clone()),
            None => None,
        };
        let mut status_codes: Vec<(u16, usize)> = Vec::new();
        let mut i: usize = 0;
        let n = self.status_codes.len();
        while i < n
            invariant
                n == self.status_codes@.len(),
                i <= n,
                status_codes@ =~= self.status_codes@.take(i as int),
            decreases n - i,
        {
            let entry = self.status_codes[i];
            status_codes.push(entry);
            i = i + 1;
        }
        proof {
            assert(status_codes@ =~= self.status_codes@);
        }
        let mut successful_urls: Vec<String> = Vec::new();
        let mut j: usize = 0;
        let m = self.successful_urls.len();
        while j < m
            invariant
                m == self.successful_urls@.len(),
                j <= m,
                successful_urls@.len() == j,
                forall|k: int|
                    0 <= k < j ==> (#[trigger] successful_urls@[k])@ == self.successful_urls@[k]@,
            decreases m - j,
        {
            successful_urls.push(self.successful_urls[j].clone());
            j = j + 1;
        }
        proof {
            assert(strings_view(successful_urls@) =~= strings_view(self.successful_urls@));
        }
        let mut failed_urls: Vec<(String, String)> = Vec::new();
        let mut k: usize = 0;
        let f = self.failed_urls.len();
        while k < f
            invariant
                f == self.failed_urls@.len(),
                k <= f,
                failed_urls@.len() == k,
                forall|t: int|
                    0 <= t < k ==> (#[trigger] failed_urls@[t]).0@ == self.failed_urls@[t].0@
                        && failed_urls@[t].1@ == self.failed_urls@[t].1@,
            decreases f - k,
        {
            let pair = (self.failed_urls[k].0.clone(), self.failed_urls[k].1.clone());
            failed_urls.push(pair);
            k = k + 1;
        }
        ProxyStats {
            validation_status,
            total_requests: self.total_requests,
            successful_requests: self.successful_requests,
            failed_requests: self.failed_requests,
            status_codes,
            successful_urls,
            failed_urls,
        }
    }
}

/// Adds one observation of `code` to the histogram, keeping keys unique.
fn hist_record(h: &mut Vec<(u16, usize)>, code: u16)
    requires
        hist_keys_unique(old(h)@),
        forall|i: int| 0 <= i < old(h)@.len() ==> (#[trigger] old(h)@[i]).1 < usize::MAX,
    ensures
        final(h)@ == hist_bump(old(h)@, code),
{
    let n = h.len();
    let mut j: usize = 0;
    while j < n
        invariant
            n == h@.len(),
            h@ == old(h)@,
            j <= n,
            hist_keys_unique(old(h)@),
            forall|i: int| 0 <= i < n ==> (#[trigger] old(h)@[i]).1 < usize::MAX,
            forall|i: int| 0 <= i < j ==> (#[trigger] old(h)@[i]).0 != code,
        decreases n - j,
    {
        if h[j].0 == code {
            let c = h[j].1;
            h[j] = (code, c + 1);
            proof {
                assert(old(h)@[j as int].0 == code);
                assert(hist_has(old(h)@, code));
                let i = choose|i: int| 0 <= i < old(h)@.len() && old(h)@[i].0 == code;
                assert(i == j as int);
                assert(h@ =~= hist_bump(old(h)@, code));
            }
            return ;
        }
        j = j + 1;
    }
    h.push((code, 1));
    proof {
        assert(!hist_has(old(h)@, code));
        assert(h@ =~= hist_bump(old(h)@, code));
    }
}

} // verus!
