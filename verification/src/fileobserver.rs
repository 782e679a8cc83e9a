//! Watches a fixed, ordered set of file paths through their modification
//! timestamps.  The caller reads the file metadata and hands the observed
//! timestamps in; polling reports, in input order, every file whose
//! timestamp moved strictly past the stored one, and advances the stored
//! value for exactly those files.

use vstd::prelude::*;

verus! {

/// A path whose metadata could not be read, by position in the watched
/// list.
#[derive(Clone, Debug)]
pub struct IoError {
    pub index: usize,
    pub path: Vec<u8>,
}

/// The timestamps after one poll: reported entries take the observed
/// value, the rest keep the stored one.
pub open spec fn advanced_s(times: Seq<u64>, obs: Seq<u64>) -> Seq<u64> {
    Seq::new(times.len(), |i: int| if obs[i] > times[i] { obs[i] } else { times[i] })
}

/// The indices the first `n` entries report: those whose observed
/// timestamp is strictly newer, in input order.
pub open spec fn report_prefix_s(times: Seq<u64>, obs: Seq<u64>, n: int) -> Seq<usize>
    decreases n,
{
    if n <= 0 {
        Seq::empty()
    } else {
        let r = report_prefix_s(times, obs, n - 1);
        if obs[n - 1] > times[n - 1] {
            r.push((n - 1) as usize)
        } else {
            r
        }
    }
}

/// What one poll reports.
pub open spec fn report_s(times: Seq<u64>, obs: Seq<u64>) -> Seq<usize> {
    report_prefix_s(times, obs, times.len() as int)
}

/// A file is reported exactly when its observed timestamp is strictly
/// newer than the stored one.
pub proof fn lemma_report_iff(times: Seq<u64>, obs: Seq<u64>, n: int, i: int)
    requires
        0 <= n <= times.len(),
        times.len() == obs.len(),
        times.len() <= usize::MAX,
        0 <= i <= usize::MAX,
    ensures
        report_prefix_s(times, obs, n).contains(i as usize) <==> (i < n && obs[i] > times[i]),
    decreases n,
{
    if n > 0 {
        lemma_report_iff(times, obs, n - 1, i);
        let r = report_prefix_s(times, obs, n - 1);
        if obs[n - 1] > times[n - 1] {
            assert(report_prefix_s(times, obs, n) == r.push((n - 1) as usize));
            lemma_push_contains(r, (n - 1) as usize, i as usize);
        }
    }
}

/// Membership in a pushed sequence.
proof fn lemma_push_contains(s: Seq<usize>, v: usize, w: usize)
    ensures
        s.push(v).contains(w) <==> (s.contains(w) || v == w),
{
    if s.contains(w) {
        let k = choose|k: int| 0 <= k < s.len() && s[k] == w;
        assert(s.push(v)[k] == w);
    }
    if v == w {
        assert(s.push(v)[s.len() as int] == w);
    }
    if s.push(v).contains(w) && v != w {
        let k = choose|k: int| 0 <= k < s.push(v).len() && s.push(v)[k] == w;
        assert(k < s.len());
        assert(s[k] == w);
    }
}

/// What a poll reports is a strictly increasing list of positions in
/// the watched set.
pub proof fn lemma_report_sorted(times: Seq<u64>, obs: Seq<u64>, n: int)
    requires
        0 <= n <= times.len(),
        times.len() <= usize::MAX,
    ensures
        forall|k: int|
            0 <= k < report_prefix_s(times, obs, n).len() ==> (
            #[trigger] report_prefix_s(times, obs, n)[k]) < n,
        forall|a: int, b: int|
            0 <= a < b < report_prefix_s(times, obs, n).len() ==> report_prefix_s(
                times,
                obs,
                n,
            )[a] < report_prefix_s(times, obs, n)[b],
    decreases n,
{
    if n > 0 {
        lemma_report_sorted(times, obs, n - 1);
        let r = report_prefix_s(times, obs, n - 1);
        if obs[n - 1] > times[n - 1] {
            assert(report_prefix_s(times, obs, n) == r.push((n - 1) as usize));
            assert(forall|k: int|
                0 <= k < r.len() ==> #[trigger] r.push((n - 1) as usize)[k] == r[k]);
        }
    }
}

/// A file reported as changed is not reported again by the immediately
/// following poll unless its timestamp advances further: after one poll,
/// a second observation not newer than the first reports nothing for
/// that file.
pub proof fn lemma_no_immediate_repeat(times: Seq<u64>, obs: Seq<u64>, obs2: Seq<u64>, i: int)
    requires
        times.len() == obs.len(),
        times.len() == obs2.len(),
        times.len() <= usize::MAX,
        0 <= i < times.len(),
        report_s(times, obs).contains(i as usize),
        obs2[i] <= obs[i],
    ensures
        !report_s(advanced_s(times, obs), obs2).contains(i as usize),
{
    lemma_report_iff(times, obs, times.len() as int, i);
    assert(advanced_s(times, obs)[i] == obs[i]);
    lemma_report_iff(advanced_s(times, obs), obs2, times.len() as int, i);
}

/// An ordered set of watched paths and the last modification timestamp
/// seen for each.
#[derive(Clone, Debug)]
pub struct FileObserver {
    pub paths: Vec<Vec<u8>>,
    pub times: Vec<u64>,
}

pub open spec fn observer_wf(o: FileObserver) -> bool {
    o.paths@.len() == o.times@.len()
}

impl FileObserver {
    /// Starts watching `paths` with the timestamps observed now; a path
    /// whose metadata could not be read (`None`) fails construction and
    /// names the first such path.
    pub fn new(paths: Vec<Vec<u8>>, observed: &Vec<Option<u64>>) -> (r: Result<
        FileObserver,
        IoError,
    >)
        requires
            paths@.len() == observed@.len(),
        ensures
            match r {
                Ok(o) => {
                    &&& observer_wf(o)
                    &&& o.paths@ == paths@
                    &&& o.times@.len() == observed@.len()
                    &&& forall|i: int|
                        0 <= i < observed@.len() ==> observed@[i] == Some(o.times@[i])
                },
                Err(e) => {
                    &&& 0 <= e.index < observed@.len()
                    &&& observed@[e.index as int] is None
                    &&& forall|j: int| 0 <= j < e.index ==> observed@[j] is Some
                    &&& e.path@ == paths@[e.index as int]@
                },
            },
    {
        let mut times: Vec<u64> = Vec::new();
        let mut i: usize = 0;
        while i < observed.len()
            invariant
                paths@.len() == observed@.len(),
                0 <= i <= observed@.len(),
                times@.len() == i,
                forall|j: int| 0 <= j < i ==> observed@[j] == Some(times@[j]),
            decreases observed@.len() - i,
        {
            match observed[i] {
                Some(t) => times.push(t),
                None => {
                    return Err(IoError { index: i, path: clone_bytes(&paths[i]) });
                },
            }
            i += 1;
        }
        Ok(FileObserver { paths, times })
    }

    /// One poll over the timestamps observed now.  Reports the indices
    /// whose timestamp moved strictly forward, in input order, and
    /// advances the stored value for exactly those; an unreadable path
    /// fails the whole call and leaves every stored timestamp untouched.
    pub fn modified(&mut self, observed: &Vec<Option<u64>>) -> (r: Result<Vec<usize>, IoError>)
        requires
            observer_wf(*old(self)),
            observed@.len() == old(self).times@.len(),
        ensures
            observer_wf(*final(self)),
            final(self).paths@ == old(self).paths@,
            match r {
                Ok(v) => {
                    &&& forall|i: int|
                        0 <= i < observed@.len() ==> observed@[i] is Some
                    &&& v@ == report_s(old(self).times@, obs_times_s(observed@))
                    &&& final(self).times@ == advanced_s(
                        old(self).times@,
                        obs_times_s(observed@),
                    )
                },
                Err(e) => {
                    &&& final(self).times@ == old(self).times@
                    &&& 0 <= e.index < observed@.len()
                    &&& observed@[e.index as int] is None
                    &&& forall|j: int| 0 <= j < e.index ==> observed@[j] is Some
                    &&& e.path@ == old(self).paths@[e.index as int]@
                },
            },
    {
        let ghost times0 = self.times@;
        let mut obs: Vec<u64> = Vec::new();
        let mut i: usize = 0;
        while i < observed.len()
            invariant
                observed@.len() == self.times@.len(),
                observer_wf(*self),
                0 <= i <= observed@.len(),
                obs@.len() == i,
                forall|j: int| 0 <= j < i ==> observed@[j] == Some(obs@[j]),
            decreases observed@.len() - i,
        {
            match observed[i] {
                Some(t) => obs.push(t),
                None => {
                    return Err(IoError { index: i, path: clone_bytes(&self.paths[i]) });
                },
            }
            i += 1;
        }
        proof {
            assert(obs@ =~= obs_times_s(observed@));
        }
        let mut out: Vec<usize> = Vec::new();
        let mut k: usize = 0;
        while k < obs.len()
            invariant
                observer_wf(*self),
                self.paths@ == old(self).paths@,
                obs@.len() == self.times@.len(),
                0 <= k <= obs@.len(),
                out@ == report_prefix_s(times0, obs@, k as int),
                self.times@.len() == times0.len(),
                forall|j: int|
                    0 <= j < k ==> self.times@[j] == advanced_s(times0, obs@)[j],
                forall|j: int| k <= j < times0.len() ==> self.times@[j] == times0[j],
            decreases obs@.len() - k,
        {
            if obs[k] > self.times[k] {
                out.push(k);
                let t = obs[k];
                self.times.set(k, t);
            }
            k += 1;
        }
        proof {
            assert(self.times@ =~= advanced_s(times0, obs@));
        }
        Ok(out)
    }

    /// Put one stored timestamp back (used to rewind a failed rebuild so
    /// the same edit is detected again).
    pub fn set_time(&mut self, index: usize, t: u64)
        requires
            observer_wf(*old(self)),
            index < old(self).times@.len(),
        ensures
            observer_wf(*final(self)),
            final(self).paths@ == old(self).paths@,
            final(self).times@ == old(self).times@.update(index as int, t),
    {
        self.times.set(index, t);
    }

    /// The stored timestamps, as an owned copy.
    pub fn times_snapshot(&self) -> (r: Vec<u64>)
        ensures
            r@ == self.times@,
    {
        let mut out: Vec<u64> = Vec::new();
        let mut i: usize = 0;
        while i < self.times.len()
            invariant
                0 <= i <= self.times@.len(),
                out@ == self.times@.subrange(0, i as int),
            decreases self.times@.len() - i,
        {
            out.push(self.times[i]);
            proof {
                assert(out@ =~= self.times@.subrange(0, i + 1));
            }
            i += 1;
        }
        proof {
            assert(self.times@.subrange(0, self.times@.len() as int) =~= self.times@);
        }
        out
    }

    pub fn len(&self) -> (r: usize)
        requires
            observer_wf(*self),
        ensures
            r == self.times@.len(),
    {
        self.times.len()
    }
}

/// The observed timestamps, once all are known to be present.
pub open spec fn obs_times_s(observed: Seq<Option<u64>>) -> Seq<u64> {
    Seq::new(observed.len(), |i: int| observed[i]->Some_0)
}

/// An owned copy of a byte string.
pub fn clone_bytes(b: &Vec<u8>) -> (r: Vec<u8>)
    ensures
        r@ == b@,
{
    let mut out: Vec<u8> = Vec::new();
    let mut i: usize = 0;
    while i < b.len()
        invariant
            0 <= i <= b@.len(),
            out@ == b@.subrange(0, i as int),
        decreases b@.len() - i,
    {
        out.push(b[i]);
        proof {
            assert(out@ =~= b@.subrange(0, i + 1));
        }
        i += 1;
    }
    proof {
        assert(b@.subrange(0, b@.len() as int) =~= b@);
    }
    out
}

} // verus!
