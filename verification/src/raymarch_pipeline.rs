//! The hot-reload core: owns the watched shader set and the identity of
//! the live compute pipeline, and decides, tick by tick, whether to
//! rebuild and swap it.
//!
//! One tick runs in two verified halves around the outside compiler:
//! `update_shader` polls the watcher and prepares (include-expands) every
//! changed source, and `finish_update` takes the compiler's outcomes and
//! either swaps the pipeline atomically (a new generation) or rewinds the
//! failed files' timestamps so the same edit is detected again.  The
//! previous pipeline's identity survives any failure untouched.

use vstd::prelude::*;
use crate::fileobserver::{
    FileObserver, IoError, observer_wf, report_s, advanced_s, obs_times_s, clone_bytes,
    lemma_report_sorted,
};
use crate::shader;
use crate::shader::{CompileError, expand_s, files_v};

verus! {

/// How many nested include levels a rebuild resolves.
pub const INCLUDE_DEPTH: u32 = 8;

/// The manager's place in a tick: `Recompiling` only between the two
/// halves of a rebuild, `Swapped` right after a successful one, `Idle`
/// otherwise.
#[derive(Clone, Copy, Debug, PartialEq, Eq, Structural)]
pub enum PipelineState {
    Idle,
    Recompiling,
    Swapped,
}

/// One prepared recompilation: which watched file, the name to compile
/// it under, and its fully include-expanded source.
#[derive(Clone, Debug)]
pub struct CompileJob {
    pub index: usize,
    pub name: Vec<u8>,
    pub source: Vec<u8>,
}

/// Why one changed file could not be prepared.
#[derive(Clone, Debug)]
pub enum ReloadErrorKind {
    Unreadable,
    Compile(CompileError),
}

#[derive(Clone, Debug)]
pub struct ReloadFailure {
    pub index: usize,
    pub error: ReloadErrorKind,
}

/// What one call of `update_shader` decided.
pub enum UpdatePlan {
    NoChange,
    IoFailed { error: IoError },
    Failed { failures: Vec<ReloadFailure> },
    Prepared { jobs: Vec<CompileJob> },
}

/// What one call of `finish_update` decided.
pub enum SwapReport {
    Swapped { generation: u64 },
    Rejected { errors: Vec<(usize, CompileError)> },
}

#[derive(Debug)]
pub struct RayMarchPipeline {
    pub observer: FileObserver,
    pub state: PipelineState,
    pub generation: u64,
    pub binary: Vec<u8>,
    pub pending: Vec<(usize, u64)>,
}

/// Pending entries exist only mid-rebuild, name watched files, and come
/// in strictly increasing order.
pub open spec fn pipeline_wf(p: RayMarchPipeline) -> bool {
    &&& observer_wf(p.observer)
    &&& !(p.state is Recompiling) ==> p.pending@.len() == 0
    &&& forall|k: int| 0 <= k < p.pending@.len() ==> (#[trigger] p.pending@[k]).0
        < p.observer.times@.len()
    &&& forall|a: int, b: int|
        0 <= a < b < p.pending@.len() ==> p.pending@[a].0 < p.pending@[b].0
}

/// Whether preparing watched file `idx` succeeds, given the sources and
/// the include listing.
pub open spec fn prep_ok_s(
    sources: Seq<Option<Vec<u8>>>,
    includes: Seq<(Vec<u8>, Vec<u8>)>,
    idx: int,
) -> bool {
    &&& sources[idx] is Some
    &&& expand_s(sources[idx]->Some_0@, files_v(includes), INCLUDE_DEPTH as nat) is Ok
}

/// The prepared (include-expanded) text of watched file `idx`.
pub open spec fn prep_text_s(
    sources: Seq<Option<Vec<u8>>>,
    includes: Seq<(Vec<u8>, Vec<u8>)>,
    idx: int,
) -> Seq<u8> {
    expand_s(sources[idx]->Some_0@, files_v(includes), INCLUDE_DEPTH as nat)->Ok_0
}

/// The recorded failure is exactly what preparing `idx` yields: an
/// unreadable source, or the unresolved include the expansion names.
pub open spec fn failure_matches_s(
    sources: Seq<Option<Vec<u8>>>,
    includes: Seq<(Vec<u8>, Vec<u8>)>,
    idx: int,
    err: ReloadErrorKind,
) -> bool {
    match sources[idx] {
        Option::None => err is Unreadable,
        Option::Some(src) => {
            &&& expand_s(src@, files_v(includes), INCLUDE_DEPTH as nat) is Err
            &&& err matches ReloadErrorKind::Compile(c)
            &&& c matches CompileError::UnresolvedInclude { name }
            &&& name@ == expand_s(src@, files_v(includes), INCLUDE_DEPTH as nat)->Err_0
        },
    }
}

/// Whether some recorded failure names watched file `idx`.
pub open spec fn failed_has_s(failures: Seq<ReloadFailure>, idx: int) -> bool {
    exists|k: int| 0 <= k < failures.len() && (#[trigger] failures[k]).index == idx
}

/// The position right after the last `/`, so the tail is the file name.
pub open spec fn basename_from_s(p: Seq<u8>, i: int) -> int
    decreases i,
{
    if i <= 0 {
        0
    } else if p[i - 1] == 47 {
        i
    } else {
        basename_from_s(p, i - 1)
    }
}

/// The file name part of a path: everything after the last `/`.
pub open spec fn basename_s(p: Seq<u8>) -> Seq<u8> {
    p.subrange(basename_from_s(p, p.len() as int), p.len() as int)
}

/// The file name part of a path, as an owned copy.
pub fn basename(p: &Vec<u8>) -> (r: Vec<u8>)
    ensures
        r@ == basename_s(p@),
{
    let mut i: usize = p.len();
    while i > 0
        invariant
            0 <= i <= p@.len(),
            basename_from_s(p@, p@.len() as int) == basename_from_s(p@, i as int),
        decreases i,
    {
        if p[i - 1] == 47 {
            return shader::copy_range(p, i, p.len());
        }
        i -= 1;
    }
    shader::copy_range(p, 0, p.len())
}

/// The errors a rejected rebuild reports: for every failed outcome, the
/// watched file it belonged to and the diagnostic text, in order.
pub open spec fn rejected_s(
    pending: Seq<(usize, u64)>,
    outcomes: Seq<Result<Vec<u8>, Vec<u8>>>,
    n: int,
) -> Seq<(int, Seq<u8>)>
    decreases n,
{
    if n <= 0 {
        Seq::empty()
    } else {
        let r = rejected_s(pending, outcomes, n - 1);
        match outcomes[n - 1] {
            Result::Ok(_) => r,
            Result::Err(m) => r.push((pending[n - 1].0 as int, m@)),
        }
    }
}

impl RayMarchPipeline {
    /// Start managing the pipeline whose compiled form is
    /// `initial_binary`, watching `paths` at the timestamps observed
    /// now.  Construction fails like the watcher's: on the first
    /// unreadable path.
    pub fn new(paths: Vec<Vec<u8>>, observed: &Vec<Option<u64>>, initial_binary: Vec<u8>) -> (r:
        Result<RayMarchPipeline, IoError>)
        requires
            paths@.len() == observed@.len(),
        ensures
            match r {
                Ok(p) => {
                    &&& pipeline_wf(p)
                    &&& p.observer.paths@ == paths@
                    &&& p.observer.times@.len() == observed@.len()
                    &&& forall|i: int|
                        0 <= i < observed@.len() ==> observed@[i] == Some(p.observer.times@[i])
                    &&& p.state is Idle
                    &&& p.generation == 0
                    &&& p.binary@ == initial_binary@
                    &&& p.pending@.len() == 0
                },
                Err(e) => {
                    &&& 0 <= e.index < observed@.len()
                    &&& observed@[e.index as int] is None
                    &&& forall|j: int| 0 <= j < e.index ==> observed@[j] is Some
                    &&& e.path@ == paths@[e.index as int]@
                },
            },
    {
        let observer = match FileObserver::new(paths, observed) {
            Ok(o) => o,
            Err(e) => {
                return Err(e);
            },
        };
        Ok(
            RayMarchPipeline {
                observer,
                state: PipelineState::Idle,
                generation: 0,
                binary: initial_binary,
                pending: Vec::new(),
            },
        )
    }

    /// First half of a tick.  Polls the watcher over the observed
    /// timestamps; when files changed, include-expands each changed
    /// source against `includes`.  All prepared: the manager enters
    /// `Recompiling` and hands back the jobs.  Any file unreadable or
    /// with an unresolved include: the whole rebuild is abandoned, the
    /// failed files' timestamps are rewound so the edit is re-detected,
    /// and the live pipeline stays as it was.
    pub fn update_shader(
        &mut self,
        observed: &Vec<Option<u64>>,
        sources: &Vec<Option<Vec<u8>>>,
        includes: &Vec<(Vec<u8>, Vec<u8>)>,
    ) -> (r: UpdatePlan)
        requires
            pipeline_wf(*old(self)),
            !(old(self).state is Recompiling),
            observed@.len() == old(self).observer.times@.len(),
            sources@.len() == old(self).observer.times@.len(),
        ensures
            pipeline_wf(*final(self)),
            final(self).observer.paths@ == old(self).observer.paths@,
            final(self).observer.times@.len() == old(self).observer.times@.len(),
            match r {
                UpdatePlan::NoChange => {
                    &&& report_s(old(self).observer.times@, obs_times_s(observed@)).len() == 0
                    &&& forall|i: int| 0 <= i < observed@.len() ==> observed@[i] is Some
                    &&& final(self).observer.times@ == old(self).observer.times@
                    &&& final(self).state is Idle
                    &&& final(self).generation == old(self).generation
                    &&& final(self).binary@ == old(self).binary@
                },
                UpdatePlan::IoFailed { error } => {
                    &&& 0 <= error.index < observed@.len()
                    &&& observed@[error.index as int] is None
                    &&& error.path@ == old(self).observer.paths@[error.index as int]@
                    &&& final(self).observer.times@ == old(self).observer.times@
                    &&& final(self).state is Idle
                    &&& final(self).generation == old(self).generation
                    &&& final(self).binary@ == old(self).binary@
                },
                UpdatePlan::Failed { failures } => {
                    let times0 = old(self).observer.times@;
                    let obs = obs_times_s(observed@);
                    let changed = report_s(times0, obs);
                    &&& forall|i: int| 0 <= i < observed@.len() ==> observed@[i] is Some
                    &&& changed.len() > 0
                    &&& failures@.len() > 0
                    &&& forall|k: int|
                        0 <= k < failures@.len() ==> changed.contains(
                            (#[trigger] failures@[k]).index,
                        ) && failure_matches_s(
                            sources@,
                            includes@,
                            failures@[k].index as int,
                            failures@[k].error,
                        )
                    &&& forall|j: int|
                        0 <= j < changed.len() && !failed_has_s(
                            failures@,
                            (#[trigger] changed[j]) as int,
                        ) ==> prep_ok_s(sources@, includes@, changed[j] as int)
                    &&& forall|i: int|
                        0 <= i < times0.len() ==> final(self).observer.times@[i] == (
                        if failed_has_s(failures@, i) {
                            times0[i]
                        } else {
                            advanced_s(times0, obs)[i]
                        })
                    &&& final(self).state is Idle
                    &&& final(self).generation == old(self).generation
                    &&& final(self).binary@ == old(self).binary@
                    &&& final(self).pending@.len() == 0
                },
                UpdatePlan::Prepared { jobs } => {
                    let times0 = old(self).observer.times@;
                    let obs = obs_times_s(observed@);
                    let changed = report_s(times0, obs);
                    &&& forall|i: int| 0 <= i < observed@.len() ==> observed@[i] is Some
                    &&& changed.len() > 0
                    &&& final(self).observer.times@ == advanced_s(times0, obs)
                    &&& final(self).state is Recompiling
                    &&& final(self).generation == old(self).generation
                    &&& final(self).binary@ == old(self).binary@
                    &&& final(self).pending@.len() == changed.len()
                    &&& jobs@.len() == changed.len()
                    &&& forall|k: int|
                        0 <= k < changed.len() ==> (#[trigger] final(self).pending@[k]) == (
                        changed[k],
                        times0[changed[k] as int],
                        )
                    &&& forall|k: int|
                        0 <= k < changed.len() ==> {
                            &&& (#[trigger] jobs@[k]).index == changed[k]
                            &&& prep_ok_s(sources@, includes@, changed[k] as int)
                            &&& jobs@[k].source@ == prep_text_s(
                                sources@,
                                includes@,
                                changed[k] as int,
                            )
                            &&& jobs@[k].name@ == basename_s(
                                old(self).observer.paths@[changed[k] as int]@,
                            )
                        }
                },
            },
    {
        let ghost times0 = self.observer.times@;
        let ghost obs = obs_times_s(observed@);
        let times_before = self.observer.times_snapshot();
        let nfiles = times_before.len();
        proof {
            assert(times0.len() == nfiles);
        }
        let changed = match self.observer.modified(observed) {
            Ok(v) => v,
            Err(e) => {
                self.state = PipelineState::Idle;
                return UpdatePlan::IoFailed { error: e };
            },
        };
        let ghost changed_s = report_s(times0, obs);
        proof {
            lemma_report_sorted(times0, obs, times0.len() as int);
        }
        if changed.len() == 0 {
            self.state = PipelineState::Idle;
            proof {
                assert forall|i: int| 0 <= i < times0.len() implies self.observer.times@[i]
                    == times0[i] by {
                    crate::fileobserver::lemma_report_iff(times0, obs, times0.len() as int, i);
                    assert(!report_s(times0, obs).contains(i as usize));
                }
                assert(self.observer.times@ =~= times0);
            }
            return UpdatePlan::NoChange;
        }
        let mut jobs: Vec<CompileJob> = Vec::new();
        let mut failures: Vec<ReloadFailure> = Vec::new();
        let mut k: usize = 0;
        while k < changed.len()
            invariant
                observer_wf(self.observer),
                self.observer.paths@ == old(self).observer.paths@,
                self.observer.times@.len() == times0.len(),
                times0.len() <= usize::MAX,
                changed@ == changed_s,
                changed_s == report_s(times0, obs),
                forall|m: int| 0 <= m < changed@.len() ==> (#[trigger] changed@[m]) < times0.len(),
                forall|a: int, b: int|
                    0 <= a < b < changed@.len() ==> changed@[a] < changed@[b],
                sources@.len() == times0.len(),
                0 <= k <= changed@.len(),
                failures@.len() == 0 ==> jobs@.len() == k,
                failures@.len() == 0 ==> forall|m: int|
                    0 <= m < k ==> {
                        &&& (#[trigger] jobs@[m]).index == changed@[m]
                        &&& prep_ok_s(sources@, includes@, changed@[m] as int)
                        &&& jobs@[m].source@ == prep_text_s(sources@, includes@, changed@[m] as int)
                        &&& jobs@[m].name@ == basename_s(
                            self.observer.paths@[changed@[m] as int]@,
                        )
                    },
                forall|m: int|
                    0 <= m < failures@.len() ==> changed@.contains(
                        (#[trigger] failures@[m]).index,
                    ) && failure_matches_s(
                        sources@,
                        includes@,
                        failures@[m].index as int,
                        failures@[m].error,
                    ),
                forall|a: int, b: int|
                    0 <= a < b < failures@.len() ==> failures@[a].index < failures@[b].index,
                forall|m: int|
                    0 <= m < failures@.len() ==> (#[trigger] failures@[m]).index < times0.len(),
                forall|j: int|
                    0 <= j < k && !failed_has_s(failures@, (#[trigger] changed@[j]) as int)
                        ==> prep_ok_s(sources@, includes@, changed@[j] as int),
                forall|m: int|
                    0 <= m < failures@.len() ==> exists|j: int|
                        0 <= j < k && (#[trigger] failures@[m]).index == changed@[j],
            decreases changed@.len() - k,
        {
            let idx = changed[k];
            let ghost failures_prev = failures@;
            let ghost jobs_prev = jobs@;
            match &sources[idx] {
                Option::None => {
                    failures.push(ReloadFailure { index: idx, error: ReloadErrorKind::Unreadable });
                },
                Option::Some(src) => {
                    match shader::expand(src, includes, INCLUDE_DEPTH) {
                        Ok(text) => {
                            jobs.push(
                                CompileJob {
                                    index: idx,
                                    name: basename(&self.observer.paths[idx]),
                                    source: text,
                                },
                            );
                        },
                        Err(ce) => {
                            failures.push(
                                ReloadFailure { index: idx, error: ReloadErrorKind::Compile(ce) },
                            );
                        },
                    }
                },
            }
            proof {
                assert(changed@.contains(changed@[k as int]));
                assert forall|m: int| 0 <= m < failures@.len() implies exists|j: int|
                    0 <= j < k + 1 && (#[trigger] failures@[m]).index == changed@[j] by {
                    if m < failures_prev.len() {
                        assert(failures@[m] == failures_prev[m]);
                        let j = choose|j: int|
                            0 <= j < k && (#[trigger] failures_prev[m]).index == changed@[j];
                        assert(failures@[m].index == changed@[j]);
                    } else {
                        assert(failures@[m].index == changed@[k as int]);
                    }
                }
                assert forall|a: int, b: int|
                    0 <= a < b < failures@.len() implies failures@[a].index < failures@[b].index
                    by {
                    if b < failures_prev.len() {
                        assert(failures@[a] == failures_prev[a]);
                        assert(failures@[b] == failures_prev[b]);
                    } else if a < failures_prev.len() {
                        assert(failures@[a] == failures_prev[a]);
                        let j = choose|j: int|
                            0 <= j < k && (#[trigger] failures_prev[a]).index == changed@[j];
                        assert(changed@[j] < changed@[k as int]);
                    }
                }
                assert forall|j: int|
                    0 <= j < k + 1 && !failed_has_s(failures@, (#[trigger] changed@[j]) as int)
                        implies prep_ok_s(sources@, includes@, changed@[j] as int) by {
                    if j < k {
                        if failed_has_s(failures_prev, changed@[j] as int) {
                            let q = choose|q: int|
                                0 <= q < failures_prev.len() && (#[trigger] failures_prev[q]).index
                                    == changed@[j];
                            assert(failures@[q] == failures_prev[q]);
                            assert(failed_has_s(failures@, changed@[j] as int));
                        }
                        assert(!failed_has_s(failures_prev, changed@[j] as int));
                    } else {
                        if failures@.len() > failures_prev.len() {
                            assert(failures@[failures@.len() - 1].index == changed@[j]);
                            assert(failed_has_s(failures@, changed@[j] as int));
                        }
                    }
                }
            }
            k += 1;
        }
        if failures.len() > 0 {
            let mut m: usize = 0;
            while m < failures.len()
                invariant
                    observer_wf(self.observer),
                    self.observer.paths@ == old(self).observer.paths@,
                    self.observer.times@.len() == times0.len(),
                    self.generation == old(self).generation,
                    self.binary@ == old(self).binary@,
                    self.pending@ == old(self).pending@,
                    times_before@ == times0,
                    times0.len() <= usize::MAX,
                    0 <= m <= failures@.len(),
                    forall|q: int|
                        0 <= q < failures@.len() ==> (#[trigger] failures@[q]).index
                            < times0.len(),
                    forall|a: int, b: int|
                        0 <= a < b < failures@.len() ==> failures@[a].index < failures@[b].index,
                    forall|i: int|
                        0 <= i < times0.len() ==> self.observer.times@[i] == (
                        if failed_has_s(failures@.subrange(0, m as int), i) {
                            times0[i]
                        } else {
                            advanced_s(times0, obs)[i]
                        }),
                decreases failures@.len() - m,
            {
                let fidx = failures[m].index;
                let t0 = times_before[fidx];
                self.observer.set_time(fidx, t0);
                proof {
                    assert forall|i: int| 0 <= i < times0.len() implies self.observer.times@[i]
                        == (if failed_has_s(failures@.subrange(0, m + 1), i) {
                        times0[i]
                    } else {
                        advanced_s(times0, obs)[i]
                    }) by {
                        let pre = failures@.subrange(0, m as int);
                        let cur = failures@.subrange(0, m + 1);
                        if i == fidx {
                            assert(cur[m as int].index == i);
                            assert(failed_has_s(cur, i));
                        } else {
                            if failed_has_s(cur, i) {
                                let q = choose|q: int|
                                    0 <= q < cur.len() && (#[trigger] cur[q]).index == i;
                                assert(q < m);
                                assert(pre[q].index == i);
                                assert(failed_has_s(pre, i));
                            }
                            if failed_has_s(pre, i) {
                                let q = choose|q: int|
                                    0 <= q < pre.len() && (#[trigger] pre[q]).index == i;
                                assert(cur[q].index == i);
                                assert(failed_has_s(cur, i));
                            }
                        }
                    }
                }
                m += 1;
            }
            self.state = PipelineState::Idle;
            self.pending = Vec::new();
            proof {
                assert(failures@.subrange(0, failures@.len() as int) =~= failures@);
            }
            return UpdatePlan::Failed { failures };
        }
        let mut pending: Vec<(usize, u64)> = Vec::new();
        let mut k2: usize = 0;
        while k2 < changed.len()
            invariant
                changed@ == changed_s,
                times_before@ == times0,
                forall|m: int| 0 <= m < changed@.len() ==> (#[trigger] changed@[m]) < times0.len(),
                0 <= k2 <= changed@.len(),
                pending@.len() == k2,
                forall|m: int|
                    0 <= m < k2 ==> (#[trigger] pending@[m]) == (
                    changed@[m],
                    times0[changed@[m] as int],
                    ),
            decreases changed@.len() - k2,
        {
            let idx = changed[k2];
            let t0 = times_before[idx];
            pending.push((idx, t0));
            k2 += 1;
        }
        self.pending = pending;
        self.state = PipelineState::Recompiling;
        proof {
            assert(forall|a: int, b: int|
                0 <= a < b < self.pending@.len() ==> self.pending@[a].0 < self.pending@[b].0);
        }
        UpdatePlan::Prepared { jobs }
    }

    /// Second half of a tick: judge the compiler's outcomes, one per
    /// prepared job, in order.  Every outcome a binary: the pipeline is
    /// swapped — the generation moves on, and the live binary becomes
    /// the one compiled for the first watched file when it was among
    /// the jobs.  Any outcome a diagnostic: no swap at all, the failed
    /// files' timestamps are rewound, and the diagnostics come back
    /// verbatim with the files they belong to.
    pub fn finish_update(&mut self, outcomes: Vec<Result<Vec<u8>, Vec<u8>>>) -> (r: SwapReport)
        requires
            pipeline_wf(*old(self)),
            old(self).state is Recompiling,
            outcomes@.len() == old(self).pending@.len(),
            old(self).generation < u64::MAX,
        ensures
            pipeline_wf(*final(self)),
            final(self).observer.paths@ == old(self).observer.paths@,
            final(self).observer.times@.len() == old(self).observer.times@.len(),
            final(self).pending@.len() == 0,
            match r {
                SwapReport::Swapped { generation } => {
                    &&& forall|q: int| 0 <= q < outcomes@.len() ==> (#[trigger] outcomes@[q]) is Ok
                    &&& final(self).state is Swapped
                    &&& generation == old(self).generation + 1
                    &&& final(self).generation == old(self).generation + 1
                    &&& final(self).observer.times@ == old(self).observer.times@
                    &&& final(self).binary@ == (
                    if old(self).pending@.len() > 0 && old(self).pending@[0].0 == 0 {
                        outcomes@[0]->Ok_0@
                    } else {
                        old(self).binary@
                    })
                },
                SwapReport::Rejected { errors } => {
                    let rej = rejected_s(old(self).pending@, outcomes@, outcomes@.len() as int);
                    &&& (exists|q: int|
                        0 <= q < outcomes@.len() && (#[trigger] outcomes@[q]) is Err)
                    &&& final(self).state is Idle
                    &&& final(self).generation == old(self).generation
                    &&& final(self).binary@ == old(self).binary@
                    &&& errors@.len() == rej.len()
                    &&& forall|m: int|
                        0 <= m < rej.len() ==> (#[trigger] errors@[m]).0 == rej[m].0
                            && (errors@[m].1 matches CompileError::Diagnostic { message }
                            && message@ == rej[m].1)
                    &&& forall|i: int|
                        0 <= i < old(self).observer.times@.len()
                            ==> final(self).observer.times@[i] == (
                        if rewound_s(old(self).pending@, outcomes@, outcomes@.len() as int, i) {
                            rewind_value_s(
                                old(self).pending@,
                                outcomes@,
                                outcomes@.len() as int,
                                i,
                            )
                        } else {
                            old(self).observer.times@[i]
                        })
                },
            },
    {
        let ghost pending0 = self.pending@;
        let ghost times_in = self.observer.times@;
        let mut any_err = false;
        let mut j: usize = 0;
        while j < outcomes.len()
            invariant
                0 <= j <= outcomes@.len(),
                any_err <==> exists|q: int|
                    0 <= q < j && (#[trigger] outcomes@[q]) is Err,
            decreases outcomes@.len() - j,
        {
            if outcomes[j].is_err() {
                any_err = true;
                proof {
                    assert(outcomes@[j as int] is Err);
                }
            }
            j += 1;
        }
        if !any_err {
            let new_generation = self.generation + 1;
            self.generation = new_generation;
            self.state = PipelineState::Swapped;
            if self.pending.len() > 0 && self.pending[0].0 == 0 {
                match &outcomes[0] {
                    Ok(b) => {
                        self.binary = clone_bytes(b);
                    },
                    Err(_) => {
                        proof {
                            assert(outcomes@[0] is Err);
                            assert(false);
                        }
                    },
                }
            }
            self.pending = Vec::new();
            return SwapReport::Swapped { generation: new_generation };
        }
        let mut errors: Vec<(usize, CompileError)> = Vec::new();
        let mut m: usize = 0;
        while m < outcomes.len()
            invariant
                pending0 == old(self).pending@,
                self.pending@ == pending0,
                pipeline_wf(*self),
                self.state == old(self).state,
                self.generation == old(self).generation,
                self.binary@ == old(self).binary@,
                self.observer.paths@ == old(self).observer.paths@,
                self.observer.times@.len() == times_in.len(),
                outcomes@.len() == pending0.len(),
                0 <= m <= outcomes@.len(),
                errors@.len() == rejected_s(pending0, outcomes@, m as int).len(),
                forall|q: int|
                    0 <= q < errors@.len() ==> (#[trigger] errors@[q]).0 == rejected_s(
                        pending0,
                        outcomes@,
                        m as int,
                    )[q].0 && (errors@[q].1 matches CompileError::Diagnostic { message }
                        && message@ == rejected_s(pending0, outcomes@, m as int)[q].1),
                forall|i: int|
                    0 <= i < times_in.len() ==> self.observer.times@[i] == (
                    if rewound_s(pending0, outcomes@, m as int, i) {
                        rewind_value_s(pending0, outcomes@, m as int, i)
                    } else {
                        times_in[i]
                    }),
            decreases outcomes@.len() - m,
        {
            let ghost times_pre = self.observer.times@;
            match &outcomes[m] {
                Ok(_) => {},
                Err(msg) => {
                    let fidx = self.pending[m].0;
                    let t0 = self.pending[m].1;
                    self.observer.set_time(fidx, t0);
                    errors.push((fidx, CompileError::Diagnostic { message: clone_bytes(msg) }));
                },
            }
            proof {
                lemma_rewound_step(pending0, outcomes@, m as int, times_in, times_pre,
                    self.observer.times@);
            }
            m += 1;
        }
        self.state = PipelineState::Idle;
        self.pending = Vec::new();
        SwapReport::Rejected { errors }
    }

    /// The dispatch one frame issues: always safe, whatever the state —
    /// it names whichever pipeline generation is installed right now.
    pub fn execute(&self, workgroups: (u32, u32)) -> (r: DispatchCall)
        ensures
            r.generation == self.generation,
            r.x == workgroups.0,
            r.y == workgroups.1,
            r.z == 1,
    {
        DispatchCall { generation: self.generation, x: workgroups.0, y: workgroups.1, z: 1 }
    }
}

/// Whether index `i` is rewound by the first `n` outcomes.
pub open spec fn rewound_s(
    pending: Seq<(usize, u64)>,
    outcomes: Seq<Result<Vec<u8>, Vec<u8>>>,
    n: int,
    i: int,
) -> bool {
    exists|k: int| 0 <= k < n && (#[trigger] pending[k]).0 == i && outcomes[k] is Err
}

/// The timestamp index `i` is rewound to.
pub open spec fn rewind_value_s(
    pending: Seq<(usize, u64)>,
    outcomes: Seq<Result<Vec<u8>, Vec<u8>>>,
    n: int,
    i: int,
) -> u64 {
    let k = choose|k: int| 0 <= k < n && (#[trigger] pending[k]).0 == i && outcomes[k] is Err;
    pending[k].1
}

/// One rewind step keeps the per-index description of the timestamps.
proof fn lemma_rewound_step(
    pending: Seq<(usize, u64)>,
    outcomes: Seq<Result<Vec<u8>, Vec<u8>>>,
    m: int,
    times_in: Seq<u64>,
    times_pre: Seq<u64>,
    times_post: Seq<u64>,
)
    requires
        0 <= m < outcomes.len(),
        outcomes.len() == pending.len(),
        forall|k: int| 0 <= k < pending.len() ==> (#[trigger] pending[k]).0 < times_in.len(),
        forall|a: int, b: int| 0 <= a < b < pending.len() ==> pending[a].0 < pending[b].0,
        times_pre.len() == times_in.len(),
        times_post.len() == times_in.len(),
        forall|i: int|
            0 <= i < times_in.len() ==> times_pre[i] == (if rewound_s(pending, outcomes, m, i) {
                rewind_value_s(pending, outcomes, m, i)
            } else {
                times_in[i]
            }),
        times_post == (if outcomes[m] is Err {
            times_pre.update(pending[m].0 as int, pending[m].1)
        } else {
            times_pre
        }),
    ensures
        forall|i: int|
            0 <= i < times_in.len() ==> times_post[i] == (if rewound_s(
                pending,
                outcomes,
                m + 1,
                i,
            ) {
                rewind_value_s(pending, outcomes, m + 1, i)
            } else {
                times_in[i]
            }),
{
    assert forall|i: int| 0 <= i < times_in.len() implies times_post[i] == (if rewound_s(
        pending,
        outcomes,
        m + 1,
        i,
    ) {
        rewind_value_s(pending, outcomes, m + 1, i)
    } else {
        times_in[i]
    }) by {
        if outcomes[m] is Err && i == pending[m].0 {
            assert(rewound_s(pending, outcomes, m + 1, i));
            let k = choose|k: int|
                0 <= k < m + 1 && (#[trigger] pending[k]).0 == i && outcomes[k] is Err;
            assert(pending[k].0 == pending[m].0);
            if k != m {
                assert(pending[k].0 != pending[m].0);
            }
            assert(rewind_value_s(pending, outcomes, m + 1, i) == pending[m].1);
        } else {
            if rewound_s(pending, outcomes, m + 1, i) {
                let k = choose|k: int|
                    0 <= k < m + 1 && (#[trigger] pending[k]).0 == i && outcomes[k] is Err;
                assert(k != m || !(outcomes[m] is Err) || i == pending[m].0);
                if k == m {
                    assert(i == pending[m].0 && outcomes[m] is Err);
                } else {
                    assert(rewound_s(pending, outcomes, m, i));
                    let k2 = choose|k2: int|
                        0 <= k2 < m && (#[trigger] pending[k2]).0 == i && outcomes[k2] is Err;
                    assert(rewind_value_s(pending, outcomes, m, i) == pending[k2].1);
                    assert(pending[k].1 == pending[k2].1) by {
                        if k != k2 {
                            assert(pending[k].0 != pending[k2].0);
                        }
                    }
                    assert(rewind_value_s(pending, outcomes, m + 1, i) == pending[k].1);
                }
            }
            if rewound_s(pending, outcomes, m, i) {
                let k = choose|k: int|
                    0 <= k < m && (#[trigger] pending[k]).0 == i && outcomes[k] is Err;
                assert(rewound_s(pending, outcomes, m + 1, i));
            }
        }
    }
}

/// One compute dispatch: which pipeline generation to bind and the
/// workgroup grid to cover.
#[derive(Clone, Copy, Debug, PartialEq, Eq, Structural)]
pub struct DispatchCall {
    pub generation: u64,
    pub x: u32,
    pub y: u32,
    pub z: u32,
}

/// How many whole workgroups tile the output image, per axis, as the
/// dispatch geometry fixes it (`1280 x 720` at `16 x 16` gives
/// `80 x 45`).
pub fn workgroup_counts(size: (u32, u32), local: (u32, u32)) -> (r: (u32, u32))
    requires
        local.0 >= 1,
        local.1 >= 1,
    ensures
        r.0 == size.0 as int / local.0 as int,
        r.1 == size.1 as int / local.1 as int,
{
    (size.0 / local.0, size.1 / local.1)
}

} // verus!
