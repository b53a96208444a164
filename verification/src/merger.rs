//! The synchronizer: merges a slow and a fast sample stream into one
//! time-aligned sequence.
//!
//! The merger is a state machine driven from outside, one received sample at
//! a time. It seeks until the first slow sample arrives, opens an anchor
//! window when the second one does, and then drains fast samples through the
//! window, emitting one merged record per fast sample past the lower anchor
//! by linear interpolation of the two slow anchors. When a fast timestamp
//! reaches the upper anchor the window closes and the upper anchor becomes
//! the lower anchor of the next window. Fast backlog from before the first
//! window opened is consumed without emitting, so every window — the first
//! included — emits exactly one record per fast period it spans; after that,
//! a timestamp that fails to advance is a fatal timing breach.

use crate::interp::interp_spec;
use crate::interp::interpolate;
use vstd::arithmetic::mul::lemma_mul_inequality;
use vstd::arithmetic::mul::lemma_mul_strict_inequality;
use vstd::prelude::*;

verus! {

/// A time-stamped sample `(timestamp, value)` of one stream.
pub type Sample = (u64, i64);

/// A merged record `(timestamp, interpolated slow value, raw fast value)`.
pub type MergedSample = (u64, i64, i64);

/// Fatal synchronizer failures.
#[derive(Clone, Copy, Debug, PartialEq, Eq, Structural)]
pub enum MergeError {
    /// A received timestamp does not advance past, or escapes, the open
    /// anchor window: the input broke the per-stream monotonicity contract.
    MonotonicityViolation,
}

/// Mathematical state of the synchronizer.
pub ghost struct MergerModel {
    /// Lower anchor of the open window: the older retained slow sample.
    pub anchor: Option<(int, int)>,
    /// Upper anchor: the newest slow sample, while a window is being drained.
    pub current: Option<(int, int)>,
    /// How many slow samples have been accepted so far.
    pub slow_seen: nat,
    /// Every merged record emitted so far, in emission order.
    pub emitted: Seq<(int, int, int)>,
}

impl MergerModel {
    /// The state a fresh synchronizer starts in.
    pub open spec fn init() -> MergerModel {
        MergerModel { anchor: None, current: None, slow_seen: 0, emitted: Seq::empty() }
    }

    /// A full anchor window is open and fast samples are being drained.
    pub open spec fn is_draining(self) -> bool {
        self.current is Some
    }

    /// State invariant: the window is ordered, nothing is emitted before the
    /// second slow sample, and emitted timestamps strictly increase.
    pub open spec fn inv(self) -> bool {
        &&& self.current is Some ==> {
            &&& self.anchor is Some
            &&& self.anchor.unwrap().0 < self.current.unwrap().0
            &&& self.slow_seen >= 2
        }
        &&& self.anchor is Some ==> self.slow_seen >= 1
        &&& self.anchor is None ==> self.current is None && self.slow_seen == 0
        &&& self.slow_seen <= 1 ==> self.emitted.len() == 0
        &&& forall|i: int, j: int|
            0 <= i < j < self.emitted.len() ==> (#[trigger] self.emitted[i]).0 < (
            #[trigger] self.emitted[j]).0
    }

    /// Whether a slow sample keeps the slow stream strictly increasing.
    pub open spec fn accepts_slow(self, s: (int, int)) -> bool {
        self.anchor is Some ==> self.anchor.unwrap().0 < s.0
    }

    /// Effect of an accepted slow sample: the first one becomes the lower
    /// anchor; each later one opens a window as the upper anchor.
    pub open spec fn slow_next(self, s: (int, int)) -> MergerModel {
        if self.anchor is None {
            MergerModel {
                anchor: Some(s),
                current: None,
                slow_seen: self.slow_seen + 1,
                emitted: self.emitted,
            }
        } else {
            MergerModel {
                anchor: self.anchor,
                current: Some(s),
                slow_seen: self.slow_seen + 1,
                emitted: self.emitted,
            }
        }
    }

    /// Whether a fast sample advances past everything emitted and falls
    /// strictly inside the open window, up to its boundary.
    pub open spec fn accepts_fast(self, f: (int, int)) -> bool
        recommends
            self.is_draining(),
    {
        &&& self.emitted.len() > 0 ==> self.emitted.last().0 < f.0
        &&& self.anchor.unwrap().0 < f.0 <= self.current.unwrap().0
    }

    /// Whether a fast sample is backlog from before the first window opened:
    /// nothing has been emitted yet and the sample does not lie past the
    /// lower anchor. Such a sample is consumed without emitting anything,
    /// so the first window emits exactly as many records as any other.
    pub open spec fn skips_fast(self, f: (int, int)) -> bool
        recommends
            self.is_draining(),
    {
        self.emitted.len() == 0 && f.0 <= self.anchor.unwrap().0
    }

    /// The record emitted for fast sample `f` in the open window.
    pub open spec fn fast_output(self, f: (int, int)) -> (int, int, int)
        recommends
            self.is_draining(),
    {
        let o = self.anchor.unwrap();
        let c = self.current.unwrap();
        (f.0, interp_spec(o.0, o.1, c.0, c.1, f.0), f.1)
    }

    /// A fast sample at the upper anchor's timestamp completes the window.
    pub open spec fn window_closes(self, f: (int, int)) -> bool
        recommends
            self.is_draining(),
    {
        f.0 == self.current.unwrap().0
    }

    /// Effect of an accepted fast sample: emit one record; on the boundary
    /// sample the window advances and its upper anchor becomes the new lower
    /// anchor.
    pub open spec fn fast_next(self, f: (int, int)) -> MergerModel
        recommends
            self.is_draining(),
    {
        if self.window_closes(f) {
            MergerModel {
                anchor: self.current,
                current: None,
                slow_seen: self.slow_seen,
                emitted: self.emitted.push(self.fast_output(f)),
            }
        } else {
            MergerModel {
                anchor: self.anchor,
                current: self.current,
                slow_seen: self.slow_seen,
                emitted: self.emitted.push(self.fast_output(f)),
            }
        }
    }
}

/// An accepted slow sample preserves the synchronizer invariant.
pub proof fn lemma_slow_next_preserves_inv(m: MergerModel, s: (int, int))
    requires
        m.inv(),
        !m.is_draining(),
        m.accepts_slow(s),
    ensures
        m.slow_next(s).inv(),
{
}

/// An accepted fast sample preserves the synchronizer invariant and appends
/// exactly one record, stamped with the fast sample's own timestamp.
pub proof fn lemma_fast_next_preserves_inv(m: MergerModel, f: (int, int))
    requires
        m.inv(),
        m.is_draining(),
        m.accepts_fast(f),
    ensures
        m.fast_next(f).inv(),
        m.fast_next(f).emitted == m.emitted.push(m.fast_output(f)),
        m.fast_next(f).emitted.last().0 == f.0,
{
    let e = m.emitted;
    let e2 = m.fast_next(f).emitted;
    assert forall|i: int, j: int| 0 <= i < j < e2.len() implies (#[trigger] e2[i]).0 < (
    #[trigger] e2[j]).0 by {
        if j < e.len() {
            assert(e2[i] == e[i] && e2[j] == e[j]);
        } else {
            assert(e2[j].0 == f.0);
            if i < e.len() - 1 {
                assert(e[i].0 < e[e.len() - 1].0);
            }
        }
    }
}

/// Monotonicity law: in every state the invariant allows, the emitted
/// records' timestamps are strictly increasing.
pub proof fn lemma_emitted_monotonic(m: MergerModel)
    requires
        m.inv(),
    ensures
        forall|i: int, j: int|
            0 <= i < j < m.emitted.len() ==> (#[trigger] m.emitted[i]).0 < (
            #[trigger] m.emitted[j]).0,
{
}

/// No premature emission: until the second slow sample has been accepted,
/// nothing has been emitted.
pub proof fn lemma_no_premature_emission(m: MergerModel)
    requires
        m.inv(),
        m.slow_seen < 2,
    ensures
        m.emitted.len() == 0,
{
}

/// State after draining the fast samples `fs`, in order, through the model.
pub open spec fn drain_all(m: MergerModel, fs: Seq<(int, int)>) -> MergerModel
    decreases fs.len(),
{
    if fs.len() == 0 {
        m
    } else {
        drain_all(m.fast_next(fs.first()), fs.drop_first())
    }
}

/// Every sample of `fs` is accepted when drained in order from `m`.
pub open spec fn drain_accepts(m: MergerModel, fs: Seq<(int, int)>) -> bool
    decreases fs.len(),
{
    fs.len() == 0 || {
        &&& m.is_draining()
        &&& m.accepts_fast(fs.first())
        &&& drain_accepts(m.fast_next(fs.first()), fs.drop_first())
    }
}

proof fn lemma_drain_window_steps(m: MergerModel, fs: Seq<(int, int)>, k: nat, period: int, j: nat)
    requires
        m.inv(),
        m.is_draining(),
        m.current.unwrap().0 == m.anchor.unwrap().0 + k * period,
        0 < period,
        j < k,
        m.emitted.len() > 0 ==> m.emitted.last().0 < m.anchor.unwrap().0 + (j + 1) * period,
        fs.len() == k - j,
        forall|i: int|
            0 <= i < fs.len() ==> (#[trigger] fs[i]).0 == m.anchor.unwrap().0 + (j + 1 + i)
                * period,
    ensures
        drain_accepts(m, fs),
        drain_all(m, fs).emitted.len() == m.emitted.len() + (k - j),
        drain_all(m, fs).anchor == m.current,
        drain_all(m, fs).current is None,
        drain_all(m, fs).slow_seen == m.slow_seen,
    decreases k - j,
{
    let o = m.anchor.unwrap();
    let c = m.current.unwrap();
    let f = fs.first();
    assert(fs[0].0 == o.0 + (j + 1) * period);
    assert(0 < (j + 1) * period) by (nonlinear_arith)
        requires
            0 < period,
            0 <= j,
    ;
    assert((j + 1) * period <= k * period) by {
        lemma_mul_inequality(j + 1 as int, k as int, period);
    }
    assert(m.accepts_fast(f));
    let m2 = m.fast_next(f);
    lemma_fast_next_preserves_inv(m, f);
    if j + 1 == k {
        assert(m.window_closes(f));
        assert(fs.drop_first().len() == 0);
        assert(drain_all(m, fs) == m2);
        assert(drain_accepts(m2, fs.drop_first()));
    } else {
        assert((j + 1) * period < k * period) by {
            lemma_mul_strict_inequality(j + 1 as int, k as int, period);
        }
        assert(!m.window_closes(f));
        assert(m2.emitted.last().0 == f.0);
        assert((j + 2) * period == (j + 1) * period + period) by (nonlinear_arith);
        assert(m2.emitted.len() > 0 ==> m2.emitted.last().0 < m2.anchor.unwrap().0 + (j + 1 + 1)
            * period);
        assert forall|i: int| 0 <= i < fs.drop_first().len() implies (#[trigger] fs.drop_first()[
        i]).0 == m2.anchor.unwrap().0 + (j + 1 + 1 + i) * period by {
            assert(fs.drop_first()[i] == fs[i + 1]);
            assert(fs[i + 1].0 == o.0 + (j + 1 + (i + 1)) * period);
            assert((j + 1 + (i + 1)) * period == (j + 1 + 1 + i) * period);
        }
        lemma_drain_window_steps(m2, fs.drop_first(), k, period, j + 1);
        assert(drain_all(m, fs) == drain_all(m2, fs.drop_first()));
    }
}

/// Window cardinality law: a freshly opened window spanning `k` fast periods
/// accepts the `k` fast samples at its interior and boundary timestamps and
/// emits exactly `k` merged records, the boundary sample included, after
/// which the window has advanced.
pub proof fn lemma_window_cardinality(m: MergerModel, fs: Seq<(int, int)>, k: nat, period: int)
    requires
        m.inv(),
        m.is_draining(),
        m.current.unwrap().0 == m.anchor.unwrap().0 + k * period,
        0 < period,
        0 < k,
        m.emitted.len() > 0 ==> m.emitted.last().0 <= m.anchor.unwrap().0,
        fs.len() == k,
        forall|i: int|
            0 <= i < fs.len() ==> (#[trigger] fs[i]).0 == m.anchor.unwrap().0 + (1 + i) * period,
    ensures
        drain_accepts(m, fs),
        drain_all(m, fs).emitted.len() == m.emitted.len() + k,
        drain_all(m, fs).anchor == m.current,
        drain_all(m, fs).current is None,
{
    assert(0 < 1 * period);
    lemma_drain_window_steps(m, fs, k, period, 0);
}

/// The synchronizer. It holds only the anchor window and bookkeeping; the
/// channels that feed it and carry its output away are outside concerns.
pub struct Merger {
    old_sample: Option<Sample>,
    current_sample: Option<Sample>,
    last_merged_time: Option<u64>,
    slow_count: Ghost<nat>,
    merged: Ghost<Seq<(int, int, int)>>,
}

impl View for Merger {
    type V = MergerModel;

    closed spec fn view(&self) -> MergerModel {
        MergerModel {
            anchor: match self.old_sample {
                Some(s) => Some((s.0 as int, s.1 as int)),
                None => None,
            },
            current: match self.current_sample {
                Some(s) => Some((s.0 as int, s.1 as int)),
                None => None,
            },
            slow_seen: self.slow_count@,
            emitted: self.merged@,
        }
    }
}

impl Merger {
    /// Well-formedness: the model invariant holds and the cached last merged
    /// timestamp agrees with the emission history.
    pub closed spec fn wf(self) -> bool {
        &&& self@.inv()
        &&& match self.last_merged_time {
            None => self.merged@.len() == 0,
            Some(t) => self.merged@.len() > 0 && self.merged@.last().0 == t as int,
        }
    }

    /// A well-formed synchronizer's model satisfies the state invariant, so
    /// the emitted-history laws apply to it.
    pub proof fn lemma_wf_implies_inv(self)
        requires
            self.wf(),
        ensures
            self@.inv(),
    {
    }

    /// A fresh synchronizer: no anchor, nothing emitted.
    pub fn new() -> (m: Merger)
        ensures
            m.wf(),
            m@ == MergerModel::init(),
    {
        Merger {
            old_sample: None,
            current_sample: None,
            last_merged_time: None,
            slow_count: Ghost(0),
            merged: Ghost(Seq::empty()),
        }
    }

    /// Whether a window is open and fast samples are expected next.
    pub fn is_draining(&self) -> (b: bool)
        ensures
            b == self@.is_draining(),
    {
        self.current_sample.is_some()
    }

    /// Feed the next slow sample. The first one is stored as the sole anchor
    /// without emitting anything; each later one opens a window. A slow
    /// timestamp that does not advance is a fatal monotonicity breach.
    pub fn on_slow_sample(&mut self, s: Sample) -> (r: Result<(), MergeError>)
        requires
            old(self).wf(),
            !old(self)@.is_draining(),
        ensures
            final(self).wf(),
            old(self)@.accepts_slow((s.0 as int, s.1 as int)) ==> {
                &&& r is Ok
                &&& final(self)@ == old(self)@.slow_next((s.0 as int, s.1 as int))
            },
            !old(self)@.accepts_slow((s.0 as int, s.1 as int)) ==> {
                &&& r == Err::<(), MergeError>(MergeError::MonotonicityViolation)
                &&& final(self)@ == old(self)@
            },
    {
        let ghost pre = self@;
        match self.old_sample {
            None => {
                self.old_sample = Some(s);
                self.slow_count = Ghost(self.slow_count@ + 1);
                proof {
                    lemma_slow_next_preserves_inv(pre, (s.0 as int, s.1 as int));
                }
                Ok(())
            },
            Some(o) => {
                if o.0 < s.0 {
                    self.current_sample = Some(s);
                    self.slow_count = Ghost(self.slow_count@ + 1);
                    proof {
                        lemma_slow_next_preserves_inv(pre, (s.0 as int, s.1 as int));
                    }
                    Ok(())
                } else {
                    Err(MergeError::MonotonicityViolation)
                }
            },
        }
    }

    /// Feed the next fast sample into the open window. An accepted sample
    /// yields the merged record and whether it was the boundary sample that
    /// completed the window. Backlog from before the first window opened —
    /// a sample not past the lower anchor while nothing has been emitted —
    /// is consumed without emitting (`Ok(None)`). Any other timestamp that
    /// does not advance past the last emission or escapes the window is a
    /// fatal monotonicity breach.
    pub fn on_fast_sample(&mut self, f: Sample) -> (r: Result<
        Option<(MergedSample, bool)>,
        MergeError,
    >)
        requires
            old(self).wf(),
            old(self)@.is_draining(),
        ensures
            final(self).wf(),
            old(self)@.accepts_fast((f.0 as int, f.1 as int)) ==> {
                &&& r matches Ok(Some(mc))
                &&& (mc.0.0 as int, mc.0.1 as int, mc.0.2 as int) == old(self)@.fast_output(
                    (f.0 as int, f.1 as int),
                )
                &&& mc.1 == old(self)@.window_closes((f.0 as int, f.1 as int))
                &&& final(self)@ == old(self)@.fast_next((f.0 as int, f.1 as int))
            },
            old(self)@.skips_fast((f.0 as int, f.1 as int)) ==> {
                &&& r == Ok::<Option<(MergedSample, bool)>, MergeError>(None)
                &&& final(self)@ == old(self)@
            },
            !old(self)@.accepts_fast((f.0 as int, f.1 as int)) && !old(self)@.skips_fast(
                (f.0 as int, f.1 as int),
            ) ==> {
                &&& r == Err::<Option<(MergedSample, bool)>, MergeError>(
                    MergeError::MonotonicityViolation,
                )
                &&& final(self)@ == old(self)@
            },
    {
        let ghost pre = self@;
        let o = self.old_sample.unwrap();
        let c = self.current_sample.unwrap();
        if self.last_merged_time.is_none() && f.0 <= o.0 {
            return Ok(None);
        }
        let fresh: bool = match self.last_merged_time {
            None => true,
            Some(t) => t < f.0,
        };
        if !(fresh && o.0 < f.0 && f.0 <= c.0) {
            return Err(MergeError::MonotonicityViolation);
        }
        let v = interpolate(o.0, o.1, c.0, c.1, f.0);
        let out: MergedSample = (f.0, v, f.1);
        let window_done: bool = f.0 == c.0;
        self.merged = Ghost(self.merged@.push((f.0 as int, v as int, f.1 as int)));
        self.last_merged_time = Some(f.0);
        if window_done {
            self.old_sample = Some(c);
            self.current_sample = None;
        }
        proof {
            lemma_fast_next_preserves_inv(pre, (f.0 as int, f.1 as int));
            assert(self@ == pre.fast_next((f.0 as int, f.1 as int)));
        }
        Ok(Some((out, window_done)))
    }
}

} // verus!
