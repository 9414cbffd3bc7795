//! The index work of the repair modules: which samples clip repair
//! rewrites and which frames silence trimming keeps.

use vstd::prelude::*;

verus! {

/// Sample `j` clips and its run of clipping samples has a clean sample on
/// each side, so that the run lies strictly inside the channel.
pub open spec fn interior_clip(flags: Seq<bool>, j: int) -> bool {
    &&& 0 <= j < flags.len()
    &&& flags[j]
    &&& exists|a: int| 0 <= a < j && !#[trigger] flags[a]
    &&& exists|b: int| j < b < flags.len() && !#[trigger] flags[b]
}

/// Some run of the list covers sample `j`.
pub open spec fn in_some_run(runs: Seq<(usize, usize)>, j: int) -> bool {
    exists|k: int| 0 <= k < runs.len() && (#[trigger] runs[k]).0 <= j < runs[k].1
}

/// `[s, e)` is a whole run of clipping samples, with a clean sample just
/// before and just after it.
pub open spec fn is_interior_run(flags: Seq<bool>, s: int, e: int) -> bool {
    &&& 0 < s < e < flags.len()
    &&& !flags[s - 1]
    &&& !flags[e]
    &&& forall|j: int| s <= j < e ==> #[trigger] flags[j]
}

/// The runs that clip repair interpolates over, for the per-sample flags
/// `flags[j] == (|x[j]| >= 0.99)`: every run of clipping samples that
/// touches neither end of the channel, in order. Runs at either end stay.
pub fn clip_runs(flags: &Vec<bool>) -> (runs: Vec<(usize, usize)>)
    ensures
        forall|k: int|
            0 <= k < runs@.len() ==> is_interior_run(
                flags@,
                (#[trigger] runs@[k]).0 as int,
                runs@[k].1 as int,
            ),
        forall|k: int|
            0 <= k < runs@.len() - 1 ==> (#[trigger] runs@[k]).1 < runs@[k + 1].0,
        forall|j: int| 0 <= j < flags@.len() ==> (in_some_run(runs@, j) <==> interior_clip(flags@, j)),
        (forall|j: int| 0 <= j < flags@.len() ==> !#[trigger] flags@[j]) ==> runs@.len() == 0,
{
    let n = flags.len();
    let mut runs: Vec<(usize, usize)> = Vec::new();
    let mut i: usize = 0;
    while i < n
        invariant
            n == flags@.len(),
            0 <= i <= n,
            i == 0 || i == n || !flags@[i - 1],
            forall|k: int|
                0 <= k < runs@.len() ==> is_interior_run(
                    flags@,
                    (#[trigger] runs@[k]).0 as int,
                    runs@[k].1 as int,
                ),
            forall|k: int| 0 <= k < runs@.len() ==> (#[trigger] runs@[k]).1 < i,
            forall|k: int|
                0 <= k < runs@.len() - 1 ==> (#[trigger] runs@[k]).1 < runs@[k + 1].0,
            forall|j: int| 0 <= j < i ==> (in_some_run(runs@, j) <==> interior_clip(flags@, j)),
        decreases n - i,
    {
        if !flags[i] {
            proof {
                assert(!in_some_run(runs@, i as int));
            }
            i = i + 1;
        } else {
            let s = i;
            while i < n && flags[i]
                invariant
                    n == flags@.len(),
                    s <= i <= n,
                    s < n,
                    forall|j: int| s <= j < i ==> #[trigger] flags@[j],
                decreases n - i,
            {
                i = i + 1;
            }
            let ghost old_runs = runs@;
            proof {
                // Inside the run, a clean sample before means one before `s`,
                // and a clean sample after means one at or after `i`.
                assert forall|j: int| s <= j < i implies (interior_clip(flags@, j) <==> (s > 0
                    && i < n)) by {
                    if s > 0 && i < n {
                        assert(!flags@[s - 1]);
                        assert(!flags@[i as int]);
                    }
                    if s == 0 {
                        assert forall|a: int| 0 <= a < j implies #[trigger] flags@[a] by {}
                    }
                    if i == n {
                        assert forall|b: int| j < b < n implies #[trigger] flags@[b] by {}
                    }
                }
                assert forall|j: int| s <= j < i implies !in_some_run(old_runs, j) by {
                    assert forall|k: int| 0 <= k < old_runs.len() implies !((#[trigger] old_runs[k]).0
                        <= j < old_runs[k].1) by {}
                }
            }
            if s > 0 && i < n {
                runs.push((s, i));
                proof {
                    let last = runs@.len() - 1;
                    assert(runs@[last] == (s, i));
                    assert forall|j: int| 0 <= j < s implies (in_some_run(runs@, j) <==> in_some_run(
                        old_runs,
                        j,
                    )) by {
                        if in_some_run(old_runs, j) {
                            let k = choose|k: int|
                                0 <= k < old_runs.len() && (#[trigger] old_runs[k]).0 <= j
                                    < old_runs[k].1;
                            assert(runs@[k] == old_runs[k]);
                        }
                        if in_some_run(runs@, j) {
                            let k = choose|k: int|
                                0 <= k < runs@.len() && (#[trigger] runs@[k]).0 <= j < runs@[k].1;
                            assert(k < last);
                            assert(runs@[k] == old_runs[k]);
                        }
                    }
                    assert forall|j: int| s <= j < i implies in_some_run(runs@, j) by {
                        assert(runs@[last].0 <= j < runs@[last].1);
                    }
                    assert(!in_some_run(runs@, i as int)) by {
                        assert forall|k: int| 0 <= k < runs@.len() implies !((#[trigger] runs@[k]).0
                            <= i < runs@[k].1) by {
                            if k < last {
                                assert(runs@[k] == old_runs[k]);
                            }
                        }
                    }
                    assert forall|k: int| 0 <= k < runs@.len() - 1 implies (#[trigger] runs@[k]).1
                        < runs@[k + 1].0 by {
                        assert(runs@[k] == old_runs[k]);
                        if k + 1 < last {
                            assert(runs@[k + 1] == old_runs[k + 1]);
                        }
                    }
                }
                i = i + 1;
            } else if i < n {
                proof {
                    assert(!in_some_run(runs@, i as int));
                }
                i = i + 1;
            }
        }
    }
    proof {
        if runs@.len() > 0 {
            assert(flags@[runs@[0].0 as int]);
        }
    }
    runs
}

/// Some frame is audible.
pub open spec fn has_audible(a: Seq<bool>) -> bool {
    exists|i: int| 0 <= i < a.len() && #[trigger] a[i]
}

/// The first audible frame.
pub open spec fn first_audible(a: Seq<bool>) -> int {
    choose|i: int| 0 <= i < a.len() && a[i] && forall|j: int| 0 <= j < i ==> !#[trigger] a[j]
}

/// The last audible frame.
pub open spec fn last_audible(a: Seq<bool>) -> int {
    choose|i: int| 0 <= i < a.len() && a[i] && forall|j: int| i < j < a.len() ==> !#[trigger] a[j]
}

/// The frames that silence trimming keeps: `keep` frames before the first
/// audible frame and `keep` after the last, as far as the buffer reaches.
pub open spec fn kept_range(a: Seq<bool>, keep: int) -> (int, int) {
    let f = first_audible(a);
    let l = last_audible(a);
    (if f > keep { f - keep } else { 0 }, if l + 1 + keep < a.len() { l + 1 + keep } else { a.len() as int })
}

/// The number of frames of silence kept at each end: 100 ms at `rate`.
pub open spec fn spec_keep_frames(rate: int) -> int {
    rate / 10
}

/// The number of frames of silence kept at each end: 100 ms at `rate`.
pub fn silence_keep_frames(rate: u32) -> (r: usize)
    ensures
        r == spec_keep_frames(rate as int),
{
    (rate / 10) as usize
}

/// Where silence trimming cuts, for the per-frame flags
/// `audible[f] == (max over channels of |x| > 0.001)`: `None` when nothing
/// is cut (no audible frame, or no more than `keep` silent frames at either
/// end), else the frames to keep.
pub fn trim_range(audible: &Vec<bool>, keep: usize) -> (r: Option<(usize, usize)>)
    ensures
        !has_audible(audible@) ==> r is None,
        has_audible(audible@) ==> {
            let (s, e) = kept_range(audible@, keep as int);
            &&& 0 <= s <= first_audible(audible@)
            &&& last_audible(audible@) < e <= audible@.len()
            &&& (r is None <==> (s == 0 && e == audible@.len()))
            &&& (r matches Some(p) ==> p.0 == s && p.1 == e)
        },
{
    let n = audible.len();
    let mut f: usize = 0;
    while f < n && !audible[f]
        invariant
            n == audible@.len(),
            0 <= f <= n,
            forall|j: int| 0 <= j < f ==> !#[trigger] audible@[j],
        decreases n - f,
    {
        f = f + 1;
    }
    if f == n {
        return None;
    }
    let mut l: usize = n - 1;
    while l > f && !audible[l]
        invariant
            n == audible@.len(),
            f < n,
            audible@[f as int],
            f <= l < n,
            forall|j: int| l < j < n ==> !#[trigger] audible@[j],
        decreases l,
    {
        l = l - 1;
    }
    proof {
        assert(audible@[l as int]);
        lemma_first_audible(audible@, f as int);
        lemma_last_audible(audible@, l as int);
        let ff = first_audible(audible@);
        if ff < f {
            assert(!audible@[ff]);
        }
    }
    let s: usize = if f > keep { f - keep } else { 0 };
    let e: usize = if l < n - 1 && keep < n - 1 - l { l + 1 + keep } else { n };
    if s == 0 && e == n {
        None
    } else {
        Some((s, e))
    }
}

/// After trimming, a buffer that began with more than `keep` silent frames
/// begins with exactly `keep` of them before its first audible frame, and
/// one that ended with more than `keep` ends with exactly `keep` after its
/// last audible frame.
pub proof fn lemma_trim_keeps_padding(audible: Seq<bool>, keep: int)
    requires
        has_audible(audible),
        keep >= 0,
    ensures
        ({
            let (s, e) = kept_range(audible, keep);
            let f = first_audible(audible);
            let l = last_audible(audible);
            &&& f > keep ==> (forall|j: int| s <= j < s + keep ==> !#[trigger] audible[j]) && audible[s
                + keep]
            &&& audible.len() - 1 - l > keep ==> (forall|j: int| e - keep <= j < e ==> !#[trigger] audible[j])
                && audible[e - keep - 1]
        }),
{
    let i = choose|i: int| 0 <= i < audible.len() && #[trigger] audible[i];
    lemma_first_audible(audible, i);
    lemma_last_audible(audible, i);
}

proof fn lemma_first_audible(a: Seq<bool>, i: int)
    requires
        0 <= i < a.len(),
        a[i],
    ensures
        ({
            let f = first_audible(a);
            &&& 0 <= f <= i
            &&& a[f]
            &&& forall|j: int| 0 <= j < f ==> !#[trigger] a[j]
        }),
    decreases i,
{
    if exists|k: int| 0 <= k < i && #[trigger] a[k] {
        let k = choose|k: int| 0 <= k < i && #[trigger] a[k];
        lemma_first_audible(a, k);
    } else {
        assert(0 <= i < a.len() && a[i] && forall|j: int| 0 <= j < i ==> !#[trigger] a[j]);
    }
}

proof fn lemma_last_audible(a: Seq<bool>, i: int)
    requires
        0 <= i < a.len(),
        a[i],
    ensures
        ({
            let l = last_audible(a);
            &&& i <= l < a.len()
            &&& a[l]
            &&& forall|j: int| l < j < a.len() ==> !#[trigger] a[j]
        }),
    decreases a.len() - i,
{
    if exists|k: int| i < k < a.len() && #[trigger] a[k] {
        let k = choose|k: int| i < k < a.len() && #[trigger] a[k];
        lemma_last_audible(a, k);
    } else {
        assert(0 <= i < a.len() && a[i] && forall|j: int| i < j < a.len() ==> !#[trigger] a[j]);
    }
}

/// The noise reducer's switch between samples: whether it is open, and how
/// many more samples it stays open without a signal above threshold.
#[derive(Debug, Clone, Copy, PartialEq, Eq, Structural)]
pub struct GateState {
    pub open: bool,
    pub hold: usize,
}

/// The switch before the first sample: closed, with nothing held.
pub fn gate_start() -> (r: GateState)
    ensures
        r == (GateState { open: false, hold: 0 }),
{
    GateState { open: false, hold: 0 }
}

/// The samples that the switch stays open after the envelope falls: 50 ms at `rate`.
pub fn gate_hold_frames(rate: u32) -> (r: usize)
    ensures
        r == rate / 20,
{
    (rate / 20) as usize
}

/// The switch after one sample, given whether the envelope is above the
/// threshold: above opens it and restarts the hold; below counts the hold
/// down and closes the switch once it has run out. Samples are attenuated
/// while the switch is closed.
pub fn gate_step(state: GateState, above: bool, hold_frames: usize) -> (r: GateState)
    ensures
        above ==> r == (GateState { open: true, hold: hold_frames }),
        !above && state.hold > 0 ==> r == (GateState { open: state.open, hold: (state.hold - 1) as usize }),
        !above && state.hold == 0 ==> r == (GateState { open: false, hold: 0 }),
{
    if above {
        GateState { open: true, hold: hold_frames }
    } else if state.hold > 0 {
        GateState { open: state.open, hold: state.hold - 1 }
    } else {
        GateState { open: false, hold: 0 }
    }
}

} // verus!
