//! Completion tracking: "has the queue reached value V", over a native
//! counter or over a pool of single-bit fences.

use crate::native::{RawFence, RawSemaphore};
use vstd::prelude::*;

verus! {

/// The value that a queue has reached, or is to reach.
pub type FenceValue = u64;

/// A completion token of the backend.
///
/// There are two ways to keep one on Vulkan: a timeline semaphore, a native
/// counter that is available on newer systems only, and a pool of Vulkan
/// fences, which work everywhere but have two states only, so that each
/// submission needs a fence of its own.
#[derive(Debug)]
pub enum Fence {
    /// A Vulkan timeline semaphore.
    TimelineSemaphore(RawSemaphore),
    /// A collection of Vulkan fences, each associated with a [`FenceValue`].
    ///
    /// The effective value of this variant is the greater of
    /// `last_completed` and the maximum value associated with a signalled
    /// fence in `active`.
    FencePool {
        last_completed: FenceValue,
        /// The pending fence values have to be ascending.
        active: Vec<(FenceValue, RawFence)>,
        free: Vec<RawFence>,
    },
}

/// What has to be read from the device before a fence can say what it has
/// reached.
#[derive(Debug)]
pub enum FenceProbe {
    /// The value of this timeline semaphore.
    Counter(RawSemaphore),
    /// The state of each fence that is `Some`, one entry per active fence.
    /// `None` stands for a fence that is known to be signalled.
    Fences(Vec<Option<RawFence>>),
}

/// What the device reported of a fence.
#[derive(Debug)]
pub enum FenceReading {
    /// The value of the timeline semaphore.
    Counter(FenceValue),
    /// Whether each active fence was seen signalled, in the order of the
    /// pool's active list. An entry that is missing, or whose fence was not
    /// probed, counts as not seen.
    Signaled(Vec<bool>),
}

/// How a submission signals a fence.
#[derive(Clone, Copy, Debug, PartialEq, Eq, Structural)]
pub enum FenceSignal {
    /// The submission signals the timeline semaphore with the value.
    Semaphore(RawSemaphore, FenceValue),
    /// The fence is handed to the submission call itself.
    Fence(RawFence),
}

/// The mathematical content of a [`Fence`].
pub enum FenceView {
    TimelineSemaphore(RawSemaphore),
    FencePool {
        last_completed: FenceValue,
        active: Seq<(FenceValue, RawFence)>,
        free: Seq<RawFence>,
    },
}

impl View for Fence {
    type V = FenceView;

    open spec fn view(&self) -> FenceView {
        match *self {
            Fence::TimelineSemaphore(raw) => FenceView::TimelineSemaphore(raw),
            Fence::FencePool { last_completed, active, free } => FenceView::FencePool {
                last_completed,
                active: active@,
                free: free@,
            },
        }
    }
}

/// Whether entry `i` of a list of fence states says "seen signalled".
pub open spec fn seen(signaled: Seq<bool>, i: int) -> bool {
    0 <= i < signaled.len() && signaled[i]
}

/// The greatest value among `floor` and the values of the active fences that
/// were seen signalled.
pub open spec fn latest_of(
    floor: FenceValue,
    active: Seq<(FenceValue, RawFence)>,
    signaled: Seq<bool>,
) -> FenceValue
    decreases active.len(),
{
    if active.len() == 0 {
        floor
    } else {
        let rest = latest_of(floor, active.drop_last(), signaled);
        if seen(signaled, active.len() - 1) && active.last().0 > rest {
            active.last().0
        } else {
            rest
        }
    }
}

/// The entries whose value lies above `latest`.
pub open spec fn above(latest: FenceValue) -> spec_fn((FenceValue, RawFence)) -> bool {
    |entry: (FenceValue, RawFence)| entry.0 > latest
}

/// The entries whose value `latest` has reached.
pub open spec fn reached(latest: FenceValue) -> spec_fn((FenceValue, RawFence)) -> bool {
    |entry: (FenceValue, RawFence)| entry.0 <= latest
}

/// The fence of an entry.
pub open spec fn handle_of() -> spec_fn((FenceValue, RawFence)) -> RawFence {
    |entry: (FenceValue, RawFence)| entry.1
}

/// The fences of the entries that `latest` has reached, in their order.
pub open spec fn recycled_of(latest: FenceValue, active: Seq<(FenceValue, RawFence)>) -> Seq<
    RawFence,
> {
    active.filter(reached(latest)).map_values(handle_of())
}

/// What a probe asks of each active fence.
pub open spec fn probe_of(floor: FenceValue, active: Seq<(FenceValue, RawFence)>) -> Seq<
    Option<RawFence>,
> {
    Seq::new(
        active.len(),
        |i: int|
            if active[i].0 > floor {
                Some(active[i].1)
            } else {
                None
            },
    )
}

impl FenceView {
    /// The values of the active fences increase strictly. A timeline
    /// semaphore has no such list.
    pub open spec fn ascending(self) -> bool {
        match self {
            FenceView::TimelineSemaphore(_) => true,
            FenceView::FencePool { active, .. } => forall|i: int, j: int|
                0 <= i < j < active.len() ==> active[i].0 < active[j].0,
        }
    }

    /// `value` lies above every value that the pool has seen so far, active
    /// or completed, so that it may be the next target.
    pub open spec fn accepts(self, value: FenceValue) -> bool {
        match self {
            FenceView::TimelineSemaphore(_) => true,
            FenceView::FencePool { last_completed, active, .. } => {
                &&& last_completed < value
                &&& forall|i: int| 0 <= i < active.len() ==> active[i].0 < value
            },
        }
    }

    /// The value that the fence has reached, as far as a list of fence
    /// states shows it. For a timeline semaphore the list shows nothing.
    pub open spec fn latest_seen(self, signaled: Seq<bool>) -> FenceValue {
        match self {
            FenceView::TimelineSemaphore(_) => 0,
            FenceView::FencePool { last_completed, active, .. } => latest_of(
                last_completed,
                active,
                signaled,
            ),
        }
    }

    /// The value that the fence has reached according to `reading`, where
    /// the reading is of the fence's kind.
    pub open spec fn latest(self, reading: FenceReading) -> Option<FenceValue> {
        match (self, reading) {
            (FenceView::TimelineSemaphore(_), FenceReading::Counter(value)) => Some(value),
            (FenceView::FencePool { .. }, FenceReading::Signaled(signaled)) => Some(
                self.latest_seen(signaled@),
            ),
            _ => None,
        }
    }

    /// What has to be read from the device.
    pub open spec fn probe(self) -> FenceProbeView {
        match self {
            FenceView::TimelineSemaphore(raw) => FenceProbeView::Counter(raw),
            FenceView::FencePool { last_completed, active, .. } => FenceProbeView::Fences(
                probe_of(last_completed, active),
            ),
        }
    }

    /// The fences that `maintain` takes out of use, in their order.
    pub open spec fn recycled(self, signaled: Seq<bool>) -> Seq<RawFence> {
        match self {
            FenceView::TimelineSemaphore(_) => Seq::empty(),
            FenceView::FencePool { active, .. } => recycled_of(self.latest_seen(signaled), active),
        }
    }

    /// The fence after `maintain`.
    pub open spec fn maintained(self, signaled: Seq<bool>) -> FenceView {
        match self {
            FenceView::TimelineSemaphore(_) => self,
            FenceView::FencePool { last_completed, active, free } => FenceView::FencePool {
                last_completed: self.latest_seen(signaled),
                active: active.filter(above(self.latest_seen(signaled))),
                free: free + self.recycled(signaled),
            },
        }
    }

    /// Whether `record_target` has to be given a new fence: the pool has no
    /// free one.
    pub open spec fn lacks_fence(self) -> bool {
        self matches FenceView::FencePool { free, .. } && free.len() == 0
    }

    /// What `record_target` hands to the submission, given the fences that
    /// the device created ahead of the call. `None` where a fence is needed
    /// and there is none.
    pub open spec fn signal(self, value: FenceValue, fences: Seq<RawFence>) -> Option<
        FenceSignal,
    > {
        match self {
            FenceView::TimelineSemaphore(raw) => Some(FenceSignal::Semaphore(raw, value)),
            FenceView::FencePool { free, .. } => if free.len() > 0 {
                Some(FenceSignal::Fence(free.last()))
            } else if fences.len() > 0 {
                Some(FenceSignal::Fence(fences.last()))
            } else {
                None
            },
        }
    }

    /// The fence after `record_target`.
    pub open spec fn recorded(self, value: FenceValue, fences: Seq<RawFence>) -> FenceView {
        match self {
            FenceView::TimelineSemaphore(_) => self,
            FenceView::FencePool { last_completed, active, free } => if free.len() > 0 {
                FenceView::FencePool {
                    last_completed,
                    active: active.push((value, free.last())),
                    free: free.drop_last(),
                }
            } else if fences.len() > 0 {
                FenceView::FencePool {
                    last_completed,
                    active: active.push((value, fences.last())),
                    free,
                }
            } else {
                self
            },
        }
    }

    /// The fences that are left of those created ahead of `record_target`.
    pub open spec fn leftover(self, fences: Seq<RawFence>) -> Seq<RawFence> {
        if self.lacks_fence() && fences.len() > 0 {
            fences.drop_last()
        } else {
            fences
        }
    }
}

/// The mathematical content of a [`FenceProbe`].
pub enum FenceProbeView {
    Counter(RawSemaphore),
    Fences(Seq<Option<RawFence>>),
}

impl View for FenceProbe {
    type V = FenceProbeView;

    open spec fn view(&self) -> FenceProbeView {
        match *self {
            FenceProbe::Counter(raw) => FenceProbeView::Counter(raw),
            FenceProbe::Fences(fences) => FenceProbeView::Fences(fences@),
        }
    }
}

impl Fence {
    /// Says what has to be read from the device for `get_latest` and
    /// `maintain`: the counter of a timeline semaphore, or the state of each
    /// pooled fence whose value lies above `last_completed`. The fences at
    /// or below it stay in the active list only until `maintain` runs, and
    /// need no query.
    pub fn probe(&self) -> (probe: FenceProbe)
        ensures
            probe@ == self@.probe(),
    {
        match self {
            Fence::TimelineSemaphore(raw) => FenceProbe::Counter(*raw),
            Fence::FencePool { last_completed, active, free: _ } => {
                let mut fences: Vec<Option<RawFence>> = Vec::new();
                let mut i: usize = 0;
                while i < active.len()
                    invariant
                        i <= active.len(),
                        fences@ == probe_of(*last_completed, active@).take(i as int),
                    decreases active.len() - i,
                {
                    let (value, raw) = active[i];
                    fences.push(if value > *last_completed { Some(raw) } else { None });
                    i += 1;
                }
                proof {
                    assert(fences@ == probe_of(*last_completed, active@));
                }
                FenceProbe::Fences(fences)
            },
        }
    }

    /// Return the highest [`FenceValue`] among the fences in `active` that
    /// were seen signalled, and `last_completed` where there is none above
    /// it.
    pub fn check_active(
        last_completed: FenceValue,
        active: &Vec<(FenceValue, RawFence)>,
        signaled: &Vec<bool>,
    ) -> (latest: FenceValue)
        ensures
            latest == latest_of(last_completed, active@, signaled@),
    {
        let mut latest = last_completed;
        let mut i: usize = 0;
        while i < active.len()
            invariant
                i <= active.len(),
                latest == latest_of(last_completed, active@.take(i as int), signaled@),
            decreases active.len() - i,
        {
            let (value, _) = active[i];
            proof {
                assert(active@.take(i + 1).drop_last() == active@.take(i as int));
            }
            if value > latest && i < signaled.len() && signaled[i] {
                latest = value;
            }
            i += 1;
        }
        proof {
            assert(active@.take(active.len() as int) == active@);
        }
        latest
    }

    /// Return the highest signalled [`FenceValue`] for `self`: the value of
    /// the native counter, or the greatest value of a pooled fence that was
    /// seen signalled, floored at `last_completed`. `None` where the reading
    /// is not of this fence's kind.
    pub fn get_latest(&self, reading: &FenceReading) -> (latest: Option<FenceValue>)
        ensures
            latest == self@.latest(*reading),
    {
        match (self, reading) {
            (Fence::TimelineSemaphore(_), FenceReading::Counter(value)) => Some(*value),
            (
                Fence::FencePool { last_completed, active, free: _ },
                FenceReading::Signaled(signaled),
            ) => Some(Self::check_active(*last_completed, active, signaled)),
            _ => None,
        }
    }

    /// Whether `value` lies above every value that the fence has seen so
    /// far. A submission may take such a value for its target, and no other.
    pub fn accepts(&self, value: FenceValue) -> (ok: bool)
        ensures
            ok == self@.accepts(value),
    {
        match self {
            Fence::TimelineSemaphore(_) => true,
            Fence::FencePool { last_completed, active, free: _ } => {
                let mut ok = *last_completed < value;
                let mut i: usize = 0;
                while i < active.len()
                    invariant
                        i <= active.len(),
                        ok == (*last_completed < value && forall|k: int|
                            0 <= k < i ==> active@[k].0 < value),
                    decreases active.len() - i,
                {
                    let (other, _) = active[i];
                    if other >= value {
                        ok = false;
                    }
                    i += 1;
                }
                proof {
                    assert(self@->active == active@);
                }
                ok
            },
        }
    }

    /// Whether, once `maintain` has run on these fence states, the pool has
    /// no free fence left for `record_target`, so that the device has to
    /// create one first.
    pub fn lacks_fence_after(&self, signaled: &Vec<bool>) -> (lacks: bool)
        ensures
            lacks == self@.maintained(signaled@).lacks_fence(),
    {
        match self {
            Fence::TimelineSemaphore(_) => false,
            Fence::FencePool { last_completed, active, free } => {
                let latest = Self::check_active(*last_completed, active, signaled);
                let mut recycled: usize = 0;
                let mut i: usize = 0;
                while i < active.len()
                    invariant
                        i <= active.len(),
                        recycled <= i,
                        recycled == recycled_of(latest, active@.take(i as int)).len(),
                    decreases active.len() - i,
                {
                    let (value, _) = active[i];
                    proof {
                        lemma_filter_step(active@, i as int, latest);
                    }
                    if value <= latest {
                        recycled += 1;
                    }
                    i += 1;
                }
                proof {
                    assert(active@.take(active.len() as int) == active@);
                }
                free.len() == 0 && recycled == 0
            },
        }
    }

    /// Associates an upcoming submission with the target `value`, and says
    /// how the submission signals the fence.
    ///
    /// A timeline semaphore is signalled with the value itself. A pool takes
    /// the fence that was freed last, or, where none is free, the last of
    /// `fences`, which the device created ahead of the call, and appends it
    /// with the value to the active list. Where a fence is needed and
    /// `fences` is empty, nothing changes and the result is `None`.
    ///
    /// The targets of one queue have to increase strictly.
    pub fn record_target(&mut self, value: FenceValue, fences: &mut Vec<RawFence>) -> (signal:
        Option<FenceSignal>)
        requires
            old(self)@.accepts(value),
        ensures
            signal == old(self)@.signal(value, old(fences)@),
            final(self)@ == old(self)@.recorded(value, old(fences)@),
            final(fences)@ == old(self)@.leftover(old(fences)@),
            old(self)@.ascending() ==> final(self)@.ascending(),
    {
        match self {
            Fence::TimelineSemaphore(raw) => Some(FenceSignal::Semaphore(*raw, value)),
            Fence::FencePool { last_completed: _, active, free } => {
                let raw = match free.pop() {
                    Some(raw) => raw,
                    None => match fences.pop() {
                        Some(raw) => raw,
                        None => {
                            return None;
                        },
                    },
                };
                active.push((value, raw));
                Some(FenceSignal::Fence(raw))
            },
        }
    }

    /// Trim the internal state of this [`Fence`], given the fence states
    /// that the device reported.
    ///
    /// For a pool this recycles the fences that the reached value covers:
    /// they leave the active list for the free list, in their order, and the
    /// reached value becomes `last_completed`. The fences returned are those
    /// recycled; the device has to reset them before one is used again. A
    /// timeline semaphore has nothing to trim.
    pub fn maintain(&mut self, signaled: &Vec<bool>) -> (reset: Vec<RawFence>)
        ensures
            final(self)@ == old(self)@.maintained(signaled@),
            reset@ == old(self)@.recycled(signaled@),
    {
        match self {
            Fence::TimelineSemaphore(_) => Vec::new(),
            Fence::FencePool { last_completed, active, free } => {
                let latest = Self::check_active(*last_completed, active, signaled);
                let ghost before = active@;
                let ghost base = free@;
                let mut reset: Vec<RawFence> = Vec::new();
                let mut retained: Vec<(FenceValue, RawFence)> = Vec::new();
                let mut i: usize = 0;
                while i < active.len()
                    invariant
                        i <= active.len(),
                        active@ == before,
                        retained@ == before.take(i as int).filter(above(latest)),
                        reset@ == recycled_of(latest, before.take(i as int)),
                        free@ == base + reset@,
                    decreases active.len() - i,
                {
                    let (value, raw) = active[i];
                    proof {
                        lemma_filter_step(before, i as int, latest);
                    }
                    if value <= latest {
                        free.push(raw);
                        reset.push(raw);
                    } else {
                        retained.push((value, raw));
                    }
                    i += 1;
                }
                proof {
                    assert(before.take(before.len() as int) == before);
                }
                *active = retained;
                *last_completed = latest;
                reset
            },
        }
    }
}

/// How the two halves of `maintain` grow when the scan takes one more entry.
proof fn lemma_filter_step(active: Seq<(FenceValue, RawFence)>, i: int, latest: FenceValue)
    requires
        0 <= i < active.len(),
    ensures
        active[i].0 > latest ==> {
            &&& active.take(i + 1).filter(above(latest)) == active.take(i).filter(
                above(latest),
            ).push(active[i])
            &&& recycled_of(latest, active.take(i + 1)) == recycled_of(latest, active.take(i))
        },
        active[i].0 <= latest ==> {
            &&& active.take(i + 1).filter(above(latest)) == active.take(i).filter(above(latest))
            &&& recycled_of(latest, active.take(i + 1)) == recycled_of(
                latest,
                active.take(i),
            ).push(active[i].1)
        },
{
    reveal(Seq::filter);
    let next = active.take(i + 1);
    assert(next.drop_last() == active.take(i));
}

/// The reached value is the maximum of the floor and of the values of the
/// fences seen signalled: it lies at or above each of them, and it is one of
/// them.
pub proof fn lemma_latest_is_maximum(
    floor: FenceValue,
    active: Seq<(FenceValue, RawFence)>,
    signaled: Seq<bool>,
)
    ensures
        latest_of(floor, active, signaled) >= floor,
        forall|i: int|
            0 <= i < active.len() && seen(signaled, i) ==> latest_of(floor, active, signaled)
                >= (#[trigger] active[i]).0,
        latest_of(floor, active, signaled) == floor || exists|i: int|
            0 <= i < active.len() && seen(signaled, i) && (#[trigger] active[i]).0 == latest_of(
                floor,
                active,
                signaled,
            ),
    decreases active.len(),
{
    if active.len() > 0 {
        let front = active.drop_last();
        lemma_latest_is_maximum(floor, front, signaled);
        let latest = latest_of(floor, active, signaled);
        assert forall|i: int| 0 <= i < active.len() && seen(signaled, i) implies latest >= (
        #[trigger] active[i]).0 by {
            if i < front.len() {
                assert(front[i] == active[i]);
            }
        }
    }
}

/// The reached value does not go back while the device goes on: with a
/// higher floor, and with every fence still seen signalled that was seen so
/// before, it is at least what it was.
pub proof fn lemma_latest_monotone(
    floor: FenceValue,
    later_floor: FenceValue,
    active: Seq<(FenceValue, RawFence)>,
    signaled: Seq<bool>,
    later: Seq<bool>,
)
    requires
        floor <= later_floor,
        forall|i: int| 0 <= i < active.len() && seen(signaled, i) ==> seen(later, i),
    ensures
        latest_of(floor, active, signaled) <= latest_of(later_floor, active, later),
    decreases active.len(),
{
    if active.len() > 0 {
        lemma_latest_monotone(floor, later_floor, active.drop_last(), signaled, later);
    }
}

/// Whether the device may report `later` after it has reported `earlier`: a
/// counter does not go back, and a fence that was seen signalled stays so
/// until it is reset.
pub open spec fn not_behind(earlier: FenceReading, later: FenceReading) -> bool {
    match (earlier, later) {
        (FenceReading::Counter(before), FenceReading::Counter(after)) => before <= after,
        (FenceReading::Signaled(before), FenceReading::Signaled(after)) => forall|i: int|
            seen(before@, i) ==> seen(after@, i),
        _ => false,
    }
}

/// What `get_latest` returns never decreases from one call to the next
/// while the fence stays as it is.
pub proof fn lemma_latest_never_decreases(
    fence: FenceView,
    earlier: FenceReading,
    later: FenceReading,
)
    requires
        not_behind(earlier, later),
        fence.latest(earlier) is Some,
    ensures
        fence.latest(later) is Some,
        fence.latest(earlier)->0 <= fence.latest(later)->0,
{
    if let FenceView::FencePool { last_completed, active, .. } = fence {
        lemma_latest_monotone(
            last_completed,
            last_completed,
            active,
            earlier->Signaled_0@,
            later->Signaled_0@,
        );
    }
}

/// A new entry at the end of the active list leaves the reached value as it
/// is until its fence is seen signalled.
pub proof fn lemma_latest_of_push(
    floor: FenceValue,
    active: Seq<(FenceValue, RawFence)>,
    entry: (FenceValue, RawFence),
    signaled: Seq<bool>,
)
    ensures
        latest_of(floor, active.push(entry), signaled) == if seen(signaled, active.len() as int)
            && entry.0 > latest_of(floor, active, signaled) {
            entry.0
        } else {
            latest_of(floor, active, signaled)
        },
{
    assert(active.push(entry).drop_last() == active);
}

/// The reached value of a fence never decreases across `maintain`: whatever
/// the device reports afterwards, the maintained fence has reached at least
/// what the fence had reached by the states that it was maintained with.
pub proof fn lemma_maintain_keeps_latest(fence: FenceView, signaled: Seq<bool>, later: Seq<bool>)
    ensures
        fence.maintained(signaled).latest_seen(later) >= fence.latest_seen(signaled),
{
    if let FenceView::FencePool { last_completed, active, .. } = fence {
        let latest = fence.latest_seen(signaled);
        lemma_latest_is_maximum(latest, active.filter(above(latest)), later);
    }
}

/// The reached value of a pool never decreases across `record_target`: while
/// every fence that was seen signalled before is seen so afterwards, the
/// fence with the new target has reached at least what it had reached.
pub proof fn lemma_record_keeps_latest(
    fence: FenceView,
    value: FenceValue,
    fences: Seq<RawFence>,
    signaled: Seq<bool>,
    later: Seq<bool>,
)
    requires
        fence is FencePool,
        forall|i: int| 0 <= i < fence->active.len() && seen(signaled, i) ==> seen(later, i),
    ensures
        fence.recorded(value, fences).latest_seen(later) >= fence.latest_seen(signaled),
{
    let floor = fence->last_completed;
    let active = fence->active;
    lemma_latest_monotone(floor, floor, active, signaled, later);
    if fence->free.len() > 0 {
        lemma_latest_of_push(floor, active, (value, fence->free.last()), later);
    } else if fences.len() > 0 {
        lemma_latest_of_push(floor, active, (value, fences.last()), later);
    }
}

/// A target is reached when its fence is seen signalled: once
/// `record_target` has taken a fence for a value that the pool accepts, a
/// report that sees this fence signalled makes the value the reached one.
pub proof fn lemma_target_is_reached(
    fence: FenceView,
    value: FenceValue,
    fences: Seq<RawFence>,
    signaled: Seq<bool>,
)
    requires
        fence is FencePool,
        fence.accepts(value),
        fence.signal(value, fences) is Some,
        seen(signaled, fence->active.len() as int),
    ensures
        fence.recorded(value, fences).latest_seen(signaled) == value,
{
    let floor = fence->last_completed;
    let active = fence->active;
    lemma_latest_is_maximum(floor, active, signaled);
    if fence->free.len() > 0 {
        lemma_latest_of_push(floor, active, (value, fence->free.last()), signaled);
    } else {
        lemma_latest_of_push(floor, active, (value, fences.last()), signaled);
    }
}

/// What `maintain` leaves in the active list was not seen signalled, and
/// lies above the reached value.
pub proof fn lemma_retained_not_seen(
    floor: FenceValue,
    active: Seq<(FenceValue, RawFence)>,
    signaled: Seq<bool>,
    i: int,
)
    requires
        0 <= i < active.len(),
        active[i].0 > latest_of(floor, active, signaled),
    ensures
        !seen(signaled, i),
{
    lemma_latest_is_maximum(floor, active, signaled);
}

/// `maintain` is idempotent: after it has run, it changes nothing and
/// recycles nothing for as long as the device reports no further fence as
/// signalled.
pub proof fn lemma_maintain_idempotent(fence: FenceView, signaled: Seq<bool>, again: Seq<bool>)
    requires
        fence matches FenceView::FencePool { .. } ==> forall|i: int|
            0 <= i < fence.maintained(signaled)->active.len() ==> !seen(again, i),
    ensures
        fence.maintained(signaled).maintained(again) == fence.maintained(signaled),
        fence.maintained(signaled).recycled(again) == Seq::<RawFence>::empty(),
{
    if let FenceView::FencePool { last_completed, active, free } = fence {
        let latest = fence.latest_seen(signaled);
        let kept = active.filter(above(latest));
        lemma_latest_is_maximum(latest, kept, again);
        lemma_filter_all(kept, above(latest));
        lemma_filter_none(kept, reached(latest));
    }
}

/// A filter that every element passes changes nothing.
proof fn lemma_filter_all<A>(s: Seq<A>, pred: spec_fn(A) -> bool)
    requires
        forall|i: int| 0 <= i < s.len() ==> pred(#[trigger] s[i]),
    ensures
        s.filter(pred) == s,
    decreases s.len(),
{
    reveal(Seq::filter);
    if s.len() > 0 {
        lemma_filter_all(s.drop_last(), pred);
    }
}

/// A filter that no element passes leaves nothing.
proof fn lemma_filter_none<A>(s: Seq<A>, pred: spec_fn(A) -> bool)
    requires
        forall|i: int| 0 <= i < s.len() ==> !pred(#[trigger] s[i]),
    ensures
        s.filter(pred) == Seq::<A>::empty(),
    decreases s.len(),
{
    reveal(Seq::filter);
    if s.len() > 0 {
        lemma_filter_none(s.drop_last(), pred);
    }
}

/// A target that a fence accepts is still accepted once the fence is
/// maintained: maintaining only takes fences out of the active list.
pub proof fn lemma_maintained_accepts(fence: FenceView, signaled: Seq<bool>, value: FenceValue)
    requires
        fence.accepts(value),
    ensures
        fence.maintained(signaled).accepts(value),
{
    if let FenceView::FencePool { last_completed, active, .. } = fence {
        let latest = fence.latest_seen(signaled);
        let kept = active.filter(above(latest));
        lemma_latest_is_maximum(last_completed, active, signaled);
        assert forall|i: int| 0 <= i < kept.len() implies kept[i].0 < value by {
            active.lemma_filter_contains_rev(above(latest), kept[i]);
        }
    }
}

/// `maintain` keeps the values of the active fences ascending.
pub proof fn lemma_maintain_keeps_ascending(fence: FenceView, signaled: Seq<bool>)
    requires
        fence.ascending(),
    ensures
        fence.maintained(signaled).ascending(),
{
    if let FenceView::FencePool { active, .. } = fence {
        let latest = fence.latest_seen(signaled);
        lemma_filter_keeps_order(active, above(latest));
    }
}

/// A filter keeps the elements in their order: whatever increases strictly
/// does so afterwards.
proof fn lemma_filter_keeps_order(
    s: Seq<(FenceValue, RawFence)>,
    pred: spec_fn((FenceValue, RawFence)) -> bool,
)
    requires
        forall|i: int, j: int| 0 <= i < j < s.len() ==> s[i].0 < s[j].0,
    ensures
        forall|i: int, j: int|
            0 <= i < j < s.filter(pred).len() ==> s.filter(pred)[i].0 < s.filter(pred)[j].0,
    decreases s.len(),
{
    reveal(Seq::filter);
    if s.len() > 0 {
        let front = s.drop_last();
        lemma_filter_keeps_order(front, pred);
        let kept = front.filter(pred);
        assert forall|i: int, j: int| 0 <= i < j < s.filter(pred).len() implies s.filter(
            pred,
        )[i].0 < s.filter(pred)[j].0 by {
            if j == kept.len() {
                front.lemma_filter_contains_rev(pred, kept[i]);
            }
        }
    }
}

} // verus!
