//! The semaphores of a swapchain image: one that the acquire operation
//! signals, and a pool of those that submissions signal for the present
//! operation.

use crate::fence::FenceValue;
use crate::native::RawSemaphore;
use vstd::prelude::*;

verus! {

/// The semaphores used to synchronize the swapchain image acquisition.
///
/// One of these is created per swapchain image.
///
/// The `acquire` semaphore is used to signal from the acquire operation to
/// the first submit that uses the image.
///
/// The `present` semaphores are used to signal from each submit that uses
/// the image to the present operation. One is needed per submit: at submit
/// time it is not known which submission will be the last to use the image,
/// so all of them signal one.
#[derive(Debug)]
pub struct SwapchainSemaphores {
    acquire: RawSemaphore,
    should_wait_for_acquire: bool,
    present: Vec<RawSemaphore>,
    present_index: usize,
    previously_used_submission_index: FenceValue,
}

/// The mathematical content of a [`SwapchainSemaphores`].
pub struct SwapchainSemaphoresView {
    pub acquire: RawSemaphore,
    pub should_wait_for_acquire: bool,
    pub present: Seq<RawSemaphore>,
    pub present_index: nat,
    pub previously_used_submission_index: FenceValue,
}

impl SwapchainSemaphoresView {
    /// The cursor lies within the pool, or at its end.
    pub open spec fn wf(self) -> bool {
        self.present_index <= self.present.len()
    }

    /// What `get_acquire_wait_semaphore` returns.
    pub open spec fn acquire_wait(self) -> Option<RawSemaphore> {
        if self.should_wait_for_acquire {
            Some(self.acquire)
        } else {
            None
        }
    }

    /// The set after `get_acquire_wait_semaphore`.
    pub open spec fn after_acquire_wait(self) -> Self {
        SwapchainSemaphoresView { should_wait_for_acquire: false, ..self }
    }

    /// The set after `set_used_fence_value`.
    pub open spec fn used_by(self, value: FenceValue) -> Self {
        SwapchainSemaphoresView { previously_used_submission_index: value, ..self }
    }

    /// Whether every semaphore of the pool has been handed out since the
    /// last present, so that the next submission needs a new one.
    pub open spec fn exhausted(self) -> bool {
        self.present_index >= self.present.len()
    }

    /// What `get_submit_signal_semaphore` returns, given the semaphores that
    /// the device created ahead of the call.
    pub open spec fn submit_signal(self, semaphores: Seq<RawSemaphore>) -> Option<RawSemaphore> {
        if !self.exhausted() {
            Some(self.present[self.present_index as int])
        } else if semaphores.len() > 0 {
            Some(semaphores.last())
        } else {
            None
        }
    }

    /// The set after `get_submit_signal_semaphore`.
    pub open spec fn after_submit_signal(self, semaphores: Seq<RawSemaphore>) -> Self {
        if !self.exhausted() {
            SwapchainSemaphoresView { present_index: self.present_index + 1, ..self }
        } else if semaphores.len() > 0 {
            SwapchainSemaphoresView {
                present: self.present.push(semaphores.last()),
                present_index: self.present_index + 1,
                ..self
            }
        } else {
            self
        }
    }

    /// The semaphores that are left of those created ahead of
    /// `get_submit_signal_semaphore`.
    pub open spec fn leftover(self, semaphores: Seq<RawSemaphore>) -> Seq<RawSemaphore> {
        if self.exhausted() && semaphores.len() > 0 {
            semaphores.drop_last()
        } else {
            semaphores
        }
    }

    /// What `get_present_wait_semaphores` returns: the semaphores handed out
    /// since it last ran.
    pub open spec fn present_wait(self) -> Seq<RawSemaphore> {
        self.present.take(self.present_index as int)
    }

    /// The set after `get_present_wait_semaphores`.
    pub open spec fn after_present_wait(self) -> Self {
        SwapchainSemaphoresView { present_index: 0, should_wait_for_acquire: true, ..self }
    }
}

/// One use of a semaphore set.
pub enum SetUse {
    /// `set_used_fence_value` with the value.
    Used(FenceValue),
    /// `get_acquire_wait_semaphore`.
    AcquireWait,
    /// `get_submit_signal_semaphore` with the semaphores created ahead.
    SubmitSignal(Seq<RawSemaphore>),
    /// `get_present_wait_semaphores`.
    PresentWait,
}

impl SwapchainSemaphoresView {
    /// The set after one use.
    pub open spec fn step(self, set_use: SetUse) -> Self {
        match set_use {
            SetUse::Used(value) => self.used_by(value),
            SetUse::AcquireWait => self.after_acquire_wait(),
            SetUse::SubmitSignal(semaphores) => self.after_submit_signal(semaphores),
            SetUse::PresentWait => self.after_present_wait(),
        }
    }

    /// The set after a sequence of uses.
    pub open spec fn run(self, uses: Seq<SetUse>) -> Self
        decreases uses.len(),
    {
        if uses.len() == 0 {
            self
        } else {
            self.run(uses.drop_last()).step(uses.last())
        }
    }

    /// The semaphores that a sequence of uses handed out to signal, in
    /// their order.
    pub open spec fn signals(self, uses: Seq<SetUse>) -> Seq<RawSemaphore>
        decreases uses.len(),
    {
        if uses.len() == 0 {
            Seq::empty()
        } else {
            let before = self.signals(uses.drop_last());
            match uses.last() {
                SetUse::SubmitSignal(semaphores) => match self.run(
                    uses.drop_last(),
                ).submit_signal(semaphores) {
                    Some(sem) => before.push(sem),
                    None => before,
                },
                _ => before,
            }
        }
    }
}

/// None of the uses is a present.
pub open spec fn no_present(uses: Seq<SetUse>) -> bool {
    forall|i: int| 0 <= i < uses.len() ==> !(#[trigger] uses[i] is PresentWait)
}

/// The acquire semaphore is waited on once in a cycle: after a use that
/// asked for it, no use asks for it with success until the image is
/// presented.
pub proof fn lemma_acquire_wait_once(set: SwapchainSemaphoresView, uses: Seq<SetUse>, first: int)
    requires
        0 <= first < uses.len(),
        uses[first] is AcquireWait,
        no_present(uses.skip(first)),
    ensures
        set.run(uses).acquire_wait() is None,
    decreases uses.len(),
{
    if first < uses.len() - 1 {
        let front = uses.drop_last();
        assert forall|i: int| 0 <= i < front.skip(first).len() implies !(#[trigger] front.skip(
            first,
        )[i] is PresentWait) by {
            assert(front.skip(first)[i] == uses.skip(first)[i]);
        }
        lemma_acquire_wait_once(set, front, first);
        assert(uses.skip(first)[uses.len() - 1 - first] == uses.last());
    }
}

/// A present starts the next cycle: the first use that asks for the acquire
/// semaphore after it is given the semaphore.
pub proof fn lemma_acquire_wait_after_present(
    set: SwapchainSemaphoresView,
    uses: Seq<SetUse>,
    present: int,
)
    requires
        0 <= present < uses.len(),
        uses[present] is PresentWait,
        forall|i: int| present < i < uses.len() ==> !(#[trigger] uses[i] is AcquireWait),
    ensures
        set.run(uses).acquire_wait() == Some(set.acquire),
    decreases uses.len(),
{
    lemma_run_keeps_acquire(set, uses.drop_last());
    if present < uses.len() - 1 {
        let front = uses.drop_last();
        lemma_acquire_wait_after_present(set, front, present);
    }
}

/// No use changes the acquire semaphore of a set.
pub proof fn lemma_run_keeps_acquire(set: SwapchainSemaphoresView, uses: Seq<SetUse>)
    ensures
        set.run(uses).acquire == set.acquire,
    decreases uses.len(),
{
    if uses.len() > 0 {
        lemma_run_keeps_acquire(set, uses.drop_last());
    }
}

/// A present waits on exactly the semaphores that were handed out to signal
/// since the present before it, as many as there were such uses and in
/// their order: from a set whose cursor is at the start, as a present
/// leaves it, the uses up to the next present hand out what that present
/// returns.
pub proof fn lemma_present_wait_is_signals(set: SwapchainSemaphoresView, uses: Seq<SetUse>)
    requires
        set.wf(),
        set.present_index == 0,
        no_present(uses),
    ensures
        set.run(uses).wf(),
        set.run(uses).present_wait() == set.signals(uses),
        set.run(uses).after_present_wait().present_index == 0,
    decreases uses.len(),
{
    if uses.len() > 0 {
        lemma_present_wait_is_signals(set, uses.drop_last());
    }
}

impl View for SwapchainSemaphores {
    type V = SwapchainSemaphoresView;

    closed spec fn view(&self) -> SwapchainSemaphoresView {
        SwapchainSemaphoresView {
            acquire: self.acquire,
            should_wait_for_acquire: self.should_wait_for_acquire,
            present: self.present@,
            present_index: self.present_index as nat,
            previously_used_submission_index: self.previously_used_submission_index,
        }
    }
}

impl SwapchainSemaphores {
    #[verifier::type_invariant]
    spec fn cursor_in_pool(self) -> bool {
        self.present_index <= self.present.len()
    }

    /// The set of an image that was never acquired, around the semaphore
    /// that the device created for its acquire operation.
    pub fn new(acquire: RawSemaphore) -> (set: Self)
        ensures
            set@ == (SwapchainSemaphoresView {
                acquire,
                should_wait_for_acquire: true,
                present: Seq::empty(),
                present_index: 0,
                previously_used_submission_index: 0,
            }),
            set@.wf(),
    {
        SwapchainSemaphores {
            acquire,
            should_wait_for_acquire: true,
            present: Vec::new(),
            present_index: 0,
            previously_used_submission_index: 0,
        }
    }

    /// Notes the fence value of the submission that used the image last.
    pub fn set_used_fence_value(&mut self, value: FenceValue)
        ensures
            final(self)@ == old(self)@.used_by(value),
            final(self)@.wf(),
    {
        proof {
            use_type_invariant(&*self);
        }
        self.previously_used_submission_index = value;
    }

    /// The fence value of the submission that used the image last.
    pub fn used_fence_value(&self) -> (value: FenceValue)
        ensures
            value == self@.previously_used_submission_index,
    {
        self.previously_used_submission_index
    }

    /// Gets the semaphore to wait on for the acquire operation.
    ///
    /// This will only return Some once, and then None until this image is
    /// presented.
    ///
    /// As submissions are strictly ordered, only the first submission has to
    /// wait. Additionally, a semaphore can be waited on only once.
    pub fn get_acquire_wait_semaphore(&mut self) -> (wait: Option<RawSemaphore>)
        ensures
            wait == old(self)@.acquire_wait(),
            final(self)@ == old(self)@.after_acquire_wait(),
            final(self)@.wf(),
    {
        proof {
            use_type_invariant(&*self);
        }
        if self.should_wait_for_acquire {
            self.should_wait_for_acquire = false;
            Some(self.acquire)
        } else {
            None
        }
    }

    /// Whether the next `get_submit_signal_semaphore` needs a semaphore that
    /// the pool does not have.
    pub fn exhausted(&self) -> (exhausted: bool)
        ensures
            exhausted == self@.exhausted(),
    {
        self.present_index >= self.present.len()
    }

    /// Appends a semaphore to the pool. The cursor stays where it is.
    fn grow(&mut self, sem: RawSemaphore)
        ensures
            final(self)@ == (SwapchainSemaphoresView {
                present: old(self)@.present.push(sem),
                ..old(self)@
            }),
    {
        // The pool leaves the set while it grows, and the cursor is at 0
        // meanwhile, where it lies within any pool.
        proof {
            use_type_invariant(&*self);
        }
        let index = self.present_index;
        let mut pool: Vec<RawSemaphore> = Vec::new();
        self.present_index = 0;
        std::mem::swap(&mut self.present, &mut pool);
        pool.push(sem);
        std::mem::swap(&mut self.present, &mut pool);
        self.present_index = index;
    }

    /// Gets a semaphore to use for a submit.
    ///
    /// If there aren't any available, the last of `semaphores`, which the
    /// device created ahead of the call, joins the pool and is used. Where
    /// one is needed and `semaphores` is empty, nothing changes and the
    /// result is `None`.
    pub fn get_submit_signal_semaphore(&mut self, semaphores: &mut Vec<RawSemaphore>) -> (signal:
        Option<RawSemaphore>)
        ensures
            signal == old(self)@.submit_signal(old(semaphores)@),
            final(self)@ == old(self)@.after_submit_signal(old(semaphores)@),
            final(semaphores)@ == old(self)@.leftover(old(semaphores)@),
            final(self)@.wf(),
    {
        proof {
            use_type_invariant(&*self);
        }
        let sem = if self.present_index < self.present.len() {
            self.present[self.present_index]
        } else {
            match semaphores.pop() {
                Some(sem) => {
                    self.grow(sem);
                    sem
                },
                None => {
                    return None;
                },
            }
        };
        assert(self.present_index < self.present.len());
        self.present_index += 1;
        Some(sem)
    }

    /// Gets the semaphores to wait on for the present operation: those
    /// handed out since the last present, in their order.
    ///
    /// This will enable re-using all of the semaphores for the next time
    /// this image is used.
    pub fn get_present_wait_semaphores(&mut self) -> (wait: Vec<RawSemaphore>)
        ensures
            wait@ == old(self)@.present_wait(),
            final(self)@ == old(self)@.after_present_wait(),
            final(self)@.wf(),
    {
        proof {
            use_type_invariant(&*self);
        }
        let old_index = self.present_index;
        let mut wait: Vec<RawSemaphore> = Vec::new();
        let mut i: usize = 0;
        while i < old_index
            invariant
                i <= old_index <= self.present.len(),
                wait@ == self.present@.take(i as int),
            decreases old_index - i,
        {
            wait.push(self.present[i]);
            i += 1;
        }
        // Reset internal state
        self.present_index = 0;
        self.should_wait_for_acquire = true;
        wait
    }

    /// The semaphores of the set, which the device has to destroy with it:
    /// the acquire semaphore, then the pool.
    pub fn destroy(&self) -> (semaphores: Vec<RawSemaphore>)
        ensures
            semaphores@ == seq![self@.acquire] + self@.present,
    {
        let mut semaphores: Vec<RawSemaphore> = Vec::new();
        semaphores.push(self.acquire);
        let mut i: usize = 0;
        while i < self.present.len()
            invariant
                i <= self.present.len(),
                semaphores@ == seq![self.acquire] + self.present@.take(i as int),
            decreases self.present.len() - i,
        {
            semaphores.push(self.present[i]);
            i += 1;
        }
        semaphores
    }
}

/// The semaphore sets of a swapchain, one per image, and which of them the
/// next acquire uses.
///
/// The set cannot be chosen by the index of the image: it has to be named
/// to the acquire operation, which is what says which image comes next. So
/// the sets are used in turn.
pub struct Swapchain<S> {
    /// One semaphore set per swapchain image, in whatever way the sets are
    /// shared with the surface textures.
    pub surface_semaphores: Vec<S>,
    /// The index of the next set to use.
    pub next_semaphore_index: usize,
}

impl<S> Swapchain<S> {
    /// Moves on to the set after the current one, and from the last to the
    /// first.
    pub fn advance_surface_semaphores(&mut self)
        requires
            old(self).surface_semaphores.len() > 0,
            old(self).next_semaphore_index < usize::MAX,
        ensures
            final(self).next_semaphore_index == (old(self).next_semaphore_index + 1) % (old(
                self,
            ).surface_semaphores.len() as int),
            final(self).surface_semaphores == old(self).surface_semaphores,
    {
        let semaphore_count = self.surface_semaphores.len();
        self.next_semaphore_index = (self.next_semaphore_index + 1) % semaphore_count;
    }

    /// The set that the next acquire uses.
    pub fn get_surface_semaphores(&self) -> (set: &S)
        requires
            self.next_semaphore_index < self.surface_semaphores.len(),
        ensures
            *set == self.surface_semaphores@[self.next_semaphore_index as int],
    {
        &self.surface_semaphores[self.next_semaphore_index]
    }
}

} // verus!
