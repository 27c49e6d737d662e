//! One queue submission, and one present, as plans for the device.

use crate::error::{surface_error_of, SurfaceError};
use crate::fence::{lemma_maintained_accepts, Fence, FenceSignal, FenceValue, FenceView};
use crate::native::{
    result_code, RawCommandBuffer, RawFence, RawPipelineStageFlags, RawQueue, RawSemaphore,
    RawSwapchain, TOP_OF_PIPE,
};
use crate::relay::RelaySemaphores;
use crate::swapchain::{SwapchainSemaphores, SwapchainSemaphoresView};
use ash::vk;
use vstd::prelude::*;

verus! {

/// The value that stands in the list of signal values for a semaphore that
/// is no timeline semaphore. The device ignores it.
pub const NO_VALUE: FenceValue = 0xffff_ffff_ffff_ffff;

/// A recorded command buffer.
#[derive(Debug)]
pub struct CommandBuffer {
    pub raw: RawCommandBuffer,
}

/// An image that was acquired from a swapchain.
#[derive(Debug)]
pub struct SurfaceTexture {
    /// The index of the image in its swapchain.
    pub index: u32,
    /// Which semaphore set the image has. Two surface textures with the
    /// same number here share one set.
    pub surface_semaphores: usize,
}

/// Native objects that the device created ahead of a call. A call takes what
/// it needs from the end of a list and leaves the rest.
#[derive(Debug)]
pub struct NativeSupply {
    /// Binary semaphores.
    pub semaphores: Vec<RawSemaphore>,
    /// Fences, unsignalled.
    pub fences: Vec<RawFence>,
}

/// How many native objects a submission needs beyond those supplied.
#[derive(Clone, Copy, Debug, PartialEq, Eq, Structural)]
pub struct Shortfall {
    pub semaphores: usize,
    pub fences: usize,
}

/// What the device is to do for one `submit`: reset `reset_fences`, then
/// issue one batched submission of the rest.
#[derive(Debug)]
pub struct Submission {
    /// The command buffers, in the order given.
    pub command_buffers: Vec<RawCommandBuffer>,
    /// The semaphores that the submission waits on.
    pub wait_semaphores: Vec<RawSemaphore>,
    /// For each of `wait_semaphores`, the stage that waits.
    pub wait_stage_masks: Vec<RawPipelineStageFlags>,
    /// The semaphores that the submission signals.
    pub signal_semaphores: Vec<RawSemaphore>,
    /// For each of `signal_semaphores` the value to signal, where the fence
    /// is a timeline semaphore.
    pub signal_values: Option<Vec<FenceValue>>,
    /// The fence that the submission signals, where the fence is a pool.
    pub fence: Option<RawFence>,
    /// The fences that left use, to be reset before the submission.
    pub reset_fences: Vec<RawFence>,
}

/// What the device is to present.
#[derive(Debug)]
pub struct Presentation {
    pub swapchain: RawSwapchain,
    pub image_index: u32,
    /// The semaphores that the present operation waits on.
    pub wait_semaphores: Vec<RawSemaphore>,
}

/// A queue of the device.
#[derive(Debug)]
pub struct Queue {
    pub raw: RawQueue,
    pub family_index: u32,
    pub relay_semaphores: RelaySemaphores,
}

/// No two of the surface textures have the same semaphore set.
pub open spec fn distinct_sets(surface_textures: Seq<&SurfaceTexture>) -> bool {
    forall|i: int, j: int|
        0 <= i < j < surface_textures.len() ==> surface_textures[i].surface_semaphores
            != surface_textures[j].surface_semaphores
}

/// The contents of a list of semaphore sets.
pub open spec fn views(sets: Seq<SwapchainSemaphores>) -> Seq<SwapchainSemaphoresView> {
    sets.map_values(|set: SwapchainSemaphores| set@)
}

/// How many of the sets need a semaphore that their pool does not have.
pub open spec fn exhausted_count(sets: Seq<SwapchainSemaphoresView>) -> nat
    decreases sets.len(),
{
    if sets.len() == 0 {
        0
    } else {
        exhausted_count(sets.drop_last()) + if sets.last().exhausted() {
            1nat
        } else {
            0nat
        }
    }
}

/// What a submission takes from the semaphore sets of its surface textures.
pub struct Touched {
    /// The sets afterwards.
    pub sets: Seq<SwapchainSemaphoresView>,
    /// The acquire semaphores to wait on.
    pub wait: Seq<RawSemaphore>,
    /// The semaphores to signal, one of each set.
    pub signal: Seq<RawSemaphore>,
    /// What is left of the semaphores created ahead.
    pub semaphores: Seq<RawSemaphore>,
}

/// A submission with the target `value` goes through the sets in their
/// order. Each set notes the value, gives its acquire semaphore if nothing
/// waited on it yet, and gives a semaphore to signal, which is taken from
/// `semaphores` where the set's pool is exhausted.
pub open spec fn touch(
    sets: Seq<SwapchainSemaphoresView>,
    value: FenceValue,
    semaphores: Seq<RawSemaphore>,
) -> Touched
    decreases sets.len(),
{
    if sets.len() == 0 {
        Touched { sets: Seq::empty(), wait: Seq::empty(), signal: Seq::empty(), semaphores }
    } else {
        let before = touch(sets.drop_last(), value, semaphores);
        let set = sets.last().used_by(value);
        let waited = set.after_acquire_wait();
        Touched {
            sets: before.sets.push(waited.after_submit_signal(before.semaphores)),
            wait: match set.acquire_wait() {
                Some(sem) => before.wait.push(sem),
                None => before.wait,
            },
            signal: match waited.submit_signal(before.semaphores) {
                Some(sem) => before.signal.push(sem),
                None => before.signal,
            },
            semaphores: waited.leftover(before.semaphores),
        }
    }
}

/// A list of one semaphore, or of none.
pub open spec fn optional(sem: Option<RawSemaphore>) -> Seq<RawSemaphore> {
    match sem {
        Some(sem) => seq![sem],
        None => Seq::empty(),
    }
}

/// The raw handles of a list of command buffers, in its order.
pub open spec fn raw_handles(command_buffers: Seq<&CommandBuffer>) -> Seq<RawCommandBuffer> {
    Seq::new(command_buffers.len(), |i: int| command_buffers[i].raw)
}

impl Queue {
    /// What a submission lacks of the native objects that it needs: a
    /// semaphore for each set whose pool is exhausted, and a fence where
    /// the pool of `fence` has no free one once it is maintained.
    pub open spec fn shortfall(
        sets: Seq<SwapchainSemaphoresView>,
        fence: FenceView,
        signaled: Seq<bool>,
        semaphores: Seq<RawSemaphore>,
        fences: Seq<RawFence>,
    ) -> Shortfall {
        Shortfall {
            semaphores: if exhausted_count(sets) > semaphores.len() {
                (exhausted_count(sets) - semaphores.len()) as usize
            } else {
                0
            },
            fences: if fence.maintained(signaled).lacks_fence() && fences.len() == 0 {
                1
            } else {
                0
            },
        }
    }

    /// Whether no two of the surface textures share a semaphore set. Only
    /// such textures may go into one submission: the sets of all of them are
    /// locked together.
    pub fn distinct_semaphores(surface_textures: &[&SurfaceTexture]) -> (distinct: bool)
        ensures
            distinct == distinct_sets(surface_textures@),
    {
        let mut i: usize = 0;
        while i < surface_textures.len()
            invariant
                i <= surface_textures.len(),
                forall|a: int, b: int|
                    0 <= a < b < surface_textures.len() && a < i
                        ==> surface_textures@[a].surface_semaphores
                        != surface_textures@[b].surface_semaphores,
            decreases surface_textures.len() - i,
        {
            let mut j: usize = i + 1;
            while j < surface_textures.len()
                invariant
                    i < j <= surface_textures.len(),
                    forall|b: int|
                        i < b < j ==> surface_textures@[i as int].surface_semaphores
                            != surface_textures@[b].surface_semaphores,
                decreases surface_textures.len() - j,
            {
                if surface_textures[i].surface_semaphores
                    == surface_textures[j].surface_semaphores {
                    return false;
                }
                j += 1;
            }
            i += 1;
        }
        true
    }

    /// Prepares one submission of `command_buffers` that signals
    /// `signal_fence` with `signal_value`.
    ///
    /// `surface_semaphores` holds the locked semaphore set of each surface
    /// texture, in the order of `surface_textures`; `signaled` holds the
    /// fence states that the device reported for `signal_fence`; `supply`
    /// holds semaphores and fences created ahead of the call.
    ///
    /// Where the supply does not cover what the submission needs, nothing
    /// changes and the result says what is missing. Otherwise:
    /// each set notes `signal_value`, gives its acquire semaphore to the
    /// wait list if nothing waited on it yet, and gives a semaphore to the
    /// signal list; the relay advances and adds its wait, if it has one, and
    /// its signal; the fence is maintained and then attached, a timeline
    /// semaphore as a last signal with `signal_value`, a pool by the fence
    /// that it records for the value. Every wait is for the earliest stage.
    ///
    /// No two surface textures of one submission may share their semaphore
    /// set, and the targets of one queue have to increase strictly.
    pub fn submit(
        &mut self,
        command_buffers: &[&CommandBuffer],
        surface_textures: &[&SurfaceTexture],
        surface_semaphores: &mut Vec<SwapchainSemaphores>,
        signal_fence: &mut Fence,
        signal_value: FenceValue,
        signaled: &Vec<bool>,
        supply: &mut NativeSupply,
    ) -> (result: Result<Submission, Shortfall>)
        requires
            distinct_sets(surface_textures@),
            old(surface_semaphores).len() == surface_textures.len(),
            old(signal_fence)@.accepts(signal_value),
        ensures
            result is Err <==> Self::shortfall(
                views(old(surface_semaphores)@),
                old(signal_fence)@,
                signaled@,
                old(supply).semaphores@,
                old(supply).fences@,
            ) != (Shortfall { semaphores: 0, fences: 0 }),
            result matches Err(shortfall) ==> {
                &&& shortfall == Self::shortfall(
                    views(old(surface_semaphores)@),
                    old(signal_fence)@,
                    signaled@,
                    old(supply).semaphores@,
                    old(supply).fences@,
                )
                &&& *final(self) == *old(self)
                &&& final(surface_semaphores)@ == old(surface_semaphores)@
                &&& final(signal_fence)@ == old(signal_fence)@
                &&& final(supply).semaphores@ == old(supply).semaphores@
                &&& final(supply).fences@ == old(supply).fences@
            },
            result matches Ok(submission) ==> {
                let touched = touch(
                    views(old(surface_semaphores)@),
                    signal_value,
                    old(supply).semaphores@,
                );
                let relay = old(self).relay_semaphores.current();
                let maintained = old(signal_fence)@.maintained(signaled@);
                let attached = maintained.signal(signal_value, old(supply).fences@);
                &&& views(final(surface_semaphores)@) == touched.sets
                &&& final(self).relay_semaphores == old(self).relay_semaphores.advanced()
                &&& final(self).raw == old(self).raw
                &&& final(self).family_index == old(self).family_index
                &&& final(signal_fence)@ == maintained.recorded(
                    signal_value,
                    old(supply).fences@,
                )
                &&& final(supply).semaphores@ == touched.semaphores
                &&& final(supply).fences@ == maintained.leftover(old(supply).fences@)
                &&& submission.command_buffers@ == raw_handles(command_buffers@)
                &&& submission.wait_semaphores@ == touched.wait + optional(relay.wait)
                &&& submission.wait_stage_masks@ == Seq::new(
                    submission.wait_semaphores@.len(),
                    |i: int| TOP_OF_PIPE,
                )
                &&& submission.reset_fences@ == old(signal_fence)@.recycled(signaled@)
                &&& match attached {
                    Some(FenceSignal::Semaphore(raw, value)) => {
                        &&& submission.signal_semaphores@ == touched.signal.push(
                            relay.signal,
                        ).push(raw)
                        &&& submission.signal_values matches Some(values)
                        &&& values@ == Seq::new(touched.signal.len() + 1, |i: int| NO_VALUE).push(
                            value,
                        )
                        &&& submission.fence is None
                    },
                    Some(FenceSignal::Fence(raw)) => {
                        &&& submission.signal_semaphores@ == touched.signal.push(relay.signal)
                        &&& submission.signal_values is None
                        &&& submission.fence == Some(raw)
                    },
                    None => false,
                }
            },
    {
        let ghost sets = views(surface_semaphores@);
        let ghost created = supply.semaphores@;

        // What the submission needs, before anything changes.
        let mut exhausted: usize = 0;
        let mut i: usize = 0;
        while i < surface_semaphores.len()
            invariant
                i <= surface_semaphores.len(),
                exhausted <= i,
                exhausted == exhausted_count(views(surface_semaphores@).take(i as int)),
            decreases surface_semaphores.len() - i,
        {
            proof {
                assert(views(surface_semaphores@).take(i + 1).drop_last() == views(
                    surface_semaphores@,
                ).take(i as int));
            }
            if surface_semaphores[i].exhausted() {
                exhausted += 1;
            }
            i += 1;
        }
        proof {
            assert(sets.take(sets.len() as int) == sets);
        }
        let lacks_fence = signal_fence.lacks_fence_after(signaled);
        let shortfall = Shortfall {
            semaphores: if exhausted > supply.semaphores.len() {
                exhausted - supply.semaphores.len()
            } else {
                0
            },
            fences: if lacks_fence && supply.fences.len() == 0 {
                1
            } else {
                0
            },
        };
        if shortfall.semaphores != 0 || shortfall.fences != 0 {
            return Err(shortfall);
        }
        let mut wait_stage_masks: Vec<RawPipelineStageFlags> = Vec::new();
        let mut wait_semaphores: Vec<RawSemaphore> = Vec::new();
        let mut signal_semaphores: Vec<RawSemaphore> = Vec::new();
        let mut signal_values: Vec<FenceValue> = Vec::new();

        let mut i: usize = 0;
        while i < surface_semaphores.len()
            invariant
                i <= surface_semaphores.len(),
                sets.len() == surface_semaphores.len(),
                created.len() >= exhausted_count(sets),
                forall|k: int| i <= k < sets.len() ==> views(surface_semaphores@)[k] == sets[k],
                views(surface_semaphores@).take(i as int) == touch(
                    sets.take(i as int),
                    signal_value,
                    created,
                ).sets,
                wait_semaphores@ == touch(sets.take(i as int), signal_value, created).wait,
                signal_semaphores@ == touch(sets.take(i as int), signal_value, created).signal,
                supply.semaphores@ == touch(sets.take(i as int), signal_value, created).semaphores,
                supply.fences@ == old(supply).fences@,
                supply.semaphores@.len() + exhausted_count(sets.take(i as int)) == created.len(),
                signal_semaphores@.len() == i,
                wait_stage_masks@ == Seq::new(wait_semaphores@.len(), |k: int| TOP_OF_PIPE),
                signal_values@ == Seq::new(i as nat, |k: int| NO_VALUE),
            decreases surface_semaphores.len() - i,
        {
            proof {
                assert(sets.take(i + 1).drop_last() == sets.take(i as int));
                lemma_exhausted_count_prefix(sets, i + 1);
            }
            let set = &mut surface_semaphores[i];
            set.set_used_fence_value(signal_value);

            // If we need to wait on the acquire semaphore, add it to the
            // wait list. Only the first submit that uses the image needs to
            // wait on it.
            if let Some(sem) = set.get_acquire_wait_semaphore() {
                wait_stage_masks.push(TOP_OF_PIPE);
                wait_semaphores.push(sem);
            }
            // Get the signal semaphore for this surface image and add it to
            // the signal list.

            let signal_semaphore = set.get_submit_signal_semaphore(&mut supply.semaphores);
            match signal_semaphore {
                Some(sem) => {
                    signal_semaphores.push(sem);
                    signal_values.push(NO_VALUE);
                },
                None => {
                    // The semaphores were counted before: none is missing.
                    assert(false);
                },
            }
            i += 1;
        }

        // In order for submissions to be strictly ordered, each depends on
        // the one before it through a pair of semaphores. This adds a wait
        // if it is needed, and signals the next semaphore.
        let semaphore_state = self.relay_semaphores.advance();
        if let Some(sem) = semaphore_state.wait {
            wait_stage_masks.push(TOP_OF_PIPE);
            wait_semaphores.push(sem);
        }
        signal_semaphores.push(semaphore_state.signal);
        signal_values.push(NO_VALUE);

        // The fence is signalled too: this adds it to the signal list, or
        // hands it to the submission.
        proof {
            lemma_maintained_accepts(signal_fence@, signaled@, signal_value);
        }
        let reset_fences = signal_fence.maintain(signaled);
        let attached = signal_fence.record_target(signal_value, &mut supply.fences);
        let mut fence_raw: Option<RawFence> = None;
        let mut values: Option<Vec<FenceValue>> = None;
        match attached {
            Some(FenceSignal::Semaphore(raw, value)) => {
                signal_semaphores.push(raw);
                signal_values.push(value);
                values = Some(signal_values);
            },
            Some(FenceSignal::Fence(raw)) => {
                fence_raw = Some(raw);
            },
            None => {
                // Where the pool lacked a fence, one was supplied.
                assert(false);
            },
        }

        let mut vk_cmd_buffers: Vec<RawCommandBuffer> = Vec::new();
        let mut i: usize = 0;
        while i < command_buffers.len()
            invariant
                i <= command_buffers.len(),
                vk_cmd_buffers@ == raw_handles(command_buffers@).take(i as int),
            decreases command_buffers.len() - i,
        {
            vk_cmd_buffers.push(command_buffers[i].raw);
            i += 1;
        }
        Ok(
            Submission {
                command_buffers: vk_cmd_buffers,
                wait_semaphores,
                wait_stage_masks,
                signal_semaphores,
                signal_values: values,
                fence: fence_raw,
                reset_fences,
            },
        )
    }
}

impl Queue {
    /// Prepares the present of an acquired image: the present operation
    /// waits on exactly the semaphores that submissions signalled for the
    /// image since it was presented last, and the image's set starts its
    /// next cycle.
    pub fn present(
        &self,
        swapchain: RawSwapchain,
        texture: SurfaceTexture,
        semaphores: &mut SwapchainSemaphores,
    ) -> (presentation: Presentation)
        ensures
            presentation.swapchain == swapchain,
            presentation.image_index == texture.index,
            presentation.wait_semaphores@ == old(semaphores)@.present_wait(),
            final(semaphores)@ == old(semaphores)@.after_present_wait(),
    {
        Presentation {
            swapchain,
            image_index: texture.index,
            wait_semaphores: semaphores.get_present_wait_semaphores(),
        }
    }

    /// Says how a present ended, given what the native present call
    /// returned: success, also where the call reported the swapchain as
    /// suboptimal, or the surface error that the code of the failure stands
    /// for.
    pub fn presented(result: Result<bool, vk::Result>) -> (outcome: Result<(), SurfaceError>)
        ensures
            outcome == match result {
                Ok(_) => Ok::<(), SurfaceError>(()),
                Err(error) => Err(surface_error_of(result_code(error))),
            },
    {
        match result {
            Ok(_) => Ok(()),
            Err(error) => Err(SurfaceError::from_present(error)),
        }
    }
}

/// Each submission of a queue is ordered after the one before it: the
/// semaphore that a submission signals through the relay is among those
/// that the next submission waits on, whatever else the two wait on and
/// signal.
pub proof fn lemma_submissions_are_chained(
    relay: RelaySemaphores,
    signals: Seq<RawSemaphore>,
    waits: Seq<RawSemaphore>,
)
    ensures
        signals.push(relay.current().signal).contains(relay.current().signal),
        (waits + optional(relay.advanced().current().wait)).contains(relay.current().signal),
{
    let signalled = signals.push(relay.current().signal);
    assert(signalled[signals.len() as int] == relay.current().signal);
    let waited = waits + optional(relay.advanced().current().wait);
    assert(waited[waits.len() as int] == relay.current().signal);
}

/// A prefix of a list of sets has no more exhausted sets than the list.
proof fn lemma_exhausted_count_prefix(sets: Seq<SwapchainSemaphoresView>, n: int)
    requires
        0 <= n <= sets.len(),
    ensures
        exhausted_count(sets.take(n)) <= exhausted_count(sets),
    decreases sets.len(),
{
    if n == sets.len() {
        assert(sets.take(n) == sets);
    } else {
        assert(sets.drop_last().take(n) == sets.take(n));
        lemma_exhausted_count_prefix(sets.drop_last(), n);
    }
}

} // verus!
