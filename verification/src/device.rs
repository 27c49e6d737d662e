//! What a device owns of the caches: render passes for its lifetime,
//! framebuffers until one of their views goes.

use crate::cache::{bound_to, clear_of, injective, DescriptionCache};
use crate::description::{FramebufferKey, RenderPassKey};
use crate::native::{RawFramebuffer, RawImageView};
use vstd::prelude::*;

verus! {

/// The state that the objects of one device share.
pub struct DeviceShared {
    /// Whether the device supports image-less framebuffers. Where it does,
    /// the key of a framebuffer says nothing of its views.
    pub imageless_framebuffers: bool,
    /// The render passes. They are kept as long as the device.
    pub render_passes: DescriptionCache<RenderPassKey>,
    /// The framebuffers.
    pub framebuffers: DescriptionCache<FramebufferKey>,
}

impl DeviceShared {
    /// The state of a new device: both caches are empty.
    pub fn new(imageless_framebuffers: bool) -> (shared: DeviceShared)
        ensures
            shared.imageless_framebuffers == imageless_framebuffers,
            shared.render_passes@ == Map::<crate::description::RenderPassKeyView, u64>::empty(),
            shared.framebuffers@ == Map::<crate::description::FramebufferKeyView, u64>::empty(),
    {
        DeviceShared {
            imageless_framebuffers,
            render_passes: DescriptionCache::new(),
            framebuffers: DescriptionCache::new(),
        }
    }

    /// The key under which this device caches a framebuffer with the given
    /// description: the description itself, or, where framebuffers are
    /// image-less, the description without the identities of its views.
    pub fn framebuffer_key(&self, key: FramebufferKey) -> (cached: FramebufferKey)
        ensures
            cached@ == if self.imageless_framebuffers {
                key@.without_views()
            } else {
                key@
            },
    {
        if self.imageless_framebuffers {
            key.without_views()
        } else {
            key
        }
    }

    /// Notes that the view `view` is about to be destroyed: every
    /// framebuffer that has it among its attachments leaves the cache, and
    /// is returned for the device to destroy. Where framebuffers are
    /// image-less none is bound to a view, and nothing changes.
    pub fn evict_view(&mut self, view: RawImageView) -> (evicted: Vec<RawFramebuffer>)
        ensures
            final(self).imageless_framebuffers == old(self).imageless_framebuffers,
            final(self).render_passes@ == old(self).render_passes@,
            old(self).imageless_framebuffers ==> {
                &&& final(self).framebuffers@ == old(self).framebuffers@
                &&& evicted@ == Seq::<RawFramebuffer>::empty()
            },
            !old(self).imageless_framebuffers ==> {
                &&& final(self).framebuffers@ == old(self).framebuffers@.restrict(clear_of(view))
                &&& forall|raw: RawFramebuffer|
                    evicted@.contains(raw) <==> bound_to(old(self).framebuffers@, view, raw)
                &&& injective(old(self).framebuffers@) ==> evicted@.no_duplicates()
            },
    {
        if self.imageless_framebuffers {
            Vec::new()
        } else {
            self.framebuffers.evict(view)
        }
    }
}

} // verus!
