//! The structural keys under which render passes and framebuffers are
//! cached.

use crate::lists::{
    attachment_mut, attachments_of, attachments_slice, colors_new, colors_of, colors_slice,
    Attachments, ColorAttachments,
};
use crate::native::RawImageView;
use vstd::prelude::*;
use vstd::std_specs::cmp::PartialEqSpecImpl;

verus! {

/// The most color attachments that a render pass can have.
pub const MAX_COLOR_ATTACHMENTS: usize = 8;

/// The most attachments that a framebuffer can have: each color attachment
/// with its resolve target, and depth-stencil.
pub const MAX_TOTAL_ATTACHMENTS: usize = MAX_COLOR_ATTACHMENTS * 2 + 1;

/// A `VkFormat`, by the number that `ash::vk::Format::as_raw` gives.
pub type RawFormat = i32;

/// A `VkImageLayout`, by the number that `ash::vk::ImageLayout::as_raw`
/// gives.
pub type RawImageLayout = i32;

/// `VkImageCreateFlags`, by the bits that `ash::vk::ImageCreateFlags::as_raw`
/// gives.
pub type RawImageCreateFlags = u32;

/// What happens to an attachment at the start and at the end of a pass.
#[derive(Clone, Copy, Debug, PartialEq, Eq, Structural, Hash)]
pub struct AttachmentOps {
    pub bits: u8,
}

impl AttachmentOps {
    /// The attachment is loaded at the start of the pass.
    pub fn load() -> (ops: AttachmentOps)
        ensures
            ops.bits == 1,
    {
        AttachmentOps { bits: 1 }
    }

    /// The attachment is stored at the end of the pass.
    pub fn store() -> (ops: AttachmentOps)
        ensures
            ops.bits == 2,
    {
        AttachmentOps { bits: 2 }
    }

    /// Both operations.
    pub fn all() -> (ops: AttachmentOps)
        ensures
            ops.bits == 3,
    {
        AttachmentOps { bits: 3 }
    }
}

/// One attachment of a render pass.
#[derive(Clone, Copy, Debug, PartialEq, Eq, Structural, Hash)]
pub struct AttachmentKey {
    pub format: RawFormat,
    pub layout: RawImageLayout,
    pub ops: AttachmentOps,
}

impl AttachmentKey {
    /// Returns an attachment key for a compatible attachment.
    pub fn compatible(format: RawFormat, layout: RawImageLayout) -> (key: AttachmentKey)
        ensures
            key == (AttachmentKey { format, layout, ops: AttachmentOps { bits: 3 } }),
    {
        AttachmentKey { format, layout, ops: AttachmentOps::all() }
    }
}

/// A color attachment of a render pass, with its resolve target.
#[derive(Clone, Copy, Debug, PartialEq, Eq, Structural, Hash)]
pub struct ColorAttachmentKey {
    pub base: AttachmentKey,
    pub resolve: Option<AttachmentKey>,
}

/// The depth-stencil attachment of a render pass.
#[derive(Clone, Copy, Debug, PartialEq, Eq, Structural, Hash)]
pub struct DepthStencilAttachmentKey {
    pub base: AttachmentKey,
    pub stencil_ops: AttachmentOps,
}

/// A key of a description cache: a value that stands for a native object by
/// its structure, so that equal keys stand for interchangeable objects.
pub trait DescriptionKey: View + Sized {
    /// Whether two keys are structurally equal.
    fn matches(&self, other: &Self) -> (same: bool)
        ensures
            same == (self@ == other@),
    ;
}

/// The key of a render pass: its attachments with their formats, layouts and
/// operations, the sample count and the multiview count.
#[derive(Clone, Debug)]
pub struct RenderPassKey {
    pub colors: ColorAttachments,
    pub depth_stencil: Option<DepthStencilAttachmentKey>,
    pub sample_count: u32,
    /// The number of views, where the pass renders to several at once.
    pub multiview: Option<u32>,
}

/// The mathematical content of a [`RenderPassKey`].
pub struct RenderPassKeyView {
    pub colors: Seq<Option<ColorAttachmentKey>>,
    pub depth_stencil: Option<DepthStencilAttachmentKey>,
    pub sample_count: u32,
    pub multiview: Option<u32>,
}

impl View for RenderPassKey {
    type V = RenderPassKeyView;

    open spec fn view(&self) -> RenderPassKeyView {
        RenderPassKeyView {
            colors: colors_of(self.colors),
            depth_stencil: self.depth_stencil,
            sample_count: self.sample_count,
            multiview: self.multiview,
        }
    }
}

impl Default for RenderPassKey {
    /// The key of a pass without attachments.
    fn default() -> (key: RenderPassKey)
        ensures
            key@ == (RenderPassKeyView {
                colors: Seq::empty(),
                depth_stencil: None,
                sample_count: 0,
                multiview: None,
            }),
    {
        RenderPassKey {
            colors: colors_new(),
            depth_stencil: None,
            sample_count: 0,
            multiview: None,
        }
    }
}

impl DescriptionKey for RenderPassKey {
    fn matches(&self, other: &Self) -> (same: bool) {
        let colors = colors_slice(&self.colors);
        let others = colors_slice(&other.colors);
        if colors.len() != others.len() || self.depth_stencil != other.depth_stencil
            || self.sample_count != other.sample_count || self.multiview != other.multiview {
            return false;
        }
        let mut i: usize = 0;
        while i < colors.len()
            invariant
                i <= colors.len(),
                colors.len() == others.len(),
                colors@ == colors_of(self.colors),
                others@ == colors_of(other.colors),
                forall|k: int| 0 <= k < i ==> colors@[k] == others@[k],
            decreases colors.len() - i,
        {
            if colors[i] != others[i] {
                return false;
            }
            i += 1;
        }
        proof {
            assert(colors@ =~= others@);
        }
        true
    }
}

impl PartialEq for RenderPassKey {
    fn eq(&self, other: &Self) -> (same: bool) {
        self.matches(other)
    }
}

impl PartialEqSpecImpl for RenderPassKey {
    open spec fn obeys_eq_spec() -> bool {
        true
    }

    open spec fn eq_spec(&self, other: &Self) -> bool {
        self@ == other@
    }
}

/// The uses of a texture view, as a set of bits.
#[derive(Clone, Copy, Debug, PartialEq, Eq, Structural, Hash)]
pub struct TextureUses {
    pub bits: u16,
}

/// The format of a texture view, by its number.
#[derive(Clone, Copy, Debug, PartialEq, Eq, Structural, Hash)]
pub struct TextureFormat {
    pub code: u32,
}

/// The extent of a framebuffer.
#[derive(Clone, Copy, Debug, PartialEq, Eq, Structural, Hash)]
pub struct Extent3d {
    pub width: u32,
    pub height: u32,
    pub depth_or_array_layers: u32,
}

/// One attachment of a framebuffer.
#[derive(Clone, Debug)]
pub struct FramebufferAttachment {
    /// The view. It is null (0) where the framebuffer is image-less.
    pub raw: RawImageView,
    pub raw_image_flags: RawImageCreateFlags,
    pub view_usage: TextureUses,
    pub view_format: TextureFormat,
    pub raw_view_formats: Vec<RawFormat>,
}

/// The mathematical content of a [`FramebufferAttachment`].
pub struct FramebufferAttachmentView {
    pub raw: RawImageView,
    pub raw_image_flags: RawImageCreateFlags,
    pub view_usage: TextureUses,
    pub view_format: TextureFormat,
    pub raw_view_formats: Seq<RawFormat>,
}

impl View for FramebufferAttachment {
    type V = FramebufferAttachmentView;

    open spec fn view(&self) -> FramebufferAttachmentView {
        FramebufferAttachmentView {
            raw: self.raw,
            raw_image_flags: self.raw_image_flags,
            view_usage: self.view_usage,
            view_format: self.view_format,
            raw_view_formats: self.raw_view_formats@,
        }
    }
}

impl DescriptionKey for FramebufferAttachment {
    fn matches(&self, other: &Self) -> (same: bool) {
        if self.raw != other.raw || self.raw_image_flags != other.raw_image_flags
            || self.view_usage != other.view_usage || self.view_format != other.view_format
            || self.raw_view_formats.len() != other.raw_view_formats.len() {
            return false;
        }
        let mut i: usize = 0;
        while i < self.raw_view_formats.len()
            invariant
                i <= self.raw_view_formats.len(),
                self.raw_view_formats.len() == other.raw_view_formats.len(),
                forall|k: int|
                    0 <= k < i ==> self.raw_view_formats@[k] == other.raw_view_formats@[k],
            decreases self.raw_view_formats.len() - i,
        {
            if self.raw_view_formats[i] != other.raw_view_formats[i] {
                return false;
            }
            i += 1;
        }
        proof {
            assert(self.raw_view_formats@ =~= other.raw_view_formats@);
        }
        true
    }
}

impl PartialEq for FramebufferAttachment {
    fn eq(&self, other: &Self) -> (same: bool) {
        self.matches(other)
    }
}

impl PartialEqSpecImpl for FramebufferAttachment {
    open spec fn obeys_eq_spec() -> bool {
        true
    }

    open spec fn eq_spec(&self, other: &Self) -> bool {
        self@ == other@
    }
}

/// The key of a framebuffer: its attachments, its extent and the sample
/// count.
#[derive(Clone, Debug)]
pub struct FramebufferKey {
    pub attachments: Attachments,
    pub extent: Extent3d,
    pub sample_count: u32,
}

/// The mathematical content of a [`FramebufferKey`].
pub struct FramebufferKeyView {
    pub attachments: Seq<FramebufferAttachmentView>,
    pub extent: Extent3d,
    pub sample_count: u32,
}

/// The contents of a list of attachments.
pub open spec fn attachment_views(attachments: Seq<FramebufferAttachment>) -> Seq<
    FramebufferAttachmentView,
> {
    Seq::new(attachments.len(), |i: int| attachments[i]@)
}

impl View for FramebufferKey {
    type V = FramebufferKeyView;

    open spec fn view(&self) -> FramebufferKeyView {
        FramebufferKeyView {
            attachments: attachment_views(attachments_of(self.attachments)),
            extent: self.extent,
            sample_count: self.sample_count,
        }
    }
}

impl FramebufferKeyView {
    /// Whether one of the attachments is the view `view`.
    pub open spec fn references(self, view: RawImageView) -> bool {
        exists|i: int| 0 <= i < self.attachments.len() && self.attachments[i].raw == view
    }

    /// The key without the identities of its views, as it is used where
    /// framebuffers are image-less.
    pub open spec fn without_views(self) -> FramebufferKeyView {
        FramebufferKeyView {
            attachments: Seq::new(
                self.attachments.len(),
                |i: int| FramebufferAttachmentView { raw: 0, ..self.attachments[i] },
            ),
            ..self
        }
    }
}

impl DescriptionKey for FramebufferKey {
    fn matches(&self, other: &Self) -> (same: bool) {
        let attachments = attachments_slice(&self.attachments);
        let others = attachments_slice(&other.attachments);
        if attachments.len() != others.len() || self.extent != other.extent || self.sample_count
            != other.sample_count {
            assert(other@.attachments.len() == others.len());
            return false;
        }
        let mut i: usize = 0;
        while i < attachments.len()
            invariant
                i <= attachments.len(),
                attachments.len() == others.len(),
                attachments@ == attachments_of(self.attachments),
                others@ == attachments_of(other.attachments),
                forall|k: int| 0 <= k < i ==> attachments@[k]@ == others@[k]@,
            decreases attachments.len() - i,
        {
            if !attachments[i].matches(&others[i]) {
                assert(self@.attachments[i as int] != other@.attachments[i as int]);
                return false;
            }
            i += 1;
        }
        proof {
            assert(self@.attachments =~= other@.attachments);
        }
        true
    }
}

impl PartialEq for FramebufferKey {
    fn eq(&self, other: &Self) -> (same: bool) {
        self.matches(other)
    }
}

impl PartialEqSpecImpl for FramebufferKey {
    open spec fn obeys_eq_spec() -> bool {
        true
    }

    open spec fn eq_spec(&self, other: &Self) -> bool {
        self@ == other@
    }
}

impl FramebufferKey {
    /// Whether one of the attachments is the view `view`.
    pub fn references(&self, view: RawImageView) -> (found: bool)
        ensures
            found == self@.references(view),
    {
        let attachments = attachments_slice(&self.attachments);
        let mut i: usize = 0;
        while i < attachments.len()
            invariant
                i <= attachments.len(),
                attachments@ == attachments_of(self.attachments),
                forall|k: int| 0 <= k < i ==> self@.attachments[k].raw != view,
            decreases attachments.len() - i,
        {
            if attachments[i].raw == view {
                assert(self@.attachments[i as int].raw == view);
                return true;
            }
            i += 1;
        }
        false
    }

    /// How many attachments the key has.
    fn count(&self) -> (count: usize)
        ensures
            count == self@.attachments.len(),
    {
        attachments_slice(&self.attachments).len()
    }

    /// Takes the identities of the views out of the key. Where framebuffers
    /// are image-less, a framebuffer is bound to no view, and its key has to
    /// say nothing of them.
    pub fn without_views(self) -> (key: FramebufferKey)
        ensures
            key@ == self@.without_views(),
    {
        let mut key = self;
        let ghost before = key@;
        let count = key.count();
        let mut i: usize = 0;
        while i < count
            invariant
                i <= count,
                count == before.attachments.len(),
                key@.attachments.len() == count,
                key.extent == before.extent,
                key.sample_count == before.sample_count,
                forall|k: int|
                    0 <= k < count ==> key@.attachments[k] == (if k < i {
                        FramebufferAttachmentView { raw: 0, ..before.attachments[k] }
                    } else {
                        before.attachments[k]
                    }),
            decreases count - i,
        {
            let ghost entry = key@;
            let ghost list = attachments_of(key.attachments);
            let attachment = attachment_mut(&mut key.attachments, i);
            attachment.raw = 0;
            proof {
                assert forall|k: int| 0 <= k < count implies key@.attachments[k] == (if k <= i {
                    FramebufferAttachmentView { raw: 0, ..before.attachments[k] }
                } else {
                    before.attachments[k]
                }) by {
                    if k != i {
                        assert(entry.attachments[k] == list[k]@);
                    }
                }
            }
            i += 1;
        }
        proof {
            assert(key@.attachments =~= before.without_views().attachments);
        }
        key
    }
}

} // verus!
