//! The bounded lists of `arrayvec` that the keys hold.

use crate::description::{
    ColorAttachmentKey, FramebufferAttachment, MAX_COLOR_ATTACHMENTS, MAX_TOTAL_ATTACHMENTS,
};
use arrayvec::ArrayVec;
use vstd::prelude::*;

verus! {

/// `arrayvec::ArrayVec`, a list that holds at most `CAP` items, inline.
#[verifier::external_type_specification]
#[verifier::external_body]
#[verifier::reject_recursive_types(T)]
pub struct ExArrayVec<T, const CAP: usize>(ArrayVec<T, CAP>);

/// `ArrayVec::clone`, which the derived `Clone` of a key calls. Nothing is
/// claimed of the copy.
pub assume_specification<T, const CAP: usize>[ <ArrayVec<T, CAP> as Clone>::clone ](
    list: &ArrayVec<T, CAP>,
) -> ArrayVec<T, CAP> where T: Clone
;

/// The color attachments of a render pass.
pub type ColorAttachments = ArrayVec<Option<ColorAttachmentKey>, MAX_COLOR_ATTACHMENTS>;

/// The attachments of a framebuffer.
pub type Attachments = ArrayVec<FramebufferAttachment, MAX_TOTAL_ATTACHMENTS>;

/// The items that a list of color attachments holds, in their order.
pub uninterp spec fn colors_of(list: ColorAttachments) -> Seq<Option<ColorAttachmentKey>>;

/// The items that a list of framebuffer attachments holds, in their order.
pub uninterp spec fn attachments_of(list: Attachments) -> Seq<FramebufferAttachment>;

/// Calls `ArrayVec::new`, which returns a list without items.
#[verifier::external_body]
pub(crate) fn colors_new() -> (list: ColorAttachments)
    ensures
        colors_of(list) == Seq::<Option<ColorAttachmentKey>>::empty(),
{
    ArrayVec::new()
}

/// Calls `ArrayVec::as_slice`, which returns the items of the list as a
/// slice.
#[verifier::external_body]
pub(crate) fn colors_slice(list: &ColorAttachments) -> (items: &[Option<ColorAttachmentKey>])
    ensures
        items@ == colors_of(*list),
{
    list.as_slice()
}

/// Calls `ArrayVec::as_slice`, which returns the items of the list as a
/// slice.
#[verifier::external_body]
pub(crate) fn attachments_slice(list: &Attachments) -> (items: &[FramebufferAttachment])
    ensures
        items@ == attachments_of(*list),
{
    list.as_slice()
}

/// Indexes the list through `ArrayVec::deref_mut`, which returns the items
/// as a mutable slice: the result is item `i`, and what is written to it is
/// item `i` of the list afterwards, while the other items stay.
#[verifier::external_body]
pub(crate) fn attachment_mut(list: &mut Attachments, i: usize) -> (item: &mut FramebufferAttachment)
    requires
        i < attachments_of(*old(list)).len(),
    ensures
        *item == attachments_of(*old(list))[i as int],
        attachments_of(*final(list)) == attachments_of(*old(list)).update(i as int, *final(item)),
{
    &mut list[i]
}

} // verus!
