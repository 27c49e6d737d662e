//! What the library has of Vulkan: handles as plain numbers, and the code of
//! a native result.

use ash::vk;
use vstd::prelude::*;

verus! {

/// A `VkSemaphore`, by the number that `ash::vk::Handle::as_raw` gives.
pub type RawSemaphore = u64;

/// A `VkFence`, by the number that `ash::vk::Handle::as_raw` gives.
pub type RawFence = u64;

/// A `VkCommandBuffer`, by the number that `ash::vk::Handle::as_raw` gives.
pub type RawCommandBuffer = u64;

/// A `VkSwapchainKHR`, by the number that `ash::vk::Handle::as_raw` gives.
pub type RawSwapchain = u64;

/// A `VkImageView`, by the number that `ash::vk::Handle::as_raw` gives.
pub type RawImageView = u64;

/// A `VkRenderPass`, by the number that `ash::vk::Handle::as_raw` gives.
pub type RawRenderPass = u64;

/// A `VkFramebuffer`, by the number that `ash::vk::Handle::as_raw` gives.
pub type RawFramebuffer = u64;

/// A `VkQueue`, by the number that `ash::vk::Handle::as_raw` gives.
pub type RawQueue = u64;

/// A mask of pipeline stages, by the bits that
/// `ash::vk::PipelineStageFlags::as_raw` gives.
pub type RawPipelineStageFlags = u32;

/// `VK_PIPELINE_STAGE_TOP_OF_PIPE_BIT`, the earliest stage there is.
pub const TOP_OF_PIPE: RawPipelineStageFlags = 0x1;

/// `ash::vk::Result`, the code that a native call returns.
#[verifier::external_type_specification]
#[verifier::external_body]
pub struct ExResult(vk::Result);

/// The number that `ash::vk::Result::as_raw` returns for a native result.
pub uninterp spec fn result_code(result: vk::Result) -> i32;

/// Calls `ash::vk::Result::as_raw`, which hands out the wrapped `i32`.
#[verifier::external_body]
pub(crate) fn raw_code(result: vk::Result) -> (code: i32)
    ensures
        code == result_code(result),
{
    result.as_raw()
}

} // verus!
