//! Synchronization and resource-caching core of a Vulkan backend.
//!
//! The crate holds the decisions of the backend's submission path and none
//! of its device calls: every function takes what the device reported as
//! plain values and returns what has to be handed to the device next.

use vstd::prelude::*;

pub mod cache;
pub mod description;
pub mod device;
pub mod error;
pub mod fence;
pub mod lists;
pub mod native;
pub mod queue;
pub mod relay;
pub mod swapchain;
pub mod temp;

verus! {

/// The tag by which the Vulkan backend is selected.
#[derive(Clone, Debug)]
pub struct Api;

} // verus!
