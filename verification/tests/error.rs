use ash::vk;
use vulkan_sync::error::{
    DeviceError, SurfaceError, ERROR_DEVICE_LOST, ERROR_OUT_OF_DATE_KHR,
    ERROR_OUT_OF_DEVICE_MEMORY, ERROR_OUT_OF_HOST_MEMORY, ERROR_SURFACE_LOST_KHR,
};
use vulkan_sync::queue::Queue;

#[test]
fn the_codes_are_those_of_the_bindings() {
    assert_eq!(ERROR_OUT_OF_HOST_MEMORY, vk::Result::ERROR_OUT_OF_HOST_MEMORY.as_raw());
    assert_eq!(ERROR_OUT_OF_DEVICE_MEMORY, vk::Result::ERROR_OUT_OF_DEVICE_MEMORY.as_raw());
    assert_eq!(ERROR_DEVICE_LOST, vk::Result::ERROR_DEVICE_LOST.as_raw());
    assert_eq!(ERROR_SURFACE_LOST_KHR, vk::Result::ERROR_SURFACE_LOST_KHR.as_raw());
    assert_eq!(ERROR_OUT_OF_DATE_KHR, vk::Result::ERROR_OUT_OF_DATE_KHR.as_raw());
}

#[test]
fn failed_allocations_are_out_of_memory() {
    assert_eq!(DeviceError::from(vk::Result::ERROR_OUT_OF_HOST_MEMORY), DeviceError::OutOfMemory);
    assert_eq!(DeviceError::from(vk::Result::ERROR_OUT_OF_DEVICE_MEMORY), DeviceError::OutOfMemory);
    assert_eq!(DeviceError::from_code(-1), DeviceError::OutOfMemory);
    assert_eq!(DeviceError::from_code(-2), DeviceError::OutOfMemory);
}

#[test]
fn a_lost_device_is_lost() {
    assert_eq!(DeviceError::from(vk::Result::ERROR_DEVICE_LOST), DeviceError::Lost);
    assert_eq!(DeviceError::from_code(-4), DeviceError::Lost);
}

#[test]
fn an_unrecognized_code_counts_as_lost() {
    assert_eq!(DeviceError::from(vk::Result::ERROR_INITIALIZATION_FAILED), DeviceError::Lost);
    assert_eq!(DeviceError::from(vk::Result::ERROR_UNKNOWN), DeviceError::Lost);
    assert_eq!(DeviceError::from(vk::Result::NOT_READY), DeviceError::Lost);
    assert_eq!(DeviceError::from(vk::Result::from_raw(12345)), DeviceError::Lost);
    assert_eq!(DeviceError::from_code(i32::MIN), DeviceError::Lost);
    assert_eq!(DeviceError::from_code(0), DeviceError::Lost);
}

#[test]
fn recognizes_tells_the_codes_with_an_error_of_their_own() {
    assert!(DeviceError::recognizes(-1));
    assert!(DeviceError::recognizes(-2));
    assert!(DeviceError::recognizes(-4));
    assert!(!DeviceError::recognizes(-3));
    assert!(!DeviceError::recognizes(0));
    assert!(!DeviceError::recognizes(ERROR_OUT_OF_DATE_KHR));
}

#[test]
fn present_failures_map_to_surface_errors() {
    assert_eq!(
        SurfaceError::from_present(vk::Result::ERROR_OUT_OF_DATE_KHR),
        SurfaceError::Outdated
    );
    assert_eq!(SurfaceError::from_present(vk::Result::ERROR_SURFACE_LOST_KHR), SurfaceError::Lost);
    assert_eq!(
        SurfaceError::from_present(vk::Result::ERROR_DEVICE_LOST),
        SurfaceError::Device(DeviceError::Lost)
    );
    assert_eq!(
        SurfaceError::from_present(vk::Result::ERROR_OUT_OF_HOST_MEMORY),
        SurfaceError::Device(DeviceError::OutOfMemory)
    );
    assert_eq!(
        SurfaceError::from_present(vk::Result::ERROR_FORMAT_NOT_SUPPORTED),
        SurfaceError::Device(DeviceError::Lost)
    );
    assert_eq!(SurfaceError::from_code(-1_000_001_004), SurfaceError::Outdated);
    assert_eq!(SurfaceError::from_code(-1_000_000_000), SurfaceError::Lost);
    assert_eq!(SurfaceError::from_code(-2), SurfaceError::Device(DeviceError::OutOfMemory));
}

#[test]
fn a_device_error_becomes_a_surface_error() {
    assert_eq!(SurfaceError::from(DeviceError::Lost), SurfaceError::Device(DeviceError::Lost));
    let error: SurfaceError = DeviceError::OutOfMemory.into();
    assert_eq!(error, SurfaceError::Device(DeviceError::OutOfMemory));
}

#[test]
fn presented_takes_a_suboptimal_present_for_success() {
    assert_eq!(Queue::presented(Ok(false)), Ok(()));
    assert_eq!(Queue::presented(Ok(true)), Ok(()));
}

#[test]
fn presented_classifies_a_failed_present() {
    assert_eq!(
        Queue::presented(Err(vk::Result::ERROR_OUT_OF_DATE_KHR)),
        Err(SurfaceError::Outdated)
    );
    assert_eq!(Queue::presented(Err(vk::Result::ERROR_SURFACE_LOST_KHR)), Err(SurfaceError::Lost));
    assert_eq!(
        Queue::presented(Err(vk::Result::ERROR_OUT_OF_DEVICE_MEMORY)),
        Err(SurfaceError::Device(DeviceError::OutOfMemory))
    );
    assert_eq!(
        Queue::presented(Err(vk::Result::ERROR_DEVICE_LOST)),
        Err(SurfaceError::Device(DeviceError::Lost))
    );
}
