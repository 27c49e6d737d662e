use vulkan_sync::swapchain::{Swapchain, SwapchainSemaphores};

#[test]
fn acquire_wait_is_given_once_per_cycle() {
    let mut set = SwapchainSemaphores::new(5);
    assert_eq!(set.get_acquire_wait_semaphore(), Some(5));
    assert_eq!(set.get_acquire_wait_semaphore(), None);
    assert_eq!(set.get_acquire_wait_semaphore(), None);
    let _ = set.get_present_wait_semaphores();
    assert_eq!(set.get_acquire_wait_semaphore(), Some(5));
    assert_eq!(set.get_acquire_wait_semaphore(), None);
}

#[test]
fn acquire_wait_is_not_given_back_by_other_uses() {
    let mut set = SwapchainSemaphores::new(5);
    let mut created = vec![30];
    assert_eq!(set.get_acquire_wait_semaphore(), Some(5));
    set.set_used_fence_value(3);
    assert_eq!(set.get_submit_signal_semaphore(&mut created), Some(30));
    assert_eq!(set.get_acquire_wait_semaphore(), None);
}

#[test]
fn submit_signal_takes_a_created_semaphore_when_exhausted() {
    let mut set = SwapchainSemaphores::new(5);
    assert!(set.exhausted());
    let mut created = vec![30, 31];
    assert_eq!(set.get_submit_signal_semaphore(&mut created), Some(31));
    assert_eq!(created, vec![30]);
    assert!(set.exhausted());
    assert_eq!(set.get_submit_signal_semaphore(&mut created), Some(30));
    assert!(created.is_empty());
}

#[test]
fn submit_signal_without_a_semaphore_changes_nothing() {
    let mut set = SwapchainSemaphores::new(5);
    let mut created = Vec::new();
    assert_eq!(set.get_submit_signal_semaphore(&mut created), None);
    assert!(created.is_empty());
    assert_eq!(set.get_present_wait_semaphores(), Vec::<u64>::new());
    assert_eq!(set.destroy(), vec![5]);
}

#[test]
fn present_wait_returns_what_was_handed_out_since_the_last() {
    let mut set = SwapchainSemaphores::new(5);
    let mut created = vec![32, 31, 30];
    assert_eq!(set.get_submit_signal_semaphore(&mut created), Some(30));
    assert_eq!(set.get_submit_signal_semaphore(&mut created), Some(31));
    assert_eq!(set.get_submit_signal_semaphore(&mut created), Some(32));
    assert_eq!(set.get_present_wait_semaphores(), vec![30, 31, 32]);
    assert_eq!(set.get_present_wait_semaphores(), Vec::<u64>::new());
}

#[test]
fn present_wait_resets_the_cursor_and_the_pool_is_reused() {
    let mut set = SwapchainSemaphores::new(5);
    let mut created = vec![31, 30];
    assert_eq!(set.get_submit_signal_semaphore(&mut created), Some(30));
    assert_eq!(set.get_submit_signal_semaphore(&mut created), Some(31));
    assert_eq!(set.get_present_wait_semaphores().len(), 2);
    assert!(!set.exhausted());
    let mut none = Vec::new();
    assert_eq!(set.get_submit_signal_semaphore(&mut none), Some(30));
    assert_eq!(set.get_present_wait_semaphores(), vec![30]);
    let mut spare = vec![77];
    assert_eq!(set.get_submit_signal_semaphore(&mut spare), Some(30));
    assert_eq!(set.get_submit_signal_semaphore(&mut spare), Some(31));
    assert_eq!(spare, vec![77]);
    assert_eq!(set.get_submit_signal_semaphore(&mut spare), Some(77));
    assert_eq!(set.get_present_wait_semaphores(), vec![30, 31, 77]);
}

#[test]
fn present_wait_counts_the_signals_of_the_cycle() {
    for count in 0..6usize {
        let mut set = SwapchainSemaphores::new(1);
        let mut created: Vec<u64> = (100..100 + count as u64).collect();
        for _ in 0..count {
            assert!(set.get_submit_signal_semaphore(&mut created).is_some());
        }
        assert_eq!(set.get_present_wait_semaphores().len(), count);
        assert_eq!(set.get_present_wait_semaphores().len(), 0);
    }
}

#[test]
fn used_fence_value_is_kept() {
    let mut set = SwapchainSemaphores::new(5);
    assert_eq!(set.used_fence_value(), 0);
    set.set_used_fence_value(41);
    assert_eq!(set.used_fence_value(), 41);
    let _ = set.get_present_wait_semaphores();
    assert_eq!(set.used_fence_value(), 41);
}

#[test]
fn set_destroy_names_acquire_then_pool() {
    let mut set = SwapchainSemaphores::new(5);
    let mut created = vec![31, 30];
    let _ = set.get_submit_signal_semaphore(&mut created);
    let _ = set.get_submit_signal_semaphore(&mut created);
    assert_eq!(set.destroy(), vec![5, 30, 31]);
}

#[test]
fn swapchain_uses_its_sets_in_turn() {
    let mut swapchain = Swapchain { surface_semaphores: vec!['a', 'b', 'c'], next_semaphore_index: 0 };
    assert_eq!(*swapchain.get_surface_semaphores(), 'a');
    swapchain.advance_surface_semaphores();
    assert_eq!(*swapchain.get_surface_semaphores(), 'b');
    swapchain.advance_surface_semaphores();
    assert_eq!(swapchain.next_semaphore_index, 2);
    swapchain.advance_surface_semaphores();
    assert_eq!(swapchain.next_semaphore_index, 0);
    assert_eq!(*swapchain.get_surface_semaphores(), 'a');
}
