use vulkan_sync::fence::{Fence, FenceProbe, FenceReading, FenceSignal};

fn pool(last_completed: u64, active: &[(u64, u64)], free: &[u64]) -> Fence {
    Fence::FencePool { last_completed, active: active.to_vec(), free: free.to_vec() }
}

fn parts(fence: &Fence) -> (u64, Vec<(u64, u64)>, Vec<u64>) {
    match fence {
        Fence::FencePool { last_completed, active, free } => {
            (*last_completed, active.clone(), free.clone())
        }
        Fence::TimelineSemaphore(_) => panic!("a pool was expected"),
    }
}

#[test]
fn check_active_returns_the_highest_signalled_value() {
    let active = vec![(3, 30), (5, 50), (8, 80)];
    assert_eq!(Fence::check_active(1, &active, &vec![false, false, false]), 1);
    assert_eq!(Fence::check_active(1, &active, &vec![true, false, false]), 3);
    assert_eq!(Fence::check_active(1, &active, &vec![true, true, false]), 5);
    assert_eq!(Fence::check_active(1, &active, &vec![false, true, false]), 5);
    assert_eq!(Fence::check_active(1, &active, &vec![false, false, true]), 8);
    assert_eq!(Fence::check_active(1, &active, &vec![true, true, true]), 8);
}

#[test]
fn check_active_is_floored_at_last_completed() {
    let active = vec![(3, 30), (5, 50)];
    assert_eq!(Fence::check_active(4, &active, &vec![true, false]), 4);
    assert_eq!(Fence::check_active(9, &active, &vec![true, true]), 9);
    assert_eq!(Fence::check_active(7, &Vec::new(), &Vec::new()), 7);
}

#[test]
fn check_active_counts_a_missing_state_as_not_seen() {
    let active = vec![(3, 30), (5, 50)];
    assert_eq!(Fence::check_active(0, &active, &vec![true]), 3);
    assert_eq!(Fence::check_active(0, &active, &Vec::new()), 0);
    assert_eq!(Fence::check_active(0, &active, &vec![false, true, true]), 5);
}

#[test]
fn probe_asks_for_the_fences_above_last_completed() {
    let fence = pool(4, &[(3, 30), (5, 50), (8, 80)], &[]);
    match fence.probe() {
        FenceProbe::Fences(fences) => assert_eq!(fences, vec![None, Some(50), Some(80)]),
        FenceProbe::Counter(_) => panic!("a pool asks for fences"),
    }
    match Fence::TimelineSemaphore(9).probe() {
        FenceProbe::Counter(raw) => assert_eq!(raw, 9),
        FenceProbe::Fences(_) => panic!("a timeline semaphore asks for its counter"),
    }
}

#[test]
fn get_latest_of_a_timeline_semaphore_is_its_counter() {
    let fence = Fence::TimelineSemaphore(9);
    assert_eq!(fence.get_latest(&FenceReading::Counter(0)), Some(0));
    assert_eq!(fence.get_latest(&FenceReading::Counter(17)), Some(17));
    assert_eq!(fence.get_latest(&FenceReading::Signaled(vec![true])), None);
}

#[test]
fn get_latest_of_a_pool_goes_by_the_fence_states() {
    let fence = pool(2, &[(3, 30), (5, 50)], &[60]);
    assert_eq!(fence.get_latest(&FenceReading::Signaled(vec![false, false])), Some(2));
    assert_eq!(fence.get_latest(&FenceReading::Signaled(vec![true, false])), Some(3));
    assert_eq!(fence.get_latest(&FenceReading::Signaled(vec![true, true])), Some(5));
    assert_eq!(fence.get_latest(&FenceReading::Counter(5)), None);
}

#[test]
fn latest_value_does_not_decrease_over_submissions() {
    let mut fence = pool(0, &[], &[]);
    let mut created: Vec<u64> = (100..110).rev().collect();
    let mut reached = 0;
    let mut done = 0usize;
    for target in 1..=8u64 {
        let _ = fence.maintain(&vec![true; done]);
        assert_eq!(
            fence.record_target(target, &mut created).map(|s| matches!(s, FenceSignal::Fence(_))),
            Some(true)
        );
        let (_, active, _) = parts(&fence);
        // the device has finished every second submission by now
        done = active.len() / 2;
        let mut signaled = vec![true; done];
        signaled.resize(active.len(), false);
        let latest = fence.get_latest(&FenceReading::Signaled(signaled)).unwrap();
        assert!(latest >= reached);
        reached = latest;
    }
    let (_, active, _) = parts(&fence);
    let latest = fence.get_latest(&FenceReading::Signaled(vec![true; active.len()]));
    assert_eq!(latest, Some(8));
}

#[test]
fn latest_value_reaches_a_target_when_its_fence_is_signalled() {
    let mut fence = pool(0, &[], &[]);
    let mut created = vec![72, 71, 70];
    for target in [4u64, 6, 9] {
        assert!(fence.accepts(target));
        assert!(fence.record_target(target, &mut created).is_some());
    }
    assert_eq!(fence.get_latest(&FenceReading::Signaled(vec![true, false, false])), Some(4));
    assert_eq!(fence.get_latest(&FenceReading::Signaled(vec![true, true, false])), Some(6));
    assert_eq!(fence.get_latest(&FenceReading::Signaled(vec![true, true, true])), Some(9));
}

#[test]
fn maintain_recycles_what_the_reached_value_covers() {
    let mut fence = pool(1, &[(3, 30), (5, 50), (8, 80)], &[10]);
    let reset = fence.maintain(&vec![false, true, false]);
    assert_eq!(reset, vec![30, 50]);
    assert_eq!(parts(&fence), (5, vec![(8, 80)], vec![10, 30, 50]));
}

#[test]
fn maintain_without_a_signalled_fence_recycles_nothing() {
    let mut fence = pool(1, &[(3, 30), (5, 50)], &[10]);
    let reset = fence.maintain(&vec![false, false]);
    assert!(reset.is_empty());
    assert_eq!(parts(&fence), (1, vec![(3, 30), (5, 50)], vec![10]));
}

#[test]
fn maintain_takes_out_the_fences_at_or_below_last_completed() {
    let mut fence = pool(4, &[(3, 30), (5, 50)], &[]);
    let reset = fence.maintain(&vec![false, false]);
    assert_eq!(reset, vec![30]);
    assert_eq!(parts(&fence), (4, vec![(5, 50)], vec![30]));
}

#[test]
fn maintain_twice_changes_nothing_the_second_time() {
    let mut fence = pool(1, &[(3, 30), (5, 50), (8, 80), (9, 90)], &[10]);
    let first = fence.maintain(&vec![true, true, false, false]);
    assert_eq!(first, vec![30, 50]);
    let after_first = parts(&fence);
    // the device reports the two fences that are left as before
    let second = fence.maintain(&vec![false, false]);
    assert!(second.is_empty());
    assert_eq!(parts(&fence), after_first);
}

#[test]
fn maintain_sees_a_fence_that_was_signalled_in_between() {
    let mut fence = pool(0, &[(1, 11)], &[]);
    assert!(fence.maintain(&vec![false]).is_empty());
    assert_eq!(fence.maintain(&vec![true]), vec![11]);
    assert_eq!(parts(&fence), (1, vec![], vec![11]));
}

#[test]
fn maintain_leaves_a_timeline_semaphore_alone() {
    let mut fence = Fence::TimelineSemaphore(9);
    assert!(fence.maintain(&vec![true, true]).is_empty());
    assert!(matches!(fence, Fence::TimelineSemaphore(9)));
    assert!(!fence.lacks_fence_after(&Vec::new()));
}

#[test]
fn record_target_takes_the_fence_freed_last() {
    let mut fence = pool(1, &[(3, 30)], &[10, 20]);
    let mut created = vec![99];
    assert_eq!(fence.record_target(4, &mut created), Some(FenceSignal::Fence(20)));
    assert_eq!(created, vec![99]);
    assert_eq!(parts(&fence), (1, vec![(3, 30), (4, 20)], vec![10]));
}

#[test]
fn record_target_takes_a_created_fence_where_none_is_free() {
    let mut fence = pool(1, &[], &[]);
    let mut created = vec![98, 99];
    assert_eq!(fence.record_target(4, &mut created), Some(FenceSignal::Fence(99)));
    assert_eq!(created, vec![98]);
    assert_eq!(parts(&fence), (1, vec![(4, 99)], vec![]));
}

#[test]
fn record_target_without_a_fence_changes_nothing() {
    let mut fence = pool(1, &[(3, 30)], &[]);
    let mut created = Vec::new();
    assert_eq!(fence.record_target(4, &mut created), None);
    assert_eq!(parts(&fence), (1, vec![(3, 30)], vec![]));
}

#[test]
fn record_target_on_a_timeline_semaphore_signals_the_value() {
    let mut fence = Fence::TimelineSemaphore(9);
    let mut created = vec![99];
    assert_eq!(fence.record_target(4, &mut created), Some(FenceSignal::Semaphore(9, 4)));
    assert_eq!(created, vec![99]);
}

#[test]
fn accepts_wants_a_value_above_all_seen() {
    let fence = pool(2, &[(3, 30), (5, 50)], &[]);
    assert!(fence.accepts(6));
    assert!(!fence.accepts(5));
    assert!(!fence.accepts(4));
    assert!(!pool(7, &[], &[]).accepts(7));
    assert!(pool(7, &[], &[]).accepts(8));
    assert!(Fence::TimelineSemaphore(1).accepts(0));
}

#[test]
fn lacks_fence_after_looks_past_the_maintenance() {
    let fence = pool(1, &[(3, 30)], &[]);
    assert!(fence.lacks_fence_after(&vec![false]));
    assert!(!fence.lacks_fence_after(&vec![true]));
    assert!(!pool(1, &[(3, 30)], &[10]).lacks_fence_after(&vec![false]));
    assert!(pool(1, &[], &[]).lacks_fence_after(&Vec::new()));
}
