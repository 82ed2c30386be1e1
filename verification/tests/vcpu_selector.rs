use libos_runtime::bitmask::BitMask;
use libos_runtime::vcpu_selector::{RoundRobin, SchedState, VcpuSelector};

fn affinity(num_vcpus: usize, allowed: &[usize]) -> BitMask {
    let mut mask = BitMask::new_empty(num_vcpus);
    for vcpu in allowed {
        mask.set(*vcpu, true);
    }
    mask
}

fn all_asleep(num_vcpus: u32) -> VcpuSelector {
    let mut selector = VcpuSelector::new(num_vcpus);
    for vcpu in 0..num_vcpus {
        selector.notify_sleep_status(vcpu, true);
    }
    selector
}

#[test]
fn this_vcpu_comes_first_if_it_is_idle() {
    let mut selector = VcpuSelector::new(4);
    for vcpu in [1, 2, 3] {
        selector.notify_idle_status(vcpu, true);
    }
    let state = SchedState { affinity: BitMask::new_full(4), vcpu: Some(2) };
    let mut turns = RoundRobin::new();
    assert_eq!(selector.select_vcpu(&state, Some(3), &mut turns), 3);
    // this vCPU is not idle: the last one is
    assert_eq!(selector.select_vcpu(&state, Some(0), &mut turns), 2);
    assert_eq!(selector.select_vcpu(&state, None, &mut turns), 2);
}

#[test]
fn any_idle_vcpu_comes_before_a_busy_last_one() {
    let mut selector = VcpuSelector::new(4);
    selector.notify_idle_status(3, true);
    selector.notify_idle_status(1, true);
    let state = SchedState { affinity: BitMask::new_full(4), vcpu: Some(2) };
    let mut turns = RoundRobin::new();
    assert_eq!(selector.select_vcpu(&state, Some(0), &mut turns), 1);
    selector.notify_idle_status(1, false);
    assert_eq!(selector.select_vcpu(&state, Some(0), &mut turns), 3);
    selector.notify_idle_status(3, false);
    assert_eq!(selector.select_vcpu(&state, Some(0), &mut turns), 2);
}

#[test]
fn an_active_vcpu_comes_before_a_sleeping_one() {
    let mut selector = VcpuSelector::new(4);
    selector.notify_sleep_status(0, true);
    selector.notify_sleep_status(2, true);
    let state = SchedState { affinity: BitMask::new_full(4), vcpu: Some(2) };
    let mut turns = RoundRobin::new();
    assert_eq!(selector.select_vcpu(&state, None, &mut turns), 1);
    // this vCPU, though active, has no precedence where it is not idle
    assert_eq!(selector.select_vcpu(&state, Some(3), &mut turns), 1);
    selector.notify_sleep_status(2, false);
    assert_eq!(selector.select_vcpu(&state, None, &mut turns), 2);
}

#[test]
fn the_last_vcpu_is_kept_where_all_sleep() {
    let selector = all_asleep(4);
    let state = SchedState { affinity: BitMask::new_full(4), vcpu: Some(2) };
    let mut turns = RoundRobin::new();
    assert_eq!(selector.select_vcpu(&state, Some(1), &mut turns), 2);
    assert_eq!(selector.select_vcpu(&state, Some(1), &mut turns), 2);
}

#[test]
fn affinity_is_respected_by_every_rule() {
    let mut selector = VcpuSelector::new(4);
    for vcpu in 0..4 {
        selector.notify_idle_status(vcpu, true);
    }
    let mut turns = RoundRobin::new();
    let state = SchedState { affinity: affinity(4, &[1]), vcpu: Some(2) };
    assert_eq!(selector.select_vcpu(&state, Some(3), &mut turns), 1);
    for vcpu in 0..4 {
        selector.notify_idle_status(vcpu, false);
    }
    assert_eq!(selector.select_vcpu(&state, Some(3), &mut turns), 1);
    selector.notify_sleep_status(1, true);
    assert_eq!(selector.select_vcpu(&state, Some(3), &mut turns), 1);
}

#[test]
fn vcpus_take_turns_where_nothing_else_decides() {
    let selector = all_asleep(4);
    let state = SchedState { affinity: affinity(4, &[0, 2, 3]), vcpu: None };
    let mut turns = RoundRobin::new();
    let picks: Vec<u32> =
        (0..7).map(|_| selector.select_vcpu(&state, None, &mut turns)).collect();
    assert_eq!(picks, vec![0, 2, 3, 0, 2, 3, 0]);
}

#[test]
fn the_turn_counter_is_shared_and_moves_only_when_used() {
    let asleep = all_asleep(3);
    let awake = VcpuSelector::new(3);
    let first_time = SchedState { affinity: BitMask::new_full(3), vcpu: None };
    let mut turns = RoundRobin::new();
    assert_eq!(asleep.select_vcpu(&first_time, None, &mut turns), 0);
    assert_eq!(awake.select_vcpu(&first_time, None, &mut turns), 0);
    assert_eq!(awake.select_vcpu(&first_time, None, &mut turns), 0);
    assert_eq!(asleep.select_vcpu(&first_time, None, &mut turns), 1);
    assert_eq!(turns.pick(3, &first_time.affinity), 2);
    assert_eq!(turns.pick(2, &first_time.affinity), 1);
}

#[test]
fn a_last_vcpu_outside_the_affinity_does_not_count() {
    let selector = all_asleep(2);
    let state = SchedState { affinity: affinity(2, &[0]), vcpu: Some(1) };
    let mut turns = RoundRobin::new();
    assert_eq!(selector.select_vcpu(&state, Some(1), &mut turns), 0);
}

#[test]
fn the_current_vcpu_comes_before_turns() {
    let selector = all_asleep(2);
    let state = SchedState { affinity: BitMask::new_full(2), vcpu: None };
    let mut turns = RoundRobin::new();
    assert_eq!(selector.select_vcpu(&state, Some(1), &mut turns), 1);
    assert_eq!(selector.select_vcpu(&state, Some(1), &mut turns), 1);
    // the counter has not moved
    assert_eq!(selector.select_vcpu(&state, None, &mut turns), 0);
    // the last vCPU comes before the current one
    let state = SchedState { affinity: BitMask::new_full(2), vcpu: Some(0) };
    assert_eq!(selector.select_vcpu(&state, Some(1), &mut turns), 0);
    // a last vCPU outside the mask does not count
    let state = SchedState { affinity: affinity(2, &[1]), vcpu: Some(0) };
    assert_eq!(selector.select_vcpu(&state, Some(1), &mut turns), 1);
}

#[test]
fn a_round_of_turns_reaches_each_vcpu_once() {
    let selector = all_asleep(6);
    let state = SchedState { affinity: affinity(6, &[1, 2, 5]), vcpu: None };
    let mut turns = RoundRobin::new();
    for _ in 0..6 {
        let mut picks: Vec<u32> =
            (0..3).map(|_| selector.select_vcpu(&state, None, &mut turns)).collect();
        picks.sort();
        assert_eq!(picks, vec![1, 2, 5]);
        // start the next round elsewhere
        turns.pick(6, &BitMask::new_full(6));
    }
}
