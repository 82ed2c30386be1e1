use libos_runtime::errno::{Errno, EINVAL};
use libos_runtime::executor::{
    num_vcpus, run_tasks, shutdown, Command, Enqueue, Executor, FutureSlot, LazyExecutor, RunAction,
    RunEvent, ShutdownStage,
};
use libos_runtime::vcpu::{
    clear_current, get_current, get_total, set_current, set_total, CurrentVcpu, TotalVcpus,
    NONE_VCPU,
};

fn shut_down(executor: &mut Executor) -> Vec<Command> {
    let mut commands = Vec::new();
    let mut stage = ShutdownStage::Begin;
    while let Some((command, next)) = executor.shutdown(stage) {
        commands.push(command);
        stage = next;
    }
    commands
}

#[test]
fn total_is_one_unless_it_is_set() {
    let mut vcpus = TotalVcpus::new();
    assert_eq!(get_total(&mut vcpus), 1);
}

#[test]
fn total_can_be_set_once() {
    let mut vcpus = TotalVcpus::new();
    set_total(&mut vcpus, 4);
    assert_eq!(get_total(&mut vcpus), 4);
    set_total(&mut vcpus, 8);
    assert_eq!(get_total(&mut vcpus), 4);

    let mut vcpus = TotalVcpus::new();
    set_total(&mut vcpus, 4);
    set_total(&mut vcpus, 8);
    assert_eq!(get_total(&mut vcpus), 4);
}

#[test]
fn total_can_be_set_only_before_anything_else() {
    let mut vcpus = TotalVcpus::new();
    get_total(&mut vcpus);
    set_total(&mut vcpus, 4);
    assert_eq!(get_total(&mut vcpus), 1);

    let mut vcpus = TotalVcpus::new();
    get_current(&mut vcpus, &CurrentVcpu::new());
    set_total(&mut vcpus, 4);
    assert_eq!(get_total(&mut vcpus), 1);

    let mut vcpus = TotalVcpus::new();
    let mut executor = LazyExecutor::new();
    assert_eq!(num_vcpus(&mut executor, &mut vcpus), 1);
    set_total(&mut vcpus, 4);
    assert_eq!(num_vcpus(&mut executor, &mut vcpus), 1);
    assert_eq!(get_total(&mut vcpus), 1);
}

#[test]
fn current_vcpu_comes_and_goes() {
    let mut vcpus = TotalVcpus::new();
    let mut current = CurrentVcpu::new();
    assert_eq!(get_current(&mut vcpus, &current), None);
    set_current(&mut current, 3);
    assert_eq!(get_current(&mut vcpus, &current), Some(3));
    set_current(&mut current, 0);
    assert_eq!(get_current(&mut vcpus, &current), Some(0));
    clear_current(&mut current);
    assert_eq!(get_current(&mut vcpus, &current), None);
    set_current(&mut current, NONE_VCPU);
    assert_eq!(get_current(&mut vcpus, &current), None);
}

#[test]
fn an_executor_needs_a_vcpu() {
    assert_eq!(Executor::new(0).unwrap_err(), Errno { code: EINVAL });
    assert_eq!(EINVAL, 22);
    let executor = Executor::new(3).unwrap();
    assert_eq!(executor.num_vcpus(), 3);
    assert_eq!(executor.started_vcpus(), 0);
    assert_eq!(executor.running_vcpus(), 0);
    assert!(!executor.is_shutdown());
}

#[test]
fn the_executor_has_the_total_number_of_vcpus() {
    let mut vcpus = TotalVcpus::new();
    let mut executor = LazyExecutor::new();
    set_total(&mut vcpus, 5);
    assert_eq!(num_vcpus(&mut executor, &mut vcpus), 5);
    assert_eq!(get_total(&mut vcpus), 5);
}

#[test]
fn vcpus_are_numbered_in_the_order_of_their_start() {
    let mut vcpus = TotalVcpus::new();
    set_total(&mut vcpus, 2);
    let mut executor = LazyExecutor::new();
    let (mut first, mut second) = (CurrentVcpu::new(), CurrentVcpu::new());
    let run0 = run_tasks(&mut executor, &mut vcpus, &mut first);
    let run1 = run_tasks(&mut executor, &mut vcpus, &mut second);
    assert_eq!((run0.vcpu(), run1.vcpu()), (0, 1));
    assert_eq!(get_current(&mut vcpus, &first), Some(0));
    assert_eq!(get_current(&mut vcpus, &second), Some(1));
    assert_eq!(executor.force(&mut vcpus).running_vcpus(), 2);
}

#[test]
fn a_task_is_dequeued_polled_and_dropped_when_ready() {
    let mut executor = Executor::new(2).unwrap();
    let mut current = CurrentVcpu::new();
    let run = executor.run_tasks(&mut current);
    let mut step = |event| run.step::<&str>(&mut executor, &mut current, event);
    assert!(matches!(step(RunEvent::ParkerRegistered), RunAction::Dequeue { vcpu: 0 }));
    assert!(matches!(step(RunEvent::Dequeued(None)), RunAction::WaitEnqueue { vcpu: 0 }));
    assert!(matches!(step(RunEvent::WaitOver), RunAction::Dequeue { vcpu: 0 }));
    assert!(matches!(step(RunEvent::Dequeued(Some("a"))), RunAction::TryLockFuture("a")));
    assert!(matches!(step(RunEvent::FutureLocked("a")), RunAction::Poll("a")));
    assert!(matches!(
        step(RunEvent::Polled { is_ready: true }),
        RunAction::EndPoll { drop_future: true }
    ));
    assert!(matches!(step(RunEvent::PollEnded), RunAction::Dequeue { vcpu: 0 }));
    assert!(matches!(
        step(RunEvent::Polled { is_ready: false }),
        RunAction::EndPoll { drop_future: false }
    ));
}

#[test]
fn a_busy_task_is_put_back_and_a_completed_one_is_passed_over() {
    let mut executor = Executor::new(2).unwrap();
    let mut current = CurrentVcpu::new();
    executor.run_tasks(&mut CurrentVcpu::new());
    let run = executor.run_tasks(&mut current);
    let mut step = |event| run.step::<&str>(&mut executor, &mut current, event);
    assert!(matches!(
        step(RunEvent::FutureBusy("a")),
        RunAction::Enqueue(Enqueue { task: "a", vcpu: Some(1) })
    ));
    assert!(matches!(step(RunEvent::Enqueued), RunAction::Dequeue { vcpu: 1 }));
    assert!(matches!(step(RunEvent::FutureGone), RunAction::Dequeue { vcpu: 1 }));
}

#[test]
fn a_future_slot_keeps_its_future_until_it_is_dropped() {
    let mut slot = FutureSlot::new(10);
    assert!(matches!(slot.locked("a"), RunEvent::FutureLocked("a")));
    *slot.future().unwrap() += 1;
    slot.end_poll(false);
    assert!(matches!(slot.locked("a"), RunEvent::FutureLocked("a")));
    assert_eq!(slot.future(), Some(&mut 11));
    slot.end_poll(true);
    assert!(matches!(slot.locked("a"), RunEvent::FutureGone));
    assert_eq!(slot.future(), None);
    slot.end_poll(false);
    assert!(matches!(slot.locked("a"), RunEvent::FutureGone));
}

#[test]
fn a_task_completed_by_one_vcpu_is_not_polled_by_another() {
    let mut executor = Executor::new(2).unwrap();
    let mut currents = [CurrentVcpu::new(), CurrentVcpu::new()];
    let first = executor.run_tasks(&mut currents[0]);
    let second = executor.run_tasks(&mut currents[1]);
    let mut slot = FutureSlot::new(());

    let locked = slot.locked("a");
    assert!(matches!(
        first.step(&mut executor, &mut currents[0], locked),
        RunAction::Poll("a")
    ));
    // the other vCPU finds the future locked and puts the task back
    assert!(matches!(
        second.step(&mut executor, &mut currents[1], RunEvent::FutureBusy("a")),
        RunAction::Enqueue(Enqueue { task: "a", vcpu: Some(1) })
    ));
    let polled = RunEvent::<&str>::Polled { is_ready: true };
    let action = first.step(&mut executor, &mut currents[0], polled);
    assert!(matches!(action, RunAction::EndPoll { drop_future: true }));
    slot.end_poll(true);

    let gone = slot.locked("a");
    assert!(matches!(
        second.step(&mut executor, &mut currents[1], gone),
        RunAction::Dequeue { vcpu: 1 }
    ));
}

#[test]
fn a_shutdown_is_recorded_and_not_undone() {
    let mut executor = Executor::new(2).unwrap();
    let mut current = CurrentVcpu::new();
    executor.shutdown(ShutdownStage::VcpusWoken);
    executor.shutdown(ShutdownStage::Done);
    executor.shutdown(ShutdownStage::Begin);
    assert!(!executor.is_shutdown());
    executor.shutdown(ShutdownStage::LoadBalancerStopped);
    assert!(executor.is_shutdown());
    let run = executor.run_tasks(&mut current);
    run.step::<u8>(&mut executor, &mut current, RunEvent::ParkerUnregistered);
    executor.shutdown(ShutdownStage::Begin);
    assert!(executor.is_shutdown());
}

#[test]
fn a_vcpu_stops_after_the_shutdown() {
    let mut executor = Executor::new(3).unwrap();
    let mut current = CurrentVcpu::new();
    let run = executor.run_tasks(&mut current);
    executor.run_tasks(&mut CurrentVcpu::new());
    shut_down(&mut executor);
    // the task at hand is still executed
    assert!(matches!(
        run.step(&mut executor, &mut current, RunEvent::FutureLocked(7)),
        RunAction::Poll(7)
    ));
    assert!(matches!(
        run.step::<u8>(&mut executor, &mut current, RunEvent::Polled { is_ready: false }),
        RunAction::EndPoll { drop_future: false }
    ));
    assert!(matches!(
        run.step::<u8>(&mut executor, &mut current, RunEvent::PollEnded),
        RunAction::UnregisterParker { vcpu: 0 }
    ));
    let mut vcpus = TotalVcpus::new();
    assert_eq!(get_current(&mut vcpus, &current), Some(0));
    assert!(matches!(
        run.step::<u8>(&mut executor, &mut current, RunEvent::ParkerUnregistered),
        RunAction::Return(1)
    ));
    assert_eq!(get_current(&mut vcpus, &current), None);
}

#[test]
fn each_vcpu_returns_how_many_are_still_running() {
    let mut executor = Executor::new(4).unwrap();
    let mut currents = [CurrentVcpu::new(), CurrentVcpu::new(), CurrentVcpu::new()];
    let mut runs = Vec::new();
    for current in currents.iter_mut() {
        runs.push(executor.run_tasks(current));
    }
    shut_down(&mut executor);
    assert_eq!((executor.started_vcpus(), executor.running_vcpus()), (3, 3));
    for (i, still_running) in [(1usize, 2u32), (0, 1), (2, 0)] {
        let action =
            runs[i].step::<u8>(&mut executor, &mut currents[i], RunEvent::ParkerUnregistered);
        assert!(matches!(action, RunAction::Return(n) if n == still_running));
        assert_eq!(executor.running_vcpus(), still_running);
    }
    // IDs are not handed out again
    assert_eq!(executor.started_vcpus(), 3);
    assert_eq!(executor.run_tasks(&mut currents[0]).vcpu(), 3);
    assert_eq!(executor.running_vcpus(), 1);
}

#[test]
fn shutdown_goes_through_its_stages_in_order() {
    let mut executor = Executor::new(1).unwrap();
    let (command, stage) = executor.shutdown(ShutdownStage::Begin).unwrap();
    assert_eq!(command, Command::StopLoadBalancer);
    assert!(!executor.is_shutdown());
    let (command, stage) = executor.shutdown(stage).unwrap();
    assert_eq!(command, Command::WakeAll);
    assert!(executor.is_shutdown());
    let (command, stage) = executor.shutdown(stage).unwrap();
    assert_eq!(command, Command::WakeTimerWheel { delay_nanos: 0 });
    assert!(executor.shutdown(stage).is_none());
    assert!(executor.is_shutdown());
    // a second shutdown does the same again
    assert_eq!(shut_down(&mut executor).len(), 3);
    assert!(executor.is_shutdown());
}

#[test]
fn the_global_executor_shuts_down() {
    let mut vcpus = TotalVcpus::new();
    let mut executor = LazyExecutor::new();
    let next = shutdown(&mut executor, &mut vcpus, ShutdownStage::LoadBalancerStopped);
    assert_eq!(next, Some((Command::WakeAll, ShutdownStage::VcpusWoken)));
    assert!(executor.force(&mut vcpus).is_shutdown());
}

#[test]
fn tasks_are_scheduled_on_behalf_of_the_current_vcpu() {
    let mut executor = Executor::new(2).unwrap();
    let outside = CurrentVcpu::new();
    let mut current = CurrentVcpu::new();
    set_current(&mut current, 1);
    let request = executor.accept_task("a", &current);
    assert_eq!((request.task, request.vcpu), ("a", Some(1)));
    let request = executor.accept_task("b", &outside);
    assert_eq!((request.task, request.vcpu), ("b", None));
    let request = executor.wake_task("c", &current).unwrap();
    assert_eq!((request.task, request.vcpu), ("c", Some(1)));
    shut_down(&mut executor);
    assert!(executor.wake_task("c", &current).is_none());
    let request = executor.schedule_task("d", &current);
    assert_eq!((request.task, request.vcpu), ("d", Some(1)));
}

#[test]
fn the_load_balancer_is_started_and_stopped() {
    let executor = Executor::new(1).unwrap();
    assert_eq!(executor.start_load_balancer(), Command::StartLoadBalancer);
    assert_eq!(executor.stop_load_balancer(), Command::StopLoadBalancer);
}
