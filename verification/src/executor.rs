//! The executor: which vCPUs run, what each of them does next, and where tasks go.
//!
//! The executor decides; what it decides on is carried out by its caller, who owns the run
//! queues, the parked threads, the timers and the futures of the tasks.
use vstd::prelude::*;

use crate::errno::{Errno, EINVAL};
use crate::vcpu::{clear_current, get_total, set_current, CurrentVcpu, TotalVcpus};

verus! {

/// A request to put a task into a run queue.
#[derive(Debug)]
pub struct Enqueue<T> {
    /// The task.
    pub task: T,
    /// The vCPU that makes the request, if it comes from one.
    pub vcpu: Option<u32>,
}

/// A request to a part of the runtime that works beside the vCPUs.
#[derive(Debug, Clone, Copy, PartialEq, Eq, Structural)]
pub enum Command {
    /// Start balancing the load of the run queues.
    StartLoadBalancer,
    /// Stop balancing the load of the run queues.
    StopLoadBalancer,
    /// Wake all vCPUs that wait for tasks.
    WakeAll,
    /// Wake the timer wheel after a delay.
    WakeTimerWheel { delay_nanos: u64 },
}

/// How far the shutdown of an executor has come.
#[derive(Debug, Clone, Copy, PartialEq, Eq, Structural)]
pub enum ShutdownStage {
    /// Nothing has been done.
    Begin,
    /// The load balancer has been stopped.
    LoadBalancerStopped,
    /// The vCPUs have been woken.
    VcpusWoken,
    /// The timer wheel has been woken; nothing is left to be done.
    Done,
}

/// What a vCPU reports of the last action that it was given.
#[derive(Debug)]
pub enum RunEvent<T> {
    /// The vCPU's thread is registered with its parker.
    ParkerRegistered,
    /// A task was taken from the vCPU's run queue, or none was there.
    Dequeued(Option<T>),
    /// The wait for a task is over.
    WaitOver,
    /// The task's future is locked, because another vCPU happens to execute the task.
    FutureBusy(T),
    /// The task has no future any more, because it happens to be completed.
    FutureGone,
    /// The task's future has been locked.
    FutureLocked(T),
    /// The task is in a run queue again.
    Enqueued,
    /// The task has been polled; it is completed if `is_ready`.
    Polled { is_ready: bool },
    /// The thread has no current task any more.
    PollEnded,
    /// The vCPU's thread is no longer registered with its parker.
    ParkerUnregistered,
}

/// What a vCPU does next.
#[derive(Debug)]
pub enum RunAction<T> {
    /// Take a task from the vCPU's run queue.
    Dequeue { vcpu: u32 },
    /// Wait until a task enters the vCPU's run queue.
    WaitEnqueue { vcpu: u32 },
    /// Try to lock the task's future.
    TryLockFuture(T),
    /// Put the task into a run queue, to execute it later.
    Enqueue(Enqueue<T>),
    /// Make the task the thread's current task and poll its future.
    Poll(T),
    /// Destroy the task's future if `drop_future`; then the thread has no current task.
    EndPoll { drop_future: bool },
    /// Unregister the vCPU's thread from its parker.
    UnregisterParker { vcpu: u32 },
    /// The vCPU is done; the number is that of the vCPUs that are still running.
    Return(u32),
}

/// The state of an executor.
pub struct ExecutorState {
    /// The number of vCPUs that may run.
    pub num_vcpus: u32,
    /// The number of vCPUs that have been started.
    pub started_vcpus: u32,
    /// The number of vCPUs that are running.
    pub running_vcpus: u32,
    /// Whether the executor has been shut down.
    pub is_shutdown: bool,
}

impl ExecutorState {
    /// There is a vCPU, no more have been started than there are, and no more are running
    /// than have been started.
    pub open spec fn wf(self) -> bool {
        &&& 0 < self.num_vcpus
        &&& self.running_vcpus <= self.started_vcpus <= self.num_vcpus
    }

    /// An executor none of whose vCPUs has been started.
    pub open spec fn initial(num_vcpus: u32) -> ExecutorState {
        ExecutorState { num_vcpus, started_vcpus: 0, running_vcpus: 0, is_shutdown: false }
    }

    /// What becomes of the state where a vCPU is started.
    pub open spec fn after_start(self) -> ExecutorState {
        ExecutorState {
            started_vcpus: (self.started_vcpus + 1) as u32,
            running_vcpus: (self.running_vcpus + 1) as u32,
            ..self
        }
    }

    /// What becomes of the state where a vCPU is done.
    pub open spec fn after_return(self) -> ExecutorState {
        ExecutorState { running_vcpus: (self.running_vcpus - 1) as u32, ..self }
    }

    /// What becomes of the state at a stage of the shutdown.
    pub open spec fn after_shutdown(self, stage: ShutdownStage) -> ExecutorState {
        ExecutorState {
            is_shutdown: self.is_shutdown || stage is LoadBalancerStopped,
            ..self
        }
    }
}

/// Executes tasks on a fixed number of vCPUs.
#[derive(Debug)]
pub struct Executor {
    num_vcpus: u32,
    started_vcpus: u32,
    running_vcpus: u32,
    is_shutdown: bool,
}

impl View for Executor {
    type V = ExecutorState;

    closed spec fn view(&self) -> ExecutorState {
        ExecutorState {
            num_vcpus: self.num_vcpus,
            started_vcpus: self.started_vcpus,
            running_vcpus: self.running_vcpus,
            is_shutdown: self.is_shutdown,
        }
    }
}

/// The action at the head of a vCPU's loop: look for a task, unless the executor has been
/// shut down.
pub open spec fn loop_head<T>(state: ExecutorState, vcpu: u32) -> RunAction<T> {
    if state.is_shutdown {
        RunAction::UnregisterParker { vcpu }
    } else {
        RunAction::Dequeue { vcpu }
    }
}

/// What a vCPU does after an event.
pub open spec fn next_action<T>(
    state: ExecutorState,
    vcpu: u32,
    event: RunEvent<T>,
) -> RunAction<T> {
    match event {
        RunEvent::ParkerRegistered => loop_head(state, vcpu),
        RunEvent::Dequeued(Some(task)) => RunAction::TryLockFuture(task),
        RunEvent::Dequeued(None) => RunAction::WaitEnqueue { vcpu },
        RunEvent::WaitOver => loop_head(state, vcpu),
        RunEvent::FutureBusy(task) => RunAction::Enqueue(Enqueue { task, vcpu: Some(vcpu) }),
        RunEvent::FutureGone => loop_head(state, vcpu),
        RunEvent::FutureLocked(task) => RunAction::Poll(task),
        RunEvent::Enqueued => loop_head(state, vcpu),
        RunEvent::Polled { is_ready } => RunAction::EndPoll { drop_future: is_ready },
        RunEvent::PollEnded => loop_head(state, vcpu),
        RunEvent::ParkerUnregistered => RunAction::Return(state.after_return().running_vcpus),
    }
}

/// Where a task keeps its future until it is completed. It is used only under a lock.
#[derive(Debug)]
pub struct FutureSlot<F> {
    future: Option<F>,
}

impl<F> View for FutureSlot<F> {
    type V = Option<F>;

    /// The future, unless it has been destroyed.
    closed spec fn view(&self) -> Option<F> {
        self.future
    }
}

impl<F> FutureSlot<F> {
    /// The slot of a new task.
    pub fn new(future: F) -> (slot: Self)
        ensures
            slot@ == Some(future),
    {
        FutureSlot { future: Some(future) }
    }

    /// What a vCPU reports that has locked the slot of a task: a future that has been
    /// destroyed is gone, whoever destroyed it.
    pub fn locked<T>(&self, task: T) -> (event: RunEvent<T>)
        ensures
            event == (if self@ is Some {
                RunEvent::FutureLocked(task)
            } else {
                RunEvent::FutureGone
            }),
    {
        if self.future.is_some() {
            RunEvent::FutureLocked(task)
        } else {
            RunEvent::FutureGone
        }
    }

    /// The future, to poll it.
    pub fn future(&mut self) -> (future: Option<&mut F>)
        ensures
            future is Some == old(self)@ is Some,
            future is Some ==> *future->0 == old(self)@->0,
            future is Some ==> final(self)@ == Some(*final(future->0)),
            future is None ==> final(self)@ == old(self)@,
    {
        self.future.as_mut()
    }

    /// Destroys the future if `drop_future`.
    pub fn end_poll(&mut self, drop_future: bool)
        ensures
            final(self)@ == (if drop_future {
                None
            } else {
                old(self)@
            }),
    {
        if drop_future {
            self.future = None;
        }
    }
}

/// A vCPU that runs tasks.
#[derive(Debug)]
pub struct VcpuRun {
    vcpu: u32,
}

impl View for VcpuRun {
    type V = u32;

    /// The vCPU's ID.
    closed spec fn view(&self) -> u32 {
        self.vcpu
    }
}

impl VcpuRun {
    /// The vCPU's ID.
    pub fn vcpu(&self) -> (vcpu: u32)
        ensures
            vcpu == self@,
    {
        self.vcpu
    }

    /// What the vCPU does at the head of its loop.
    fn at_loop_head<T>(&self, executor: &Executor) -> (action: RunAction<T>)
        ensures
            action == loop_head::<T>(executor@, self@),
    {
        if executor.is_shutdown() {
            RunAction::UnregisterParker { vcpu: self.vcpu }
        } else {
            RunAction::Dequeue { vcpu: self.vcpu }
        }
    }

    /// Takes note of an event and says what the vCPU does next. Where it is done, it no longer
    /// counts as running, its thread no longer serves as a vCPU, and the result is the number
    /// of vCPUs that are still running.
    pub fn step<T>(
        &self,
        executor: &mut Executor,
        current: &mut CurrentVcpu,
        event: RunEvent<T>,
    ) -> (action: RunAction<T>)
        requires
            event is ParkerUnregistered ==> old(executor)@.running_vcpus > 0,
        ensures
            action == next_action(old(executor)@, self@, event),
            event is ParkerUnregistered ==> {
                &&& final(executor)@ == old(executor)@.after_return()
                &&& final(executor)@.running_vcpus == old(executor)@.running_vcpus - 1
                &&& action == RunAction::<T>::Return(final(executor)@.running_vcpus)
            },
            !(event is ParkerUnregistered) ==> final(executor)@ == old(executor)@,
            old(executor)@.wf() ==> final(executor)@.wf(),
            final(current)@ == (if event is ParkerUnregistered {
                None
            } else {
                old(current)@
            }),
    {
        match event {
            RunEvent::ParkerRegistered => self.at_loop_head(executor),
            RunEvent::Dequeued(Some(task)) => RunAction::TryLockFuture(task),
            RunEvent::Dequeued(None) => RunAction::WaitEnqueue { vcpu: self.vcpu },
            RunEvent::WaitOver => self.at_loop_head(executor),
            // The task happens to be executed by another vCPU at the moment.
            // Try to execute it later.
            RunEvent::FutureBusy(task) => RunAction::Enqueue(
                Enqueue { task, vcpu: Some(self.vcpu) },
            ),
            RunEvent::FutureGone => self.at_loop_head(executor),
            RunEvent::FutureLocked(task) => RunAction::Poll(task),
            RunEvent::Enqueued => self.at_loop_head(executor),
            // The future of a completed task can be destroyed.
            RunEvent::Polled { is_ready } => RunAction::EndPoll { drop_future: is_ready },
            RunEvent::PollEnded => self.at_loop_head(executor),
            RunEvent::ParkerUnregistered => {
                clear_current(current);
                executor.running_vcpus = executor.running_vcpus - 1;
                RunAction::Return(executor.running_vcpus)
            },
        }
    }

    /// Whether this is one of the vCPUs that the executor has started.
    pub open spec fn is_of(&self, executor: &Executor) -> bool {
        self@ < executor@.started_vcpus
    }
}

impl Executor {
    /// An executor with `num_vcpus` vCPUs, none of which has been started.
    pub fn new(num_vcpus: u32) -> (executor: Result<Self, Errno>)
        ensures
            num_vcpus == 0 ==> executor == Err::<Self, Errno>(Errno { code: EINVAL }),
            num_vcpus != 0 ==> (executor matches Ok(e) && e@.wf() && e@
                == ExecutorState::initial(num_vcpus)),
    {
        if num_vcpus == 0 {
            return Err(Errno { code: EINVAL });
        }
        Ok(Executor { num_vcpus, started_vcpus: 0, running_vcpus: 0, is_shutdown: false })
    }

    /// The number of vCPUs.
    pub fn num_vcpus(&self) -> (num_vcpus: u32)
        ensures
            num_vcpus == self@.num_vcpus,
    {
        self.num_vcpus
    }

    /// The number of vCPUs that have been started.
    pub fn started_vcpus(&self) -> (started_vcpus: u32)
        ensures
            started_vcpus == self@.started_vcpus,
    {
        self.started_vcpus
    }

    /// The number of vCPUs that are running.
    pub fn running_vcpus(&self) -> (running_vcpus: u32)
        ensures
            running_vcpus == self@.running_vcpus,
    {
        self.running_vcpus
    }

    /// Starts the next vCPU on the current thread, which serves as this vCPU from now on.
    ///
    /// The vCPU first registers its thread with its parker. From then on `VcpuRun::step` says
    /// what it does.
    pub fn run_tasks(&mut self, current: &mut CurrentVcpu) -> (run: VcpuRun)
        requires
            old(self)@.wf(),
            old(self)@.started_vcpus < old(self)@.num_vcpus,
        ensures
            run@ == old(self)@.started_vcpus,
            run.is_of(final(self)),
            final(self)@ == old(self)@.after_start(),
            final(self)@.wf(),
            final(current)@ == Some(run@),
    {
        let this_vcpu = self.started_vcpus;
        self.started_vcpus = this_vcpu + 1;
        self.running_vcpus = self.running_vcpus + 1;
        set_current(current, this_vcpu);
        VcpuRun { vcpu: this_vcpu }
    }

    /// Accepts a new task and schedules it. A shut-down executor cannot accept new tasks.
    pub fn accept_task<T>(&self, task: T, current: &CurrentVcpu) -> (request: Enqueue<T>)
        requires
            !self@.is_shutdown,
        ensures
            request == (Enqueue { task, vcpu: current@ }),
    {
        self.schedule_task(task, current)
    }

    /// Wakes up an old task and schedules it, unless the executor has been shut down.
    pub fn wake_task<T>(&self, task: T, current: &CurrentVcpu) -> (request: Option<Enqueue<T>>)
        ensures
            request == (if self@.is_shutdown {
                None
            } else {
                Some(Enqueue { task, vcpu: current@ })
            }),
    {
        if self.is_shutdown() {
            return None;
        }
        Some(self.schedule_task(task, current))
    }

    /// Schedules a task on behalf of the current thread.
    pub fn schedule_task<T>(&self, task: T, current: &CurrentVcpu) -> (request: Enqueue<T>)
        ensures
            request == (Enqueue { task, vcpu: current@ }),
    {
        Enqueue { task, vcpu: current.id() }
    }

    /// Whether the executor has been shut down.
    pub fn is_shutdown(&self) -> (is_shutdown: bool)
        ensures
            is_shutdown == self@.is_shutdown,
    {
        self.is_shutdown
    }

    /// Shuts the executor down, stage by stage: says what to do next and which stage is
    /// reached when that is done. First the load balancer is stopped. Then the executor
    /// counts as shut down, and the vCPUs and the timer wheel are woken to take note of it.
    pub fn shutdown(&mut self, stage: ShutdownStage) -> (next: Option<(Command, ShutdownStage)>)
        ensures
            final(self)@ == old(self)@.after_shutdown(stage),
            next == shutdown_command(stage),
            old(self)@.wf() ==> final(self)@.wf(),
    {
        match stage {
            ShutdownStage::Begin => Some(
                (self.stop_load_balancer(), ShutdownStage::LoadBalancerStopped),
            ),
            ShutdownStage::LoadBalancerStopped => {
                self.is_shutdown = true;
                Some((Command::WakeAll, ShutdownStage::VcpusWoken))
            },
            // Wake the timer wheel right now.
            ShutdownStage::VcpusWoken => Some(
                (Command::WakeTimerWheel { delay_nanos: 0 }, ShutdownStage::Done),
            ),
            ShutdownStage::Done => None,
        }
    }

    /// Starts the load balancer.
    pub fn start_load_balancer(&self) -> (command: Command)
        ensures
            command == Command::StartLoadBalancer,
    {
        Command::StartLoadBalancer
    }

    /// Stops the load balancer.
    pub fn stop_load_balancer(&self) -> (command: Command)
        ensures
            command == Command::StopLoadBalancer,
    {
        Command::StopLoadBalancer
    }
}

/// What to do at a stage of the shutdown, and the stage that is reached then.
pub open spec fn shutdown_command(stage: ShutdownStage) -> Option<(Command, ShutdownStage)> {
    match stage {
        ShutdownStage::Begin => Some(
            (Command::StopLoadBalancer, ShutdownStage::LoadBalancerStopped),
        ),
        ShutdownStage::LoadBalancerStopped => Some((Command::WakeAll, ShutdownStage::VcpusWoken)),
        ShutdownStage::VcpusWoken => Some(
            (Command::WakeTimerWheel { delay_nanos: 0 }, ShutdownStage::Done),
        ),
        ShutdownStage::Done => None,
    }
}

/// The executor of the runtime. It comes into being when it is first used, with the total
/// number of vCPUs that is settled then.
#[derive(Debug)]
pub struct LazyExecutor {
    executor: Option<Executor>,
}

impl View for LazyExecutor {
    type V = Option<ExecutorState>;

    closed spec fn view(&self) -> Option<ExecutorState> {
        match self.executor {
            Some(executor) => Some(executor@),
            None => None,
        }
    }
}

impl LazyExecutor {
    /// Whether there is an executor, or one can be made with this number of vCPUs.
    pub open spec fn is_available(&self, vcpus: &TotalVcpus) -> bool {
        self@ is Some || vcpus.total() != 0
    }

    /// The state of the executor once it is used.
    pub open spec fn forced(&self, vcpus: &TotalVcpus) -> ExecutorState {
        match self@ {
            Some(state) => state,
            None => ExecutorState::initial(vcpus.total()),
        }
    }

    /// An executor, where there is one, has as many vCPUs as there are in total.
    pub open spec fn agrees_with(&self, vcpus: &TotalVcpus) -> bool {
        self@ matches Some(state) ==> vcpus.is_settled() && state.num_vcpus == vcpus.total()
    }

    /// The executor has not been used yet.
    pub fn new() -> (executor: Self)
        ensures
            executor@ == None::<ExecutorState>,
    {
        LazyExecutor { executor: None }
    }

    /// The executor of the runtime.
    pub fn force(&mut self, vcpus: &mut TotalVcpus) -> (executor: &mut Executor)
        requires
            old(self).is_available(old(vcpus)),
        ensures
            executor@ == old(self).forced(old(vcpus)),
            final(self)@ == Some(final(executor)@),
            final(vcpus).total() == old(vcpus).total(),
            final(vcpus).is_settled(),
    {
        let total_vcpus = get_total(vcpus);
        if self.executor.is_none() {
            self.executor = Some(Executor::new(total_vcpus).unwrap());
        }
        self.executor.as_mut().unwrap()
    }
}

/// The number of vCPUs of the runtime's executor.
pub fn num_vcpus(executor: &mut LazyExecutor, vcpus: &mut TotalVcpus) -> (num_vcpus: u32)
    requires
        old(executor).is_available(old(vcpus)),
    ensures
        num_vcpus == old(executor).forced(old(vcpus)).num_vcpus,
        final(executor)@ == Some(old(executor).forced(old(vcpus))),
        final(vcpus).total() == old(vcpus).total(),
        final(vcpus).is_settled(),
{
    executor.force(vcpus).num_vcpus()
}

/// Starts the next vCPU of the runtime's executor on the current thread.
pub fn run_tasks(
    executor: &mut LazyExecutor,
    vcpus: &mut TotalVcpus,
    current: &mut CurrentVcpu,
) -> (run: VcpuRun)
    requires
        old(executor).is_available(old(vcpus)),
        old(executor).forced(old(vcpus)).wf(),
        old(executor).forced(old(vcpus)).started_vcpus < old(executor).forced(
            old(vcpus),
        ).num_vcpus,
    ensures
        run@ == old(executor).forced(old(vcpus)).started_vcpus,
        final(executor)@ == Some(old(executor).forced(old(vcpus)).after_start()),
        old(executor).forced(old(vcpus)).after_start().wf(),
        final(current)@ == Some(run@),
        final(vcpus).total() == old(vcpus).total(),
        final(vcpus).is_settled(),
{
    executor.force(vcpus).run_tasks(current)
}

/// Shuts the runtime's executor down, stage by stage.
pub fn shutdown(
    executor: &mut LazyExecutor,
    vcpus: &mut TotalVcpus,
    stage: ShutdownStage,
) -> (next: Option<(Command, ShutdownStage)>)
    requires
        old(executor).is_available(old(vcpus)),
    ensures
        next == shutdown_command(stage),
        final(executor)@ == Some(old(executor).forced(old(vcpus)).after_shutdown(stage)),
        final(vcpus).total() == old(vcpus).total(),
        final(vcpus).is_settled(),
{
    executor.force(vcpus).shutdown(stage)
}

/// The number of vCPUs of the runtime's executor is the total number, before and after the
/// executor comes into being: whatever an executor does later, it keeps its vCPUs, and the
/// settled total stays.
pub proof fn lemma_executor_agrees_with_total(
    before: LazyExecutor,
    vcpus_before: TotalVcpus,
    after: LazyExecutor,
    vcpus_after: TotalVcpus,
)
    requires
        before.agrees_with(&vcpus_before),
        after@ matches Some(state) && state.num_vcpus == before.forced(&vcpus_before).num_vcpus,
        vcpus_after.total() == vcpus_before.total(),
        vcpus_after.is_settled(),
    ensures
        before.forced(&vcpus_before).num_vcpus == vcpus_before.total(),
        after.agrees_with(&vcpus_after),
{
}

/// The total number of vCPUs stays the number that the executor was made with: an attempt
/// to set it later leaves the two in agreement.
pub proof fn lemma_total_stays_with_executor(
    executor: LazyExecutor,
    before: TotalVcpus,
    total_vcpus: u32,
    after: TotalVcpus,
)
    requires
        executor.agrees_with(&before),
        crate::vcpu::total_is_set(before, total_vcpus, after),
    ensures
        executor.agrees_with(&after),
        executor@ is Some ==> after.total() == before.total(),
{
}

/// Whether an event can follow an action.
pub open spec fn answers<T>(action: RunAction<T>, event: RunEvent<T>) -> bool {
    match action {
        RunAction::Dequeue { .. } => event is Dequeued,
        RunAction::WaitEnqueue { .. } => event is WaitOver,
        RunAction::TryLockFuture(task) => {
            ||| event is FutureGone
            ||| event == RunEvent::FutureBusy(task)
            ||| event == RunEvent::FutureLocked(task)
        },
        RunAction::Enqueue(..) => event is Enqueued,
        RunAction::Poll(..) => event is Polled,
        RunAction::EndPoll { .. } => event is PollEnded,
        RunAction::UnregisterParker { .. } => event is ParkerUnregistered,
        RunAction::Return(..) => false,
    }
}

/// Whether a vCPU can see these events in a row, from its start on; each comes with the
/// state that the executor is in when the event is taken note of.
pub open spec fn is_run<T>(vcpu: u32, events: Seq<(RunEvent<T>, ExecutorState)>) -> bool {
    &&& events.len() > 0 ==> events[0].0 is ParkerRegistered
    &&& forall|i: int|
        0 < i < events.len() ==> answers(
            action_at(vcpu, events, i - 1),
            #[trigger] events[i].0,
        )
}

/// What a vCPU does after the `i`-th of its events.
pub open spec fn action_at<T>(
    vcpu: u32,
    events: Seq<(RunEvent<T>, ExecutorState)>,
    i: int,
) -> RunAction<T> {
    next_action(events[i].1, vcpu, events[i].0)
}

/// Something that happens to an executor.
pub enum Transition {
    /// A vCPU is started.
    Start,
    /// A vCPU is done.
    Return,
    /// A stage of the shutdown is gone through.
    Shutdown(ShutdownStage),
}

/// The state of an executor with `num_vcpus` vCPUs after all this has happened to it.
pub open spec fn replay(num_vcpus: u32, history: Seq<Transition>) -> ExecutorState
    decreases history.len(),
{
    if history.len() == 0 {
        ExecutorState::initial(num_vcpus)
    } else {
        let before = replay(num_vcpus, history.drop_last());
        match history.last() {
            Transition::Start => before.after_start(),
            Transition::Return => before.after_return(),
            Transition::Shutdown(stage) => before.after_shutdown(stage),
        }
    }
}

/// How many vCPUs have been started.
pub open spec fn starts(history: Seq<Transition>) -> nat {
    history.filter(|t: Transition| t is Start).len()
}

/// How many vCPUs are done.
pub open spec fn returns_of(history: Seq<Transition>) -> nat {
    history.filter(|t: Transition| t is Return).len()
}

/// Whether, at each time, no more vCPUs have been started than there are, and no more are
/// done than have been started.
pub open spec fn is_history(num_vcpus: u32, history: Seq<Transition>) -> bool {
    forall|i: int|
        0 <= i <= history.len() ==> returns_of(#[trigger] history.take(i)) <= starts(
            history.take(i),
        ) <= num_vcpus
}

/// The number that a vCPU returns is that of the vCPUs that are running: those that have been
/// started, less those that are done. The last one to be done returns 0.
pub proof fn lemma_running_vcpus_are_counted(num_vcpus: u32, history: Seq<Transition>)
    requires
        0 < num_vcpus,
        is_history(num_vcpus, history),
    ensures
        replay(num_vcpus, history).wf(),
        replay(num_vcpus, history).num_vcpus == num_vcpus,
        replay(num_vcpus, history).started_vcpus == starts(history),
        replay(num_vcpus, history).running_vcpus == starts(history) - returns_of(history),
    decreases history.len(),
{
    reveal(Seq::filter);
    assert(history.take(history.len() as int) =~= history);
    if history.len() > 0 {
        let front = history.drop_last();
        assert forall|i: int| 0 <= i <= front.len() implies returns_of(#[trigger] front.take(i))
            <= starts(front.take(i)) <= num_vcpus by {
            assert(front.take(i) =~= history.take(i));
        }
        lemma_running_vcpus_are_counted(num_vcpus, front);
    }
}

/// An executor counts as shut down exactly where its shutdown has come to the stage at which
/// the load balancer has been stopped. Nothing that happens later undoes it.
pub proof fn lemma_shutdown_is_recorded(num_vcpus: u32, history: Seq<Transition>)
    ensures
        replay(num_vcpus, history).is_shutdown <==> history.contains(
            Transition::Shutdown(ShutdownStage::LoadBalancerStopped),
        ),
    decreases history.len(),
{
    let stopped = Transition::Shutdown(ShutdownStage::LoadBalancerStopped);
    if history.len() > 0 {
        let front = history.drop_last();
        lemma_shutdown_is_recorded(num_vcpus, front);
        if history.last() == stopped {
            assert(history[history.len() - 1] == stopped);
        }
        if front.contains(stopped) {
            let i = choose|i: int| 0 <= i < front.len() && front[i] == stopped;
            assert(history[i] == stopped);
        }
        if history.contains(stopped) && history.last() != stopped {
            let i = choose|i: int| 0 <= i < history.len() && history[i] == stopped;
            assert(front[i] == stopped);
        }
    }
}

/// Two vCPUs of an executor never have the same ID, even where the earlier one is done.
pub proof fn lemma_vcpus_are_distinct(
    executor: Executor,
    earlier: VcpuRun,
    later: VcpuRun,
)
    requires
        earlier.is_of(&executor),
        later@ == executor@.started_vcpus,
    ensures
        earlier@ != later@,
{
}

/// No task gets lost: a task that a vCPU takes from its run queue is put back into a run
/// queue on behalf of this vCPU, or polled, unless it happens to be completed.
pub proof fn lemma_dequeued_task_is_kept<T>(
    vcpu: u32,
    events: Seq<(RunEvent<T>, ExecutorState)>,
    i: int,
    task: T,
)
    requires
        is_run(vcpu, events),
        0 <= i,
        i + 1 < events.len(),
        events[i].0 == RunEvent::Dequeued(Some(task)),
    ensures
        ({
            let after = action_at(vcpu, events, i + 1);
            ||| events[i + 1].0 is FutureGone
            ||| after == RunAction::Poll(task)
            ||| after == RunAction::Enqueue(Enqueue { task, vcpu: Some(vcpu) })
        }),
{
    assert(answers(action_at(vcpu, events, i), events[i + 1].0));
}

/// A task whose future a vCPU has locked is polled at once. Then its future is destroyed if
/// it is completed, and kept if it is not; either way the vCPU goes on without putting the
/// task into a run queue.
pub proof fn lemma_locked_task_is_polled_once<T>(
    vcpu: u32,
    events: Seq<(RunEvent<T>, ExecutorState)>,
    i: int,
    task: T,
)
    requires
        is_run(vcpu, events),
        0 <= i,
        i + 2 < events.len(),
        events[i].0 == RunEvent::FutureLocked(task),
    ensures
        action_at(vcpu, events, i) == RunAction::Poll(task),
        events[i + 1].0 matches RunEvent::Polled { is_ready } && action_at(vcpu, events, i + 1)
            == (RunAction::<T>::EndPoll { drop_future: is_ready }),
        events[i + 2].0 is PollEnded,
        action_at(vcpu, events, i + 2) == loop_head::<T>(events[i + 2].1, vcpu),
{
    assert(answers(action_at(vcpu, events, i), events[i + 1].0));
    assert(answers(action_at(vcpu, events, i + 1), events[i + 2].0));
}

/// The events of one vCPU, out of those of all vCPUs in the order in which they are taken
/// note of. Each comes with its vCPU and with the state that the executor is in then.
pub open spec fn events_of<T>(
    events: Seq<(u32, RunEvent<T>, ExecutorState)>,
    vcpu: u32,
) -> Seq<(RunEvent<T>, ExecutorState)>
    decreases events.len(),
{
    if events.len() == 0 {
        Seq::empty()
    } else {
        let before = events_of(events.drop_last(), vcpu);
        let (last_vcpu, event, state) = events.last();
        if last_vcpu == vcpu {
            before.push((event, state))
        } else {
            before
        }
    }
}

/// Whether each vCPU can see its part of these events in a row, from its start on.
pub open spec fn are_runs<T>(events: Seq<(u32, RunEvent<T>, ExecutorState)>) -> bool {
    forall|vcpu: u32| is_run(vcpu, #[trigger] events_of(events, vcpu))
}

/// Whether a vCPU that has seen these events holds the lock of the task's future: it polls
/// the task, or it has polled the task and not yet ended that.
pub open spec fn is_executing<T>(
    vcpu: u32,
    run: Seq<(RunEvent<T>, ExecutorState)>,
    task: T,
) -> bool {
    let last = run.len() - 1;
    ||| last >= 0 && action_at(vcpu, run, last) == RunAction::Poll(task)
    ||| {
        &&& last >= 1
        &&& action_at(vcpu, run, last - 1) == RunAction::Poll(task)
        &&& action_at(vcpu, run, last) is EndPoll
    }
}

/// Whether a vCPU that has seen these events was told to destroy the task's future.
pub open spec fn has_dropped_future<T>(
    vcpu: u32,
    run: Seq<(RunEvent<T>, ExecutorState)>,
    task: T,
) -> bool {
    exists|j: int|
        {
            &&& 0 < j < run.len()
            &&& action_at(vcpu, run, j - 1) == RunAction::Poll(task)
            &&& #[trigger] action_at(vcpu, run, j) == (RunAction::<T>::EndPoll {
                drop_future: true,
            })
        }
}

/// Whether, after these events, any vCPU has destroyed the task's future.
pub open spec fn is_future_dropped<T>(
    events: Seq<(u32, RunEvent<T>, ExecutorState)>,
    task: T,
) -> bool {
    exists|vcpu: u32| has_dropped_future(vcpu, #[trigger] events_of(events, vcpu), task)
}

/// Once any vCPU has destroyed a task's future, no vCPU reports it as locked.
pub open spec fn dropped_futures_stay_gone<T>(
    events: Seq<(u32, RunEvent<T>, ExecutorState)>,
) -> bool {
    forall|k: int|
        0 <= k < events.len() ==> ((#[trigger] events[k]).1 matches RunEvent::FutureLocked(task)
            ==> !is_future_dropped(events.take(k), task))
}

/// While any vCPU holds the lock of a task's future, no vCPU reports the future as locked.
pub open spec fn locks_are_exclusive<T>(
    events: Seq<(u32, RunEvent<T>, ExecutorState)>,
) -> bool {
    forall|k: int, vcpu: u32|
        0 <= k < events.len() ==> ((#[trigger] events[k]).1 matches RunEvent::FutureLocked(task)
            ==> !is_executing(vcpu, #[trigger] events_of(events.take(k), vcpu), task))
}

/// What a vCPU has seen after the first `n` events is where all that it sees begins.
proof fn lemma_events_of_prefix<T>(
    events: Seq<(u32, RunEvent<T>, ExecutorState)>,
    vcpu: u32,
    n: int,
)
    requires
        0 <= n <= events.len(),
    ensures
        events_of(events.take(n), vcpu).is_prefix_of(events_of(events, vcpu)),
    decreases events.len(),
{
    if n == events.len() {
        assert(events.take(n) =~= events);
    } else {
        lemma_events_of_prefix(events.drop_last(), vcpu, n);
        assert(events.drop_last().take(n) =~= events.take(n));
    }
}

/// A completed task is never polled again by any vCPU, even if it is woken and dequeued
/// again: a future that has been destroyed cannot be locked.
pub proof fn lemma_completed_task_is_not_polled_again<T>(
    events: Seq<(u32, RunEvent<T>, ExecutorState)>,
    i: int,
    task: T,
    later: int,
)
    requires
        are_runs(events),
        dropped_futures_stay_gone(events),
        0 <= i < later < events.len(),
        is_executing(events[i].0, events_of(events.take(i), events[i].0), task),
        events[i].1 == (RunEvent::<T>::Polled { is_ready: true }),
    ensures
        next_action(events[later].2, events[later].0, events[later].1) != RunAction::Poll(task),
{
    let vcpu = events[i].0;
    let whole = events_of(events, vcpu);
    let run = events_of(events.take(i), vcpu);
    let run_after = events_of(events.take(i + 1), vcpu);
    let run_later = events_of(events.take(later), vcpu);
    let j = run.len() as int;
    assert(events.take(i + 1).drop_last() =~= events.take(i));
    assert(run_after == run.push((events[i].1, events[i].2)));
    lemma_events_of_prefix(events, vcpu, i + 1);
    lemma_events_of_prefix(events.take(later), vcpu, i + 1);
    assert(events.take(later).take(i + 1) =~= events.take(i + 1));
    assert(whole[j - 1] == run_after[j - 1]);
    assert(whole[j] == run_after[j]);
    assert(run_later[j - 1] == run_after[j - 1]);
    assert(run_later[j] == run_after[j]);
    // The task has been polled, and that has not been ended.
    assert(is_run(vcpu, whole));
    assert(answers(action_at(vcpu, whole, j - 1), whole[j].0));
    assert(action_at(vcpu, run, j - 1) == RunAction::Poll(task));
    assert(action_at(vcpu, run_later, j) == (RunAction::<T>::EndPoll { drop_future: true }));
    assert(has_dropped_future(vcpu, run_later, task));
    assert(is_future_dropped(events.take(later), task));
}

/// A task is never executed by two vCPUs at the same time.
pub proof fn lemma_task_is_executed_by_one_vcpu<T>(
    events: Seq<(u32, RunEvent<T>, ExecutorState)>,
    task: T,
    vcpu: u32,
    other: u32,
)
    requires
        locks_are_exclusive(events),
        is_executing(vcpu, events_of(events, vcpu), task),
        is_executing(other, events_of(events, other), task),
    ensures
        vcpu == other,
    decreases events.len(),
{
    if vcpu != other {
        let front = events.drop_last();
        let last = events.len() - 1;
        assert(events.take(last) =~= front);
        assert forall|k: int, v: u32| 0 <= k < front.len() implies ((#[trigger] front[k]).1 matches
            RunEvent::FutureLocked(t) ==> !is_executing(
            v,
            #[trigger] events_of(front.take(k), v),
            t,
        )) by {
            assert(front.take(k) =~= events.take(k));
            assert(front[k] == events[k]);
        }
        assert(!is_executing(vcpu, events_of(events.take(last), vcpu), task)
            || events[last].1 != RunEvent::FutureLocked(task));
        assert(!is_executing(other, events_of(events.take(last), other), task)
            || events[last].1 != RunEvent::FutureLocked(task));
        lemma_task_is_executed_by_one_vcpu(front, task, vcpu, other);
    }
}

/// A vCPU finishes only after the executor has been shut down.
pub proof fn lemma_run_ends_only_by_shutdown<T>(
    vcpu: u32,
    events: Seq<(RunEvent<T>, ExecutorState)>,
    i: int,
)
    requires
        is_run(vcpu, events),
        0 <= i < events.len(),
        action_at(vcpu, events, i) is Return,
    ensures
        i > 0,
        events[i - 1].1.is_shutdown,
{
    assert(i > 0 ==> answers(action_at(vcpu, events, i - 1), events[i].0));
}

/// Once the executor has been shut down, a vCPU takes no more tasks, and it is done after
/// the task that it may be executing: at most four more events follow.
pub proof fn lemma_shutdown_ends_run<T>(
    vcpu: u32,
    events: Seq<(RunEvent<T>, ExecutorState)>,
    start: int,
)
    requires
        is_run(vcpu, events),
        0 <= start < events.len(),
        forall|i: int| start <= i < events.len() ==> (#[trigger] events[i]).1.is_shutdown,
    ensures
        events.len() <= start + 5,
        forall|i: int|
            start <= i < events.len() ==> !(#[trigger] action_at(vcpu, events, i) is Dequeue),
{
    assert forall|i: int| start <= i < events.len() implies !(#[trigger] action_at(vcpu, events, i)
        is Dequeue) by {
        assert(events[i].1.is_shutdown);
    }
    if events.len() > start + 5 {
        assert(answers(action_at(vcpu, events, start), events[start + 1].0));
        assert(answers(action_at(vcpu, events, start + 1), events[start + 2].0));
        assert(answers(action_at(vcpu, events, start + 2), events[start + 3].0));
        assert(answers(action_at(vcpu, events, start + 3), events[start + 4].0));
        assert(answers(action_at(vcpu, events, start + 4), events[start + 5].0));
    }
}

/// A new executor has the number of vCPUs that it was asked for. None of them has been
/// started or is running, and the executor is not shut down. Only an executor without vCPUs
/// is refused, as an invalid argument.
pub proof fn lemma_new_executor_is_fresh(
    num_vcpus: u32,
    executor: &Executor,
    made: Result<Executor, Errno>,
    num: u32,
    started: u32,
    running: u32,
    is_shutdown: bool,
)
    requires
        call_ensures(Executor::new, (num_vcpus,), made),
        made is Ok ==> made->Ok_0 == *executor,
        call_ensures(Executor::num_vcpus, (executor,), num),
        call_ensures(Executor::started_vcpus, (executor,), started),
        call_ensures(Executor::running_vcpus, (executor,), running),
        call_ensures(Executor::is_shutdown, (executor,), is_shutdown),
    ensures
        made is Ok <==> num_vcpus > 0,
        made is Err ==> made->Err_0.code == 22,
        made is Ok ==> num == num_vcpus && started == 0 && running == 0 && !is_shutdown,
{
}

/// A vCPU that is started gets the next ID, counts as started and running, and is the one
/// that its thread serves as. Nothing else changes.
pub proof fn lemma_vcpu_is_started(
    executor: &mut Executor,
    current: &mut CurrentVcpu,
    run: &VcpuRun,
    id: u32,
)
    requires
        old(executor)@.running_vcpus <= old(executor)@.started_vcpus < old(executor)@.num_vcpus,
        call_ensures(Executor::run_tasks, (executor, current), *run),
        call_ensures(VcpuRun::vcpu, (run,), id),
    ensures
        id == old(executor)@.started_vcpus,
        id == run@,
        final(current)@ == Some(id),
        final(executor)@.started_vcpus == old(executor)@.started_vcpus + 1,
        final(executor)@.running_vcpus == old(executor)@.running_vcpus + 1,
        final(executor)@.num_vcpus == old(executor)@.num_vcpus,
        final(executor)@.is_shutdown == old(executor)@.is_shutdown,
{
}

/// An executor reports one vCPU more as started and as running when one is started, and one
/// less as running when one is done. It always reports the same number of vCPUs, and whether
/// it is shut down stays as it was.
pub proof fn lemma_reported_counts_follow_starts_and_ends<T>(
    before: &Executor,
    counts: (u32, u32, u32, bool),
    executor: &mut Executor,
    current: &mut CurrentVcpu,
    run: VcpuRun,
    runner: &VcpuRun,
    action: RunAction<T>,
    after: &Executor,
    counts_after: (u32, u32, u32, bool),
)
    requires
        *before == *old(executor),
        *after == *final(executor),
        call_ensures(Executor::num_vcpus, (before,), counts.0),
        call_ensures(Executor::started_vcpus, (before,), counts.1),
        call_ensures(Executor::running_vcpus, (before,), counts.2),
        call_ensures(Executor::is_shutdown, (before,), counts.3),
        call_ensures(Executor::num_vcpus, (after,), counts_after.0),
        call_ensures(Executor::started_vcpus, (after,), counts_after.1),
        call_ensures(Executor::running_vcpus, (after,), counts_after.2),
        call_ensures(Executor::is_shutdown, (after,), counts_after.3),
    ensures
        counts.2 <= counts.1 < counts.0 && call_ensures(
            Executor::run_tasks,
            (executor, current),
            run,
        ) ==> {
            &&& counts_after.0 == counts.0
            &&& counts_after.1 == counts.1 + 1
            &&& counts_after.2 == counts.2 + 1
            &&& counts_after.3 == counts.3
        },
        0 < counts.2 && call_ensures(
            VcpuRun::step::<T>,
            (runner, executor, current, RunEvent::ParkerUnregistered),
            action,
        ) ==> {
            &&& counts_after.0 == counts.0
            &&& counts_after.1 == counts.1
            &&& counts_after.2 == counts.2 - 1
            &&& counts_after.3 == counts.3
            &&& action == RunAction::<T>::Return(counts_after.2)
        },
{
}

/// The actions that a vCPU is given are about itself: it looks for tasks in its own run
/// queue, waits for its own run queue, puts tasks back on its own behalf and unregisters from
/// its own parker.
pub proof fn lemma_step_is_about_its_own_vcpu<T>(
    run: &VcpuRun,
    id: u32,
    executor: &mut Executor,
    current: &mut CurrentVcpu,
    event: RunEvent<T>,
    action: RunAction<T>,
)
    requires
        call_ensures(VcpuRun::vcpu, (run,), id),
        call_ensures(VcpuRun::step::<T>, (run, executor, current, event), action),
    ensures
        action matches RunAction::Dequeue { vcpu } ==> vcpu == id,
        action matches RunAction::WaitEnqueue { vcpu } ==> vcpu == id,
        action matches RunAction::UnregisterParker { vcpu } ==> vcpu == id,
        action matches RunAction::Enqueue(request) ==> request.vcpu == Some(id),
{
}

/// A vCPU deals with the task at hand: the task whose future it tries to lock is the one that
/// it found in its run queue, the task that it polls is the one whose future it locked, the
/// task that it puts back is the one that another vCPU executes, and a future is destroyed
/// exactly where its task is completed.
pub proof fn lemma_step_deals_with_the_task_at_hand<T>(
    run: &VcpuRun,
    executor: &mut Executor,
    current: &mut CurrentVcpu,
    event: RunEvent<T>,
    action: RunAction<T>,
    task: T,
    is_ready: bool,
)
    requires
        call_ensures(VcpuRun::step::<T>, (run, executor, current, event), action),
    ensures
        action == RunAction::TryLockFuture(task) <==> event == RunEvent::Dequeued(Some(task)),
        action == RunAction::Poll(task) <==> event == RunEvent::FutureLocked(task),
        action is Enqueue && action->Enqueue_0.task == task <==> event == RunEvent::FutureBusy(
            task,
        ),
        action == (RunAction::<T>::EndPoll { drop_future: is_ready }) <==> event == (RunEvent::<
            T,
        >::Polled { is_ready }),
{
}

/// A vCPU that finds no task waits, and it waits only then. It looks for a task exactly where
/// it has nothing at hand and the executor is not shut down; where it is, the vCPU unregisters
/// from its parker instead. It is done exactly when it is unregistered.
pub proof fn lemma_step_looks_for_tasks_until_shutdown<T>(
    run: &VcpuRun,
    executor: &mut Executor,
    is_shutdown: bool,
    current: &mut CurrentVcpu,
    event: RunEvent<T>,
    action: RunAction<T>,
)
    requires
        call_ensures(Executor::is_shutdown, (&*old(executor),), is_shutdown),
        call_ensures(VcpuRun::step::<T>, (run, executor, current, event), action),
    ensures
        action is WaitEnqueue <==> event == RunEvent::<T>::Dequeued(None),
        action is Return <==> event is ParkerUnregistered,
        event is ParkerRegistered || event is WaitOver || event is FutureGone || event is Enqueued
            || event is PollEnded ==> (if is_shutdown {
            action is UnregisterParker
        } else {
            action is Dequeue
        }),
        action is Dequeue ==> !is_shutdown,
        action is UnregisterParker ==> is_shutdown,
{
}

/// A vCPU that is done no longer counts as running, its thread no longer serves as a vCPU, and
/// it returns how many are still running. Otherwise a step changes nothing.
pub proof fn lemma_step_changes_nothing_until_done<T>(
    run: &VcpuRun,
    executor: &mut Executor,
    current: &mut CurrentVcpu,
    event: RunEvent<T>,
    action: RunAction<T>,
)
    requires
        event is ParkerUnregistered ==> old(executor)@.running_vcpus > 0,
        call_ensures(VcpuRun::step::<T>, (run, executor, current, event), action),
    ensures
        final(executor)@.num_vcpus == old(executor)@.num_vcpus,
        final(executor)@.started_vcpus == old(executor)@.started_vcpus,
        final(executor)@.is_shutdown == old(executor)@.is_shutdown,
        match action {
            RunAction::Return(still_running) => {
                &&& final(executor)@.running_vcpus == old(executor)@.running_vcpus - 1
                &&& still_running == final(executor)@.running_vcpus
                &&& final(current)@ is None
            },
            _ => {
                &&& final(executor)@.running_vcpus == old(executor)@.running_vcpus
                &&& final(current)@ == old(current)@
            },
        },
{
}

/// A task is scheduled on behalf of the vCPU that the current thread serves as, if it serves
/// as one; it does not matter whether the task is new or woken up. No task is woken up once
/// the executor has been shut down, and each is before.
pub proof fn lemma_tasks_are_scheduled_by_the_current_vcpu<T>(
    executor: &Executor,
    task: T,
    current: &CurrentVcpu,
    vcpus: &mut TotalVcpus,
    id: Option<u32>,
    is_shutdown: bool,
    accepted: Enqueue<T>,
    woken: Option<Enqueue<T>>,
    scheduled: Enqueue<T>,
)
    requires
        call_ensures(crate::vcpu::get_current, (vcpus, current), id),
        call_ensures(Executor::is_shutdown, (executor,), is_shutdown),
        call_ensures(Executor::accept_task::<T>, (executor, task, current), accepted),
        call_ensures(Executor::wake_task::<T>, (executor, task, current), woken),
        call_ensures(Executor::schedule_task::<T>, (executor, task, current), scheduled),
    ensures
        scheduled.task == task && scheduled.vcpu == id,
        accepted == scheduled,
        woken is None <==> is_shutdown,
        woken is Some ==> woken->0 == scheduled,
{
}

/// A shutdown goes through all of its stages: the load balancer is stopped first; only when
/// that is done does the executor count as shut down, which it does before the vCPUs are
/// woken; at last the timer wheel is woken without delay, and then nothing is left to be done.
pub proof fn lemma_shutdown_goes_through_its_stages(
    first: &mut Executor,
    next1: Option<(Command, ShutdownStage)>,
    second: &mut Executor,
    next2: Option<(Command, ShutdownStage)>,
    third: &mut Executor,
    next3: Option<(Command, ShutdownStage)>,
    fourth: &mut Executor,
    next4: Option<(Command, ShutdownStage)>,
)
    requires
        call_ensures(Executor::shutdown, (first, ShutdownStage::Begin), next1),
        *old(second) == *final(first),
        next1 is Some ==> call_ensures(Executor::shutdown, (second, (next1->0).1), next2),
        *old(third) == *final(second),
        next2 is Some ==> call_ensures(Executor::shutdown, (third, (next2->0).1), next3),
        *old(fourth) == *final(third),
        next3 is Some ==> call_ensures(Executor::shutdown, (fourth, (next3->0).1), next4),
    ensures
        next1 is Some && (next1->0).0 == Command::StopLoadBalancer,
        final(first)@.is_shutdown == old(first)@.is_shutdown,
        next2 is Some && (next2->0).0 == Command::WakeAll,
        final(second)@.is_shutdown,
        next3 is Some && (next3->0).0 == (Command::WakeTimerWheel { delay_nanos: 0 }),
        final(third)@.is_shutdown,
        next4 is None,
        final(fourth)@.is_shutdown,
{
}

/// No stage of a shutdown takes an earlier one back, starts or ends a vCPU, or changes how
/// many there are, and only one of the stages makes the executor count as shut down.
pub proof fn lemma_shutdown_changes_nothing_else(
    executor: &mut Executor,
    stage: ShutdownStage,
    next: Option<(Command, ShutdownStage)>,
)
    requires
        call_ensures(Executor::shutdown, (executor, stage), next),
    ensures
        final(executor)@.num_vcpus == old(executor)@.num_vcpus,
        final(executor)@.started_vcpus == old(executor)@.started_vcpus,
        final(executor)@.running_vcpus == old(executor)@.running_vcpus,
        final(executor)@.is_shutdown <==> old(executor)@.is_shutdown || stage
            == ShutdownStage::LoadBalancerStopped,
        next is None <==> stage == ShutdownStage::Done,
        next is Some ==> (next->0).1 != stage && (next->0).1 != ShutdownStage::Begin,
{
}

/// The load balancer is started by one command and stopped by the other.
pub proof fn lemma_load_balancer_commands(executor: &Executor, start: Command, stop: Command)
    requires
        call_ensures(Executor::start_load_balancer, (executor,), start),
        call_ensures(Executor::stop_load_balancer, (executor,), stop),
    ensures
        start == Command::StartLoadBalancer,
        stop == Command::StopLoadBalancer,
{
}

/// The runtime's executor, when it comes into being, has as many vCPUs as there are in total.
/// None of them has been started or is running, and the executor is not shut down.
pub proof fn lemma_runtime_executor_is_fresh_at_first(
    lazy: &mut LazyExecutor,
    vcpus: &mut TotalVcpus,
    executor: &mut Executor,
)
    requires
        call_ensures(LazyExecutor::new, (), *old(lazy)),
        call_ensures(LazyExecutor::force, (lazy, vcpus), executor),
    ensures
        old(executor)@.num_vcpus == old(vcpus).total(),
        old(executor)@.started_vcpus == 0,
        old(executor)@.running_vcpus == 0,
        !old(executor)@.is_shutdown,
{
}

/// The runtime's executor is one and the same whenever it is used: it is found as it was left
/// by who used it before, and using it settles the total number of vCPUs without changing it.
pub proof fn lemma_runtime_executor_is_found_as_it_was_left(
    lazy: &mut LazyExecutor,
    vcpus: &mut TotalVcpus,
    executor: &mut Executor,
    lazy_later: &mut LazyExecutor,
    vcpus_later: &mut TotalVcpus,
    executor_later: &mut Executor,
)
    requires
        call_ensures(LazyExecutor::force, (lazy, vcpus), executor),
        *old(lazy_later) == *final(lazy),
        call_ensures(LazyExecutor::force, (lazy_later, vcpus_later), executor_later),
    ensures
        old(executor_later)@ == final(executor)@,
        old(lazy)@ is Some ==> old(executor)@ == old(lazy)@->0,
        final(lazy)@ == Some(final(executor)@),
        final(vcpus).is_settled(),
        final(vcpus).total() == old(vcpus).total(),
{
}

/// On a runtime that has not been used yet, a task that is woken up is scheduled.
pub proof fn lemma_runtime_wakes_tasks_from_its_first_use_on<T>(
    lazy: &mut LazyExecutor,
    vcpus: &mut TotalVcpus,
    executor: &mut Executor,
    task: T,
    current: &CurrentVcpu,
    woken: Option<Enqueue<T>>,
)
    requires
        call_ensures(LazyExecutor::new, (), *old(lazy)),
        call_ensures(LazyExecutor::force, (lazy, vcpus), executor),
        call_ensures(Executor::wake_task::<T>, (&*old(executor), task, current), woken),
    ensures
        woken == Some(Enqueue { task, vcpu: current@ }),
{
}

/// To ask the runtime for the number of its vCPUs is to ask the executor that it holds, or
/// else a fresh one with the total number of vCPUs, which is kept as it is.
pub proof fn lemma_runtime_asks_its_executor(
    lazy: &mut LazyExecutor,
    vcpus: &mut TotalVcpus,
    before: ExecutorState,
    num: u32,
)
    requires
        old(lazy)@ is None ==> {
            &&& before.num_vcpus == old(vcpus).total()
            &&& before.started_vcpus == 0
            &&& before.running_vcpus == 0
            &&& !before.is_shutdown
        },
        old(lazy)@ is Some ==> before == old(lazy)@->0,
        call_ensures(num_vcpus, (lazy, vcpus), num),
    ensures
        num == before.num_vcpus,
        final(lazy)@ == Some(before),
        final(vcpus).is_settled(),
        final(vcpus).total() == old(vcpus).total(),
{
}

/// To start a vCPU of the runtime is to start one of the executor that it holds, or else of a
/// fresh one with the total number of vCPUs: the first vCPU has ID 0, and each that is started
/// later has the next ID. This does not shut the runtime down.
pub proof fn lemma_runtime_starts_vcpus_of_its_executor(
    lazy: &mut LazyExecutor,
    vcpus: &mut TotalVcpus,
    before: ExecutorState,
    current: &mut CurrentVcpu,
    run: VcpuRun,
)
    requires
        old(lazy)@ is None ==> {
            &&& before.num_vcpus == old(vcpus).total()
            &&& before.started_vcpus == 0
            &&& before.running_vcpus == 0
            &&& !before.is_shutdown
        },
        old(lazy)@ is Some ==> before == old(lazy)@->0,
        before.running_vcpus <= before.started_vcpus < before.num_vcpus,
        call_ensures(run_tasks, (lazy, vcpus, current), run),
    ensures
        run@ == before.started_vcpus,
        final(current)@ == Some(run@),
        final(lazy)@ is Some,
        final(lazy)@->0.num_vcpus == before.num_vcpus,
        final(lazy)@->0.started_vcpus == before.started_vcpus + 1,
        final(lazy)@->0.running_vcpus == before.running_vcpus + 1,
        final(lazy)@->0.is_shutdown == before.is_shutdown,
        final(vcpus).is_settled(),
        final(vcpus).total() == old(vcpus).total(),
{
}

/// To shut the runtime down is to shut down the executor that it holds, or else a fresh one
/// with the total number of vCPUs. The runtime counts as shut down only once a stage of the
/// shutdown has been gone through, and its vCPUs are left alone.
pub proof fn lemma_runtime_shuts_its_executor_down(
    lazy: &mut LazyExecutor,
    vcpus: &mut TotalVcpus,
    before: ExecutorState,
    stage: ShutdownStage,
    next: Option<(Command, ShutdownStage)>,
)
    requires
        old(lazy)@ is None ==> {
            &&& before.num_vcpus == old(vcpus).total()
            &&& before.started_vcpus == 0
            &&& before.running_vcpus == 0
            &&& !before.is_shutdown
        },
        old(lazy)@ is Some ==> before == old(lazy)@->0,
        call_ensures(shutdown, (lazy, vcpus, stage), next),
    ensures
        final(lazy)@ is Some,
        final(lazy)@->0.num_vcpus == before.num_vcpus,
        final(lazy)@->0.started_vcpus == before.started_vcpus,
        final(lazy)@->0.running_vcpus == before.running_vcpus,
        final(lazy)@->0.is_shutdown <==> before.is_shutdown || stage
            == ShutdownStage::LoadBalancerStopped,
        final(vcpus).is_settled(),
        final(vcpus).total() == old(vcpus).total(),
{
}

/// What the runtime is told to do at a stage of its shutdown is what its executor is told.
pub proof fn lemma_runtime_shutdown_is_that_of_its_executor(
    lazy: &mut LazyExecutor,
    vcpus: &mut TotalVcpus,
    executor: &mut Executor,
    stage: ShutdownStage,
    next: Option<(Command, ShutdownStage)>,
    next_of_executor: Option<(Command, ShutdownStage)>,
)
    requires
        call_ensures(shutdown, (lazy, vcpus, stage), next),
        call_ensures(Executor::shutdown, (executor, stage), next_of_executor),
    ensures
        next == next_of_executor,
{
}

/// A new task can be polled. It can be again where it is not completed, and its future is then
/// as polling has left it. Where it is completed, its future is gone for good.
pub proof fn lemma_future_is_kept_until_completed<F, T>(
    future: F,
    slot: &mut FutureSlot<F>,
    polled: Option<&mut F>,
    after_poll: &mut FutureSlot<F>,
    is_ready: bool,
    later: &FutureSlot<F>,
    task: T,
    event: RunEvent<T>,
    event_later: RunEvent<T>,
)
    requires
        call_ensures(FutureSlot::<F>::new, (future,), *old(slot)),
        call_ensures(FutureSlot::<F>::locked::<T>, (&*old(slot), task), event),
        call_ensures(FutureSlot::<F>::future, (slot,), polled),
        *old(after_poll) == *final(slot),
        call_ensures(FutureSlot::<F>::end_poll, (after_poll, is_ready), ()),
        *later == *final(after_poll),
        call_ensures(FutureSlot::<F>::locked::<T>, (later, task), event_later),
    ensures
        event == RunEvent::FutureLocked(task),
        polled is Some && *polled->0 == future,
        is_ready ==> event_later == RunEvent::<T>::FutureGone && later@ is None,
        !is_ready ==> event_later == RunEvent::FutureLocked(task) && later@ == Some(
            *final(polled->0),
        ),
{
}

/// A future that is gone does not come back, whatever is done with its slot.
pub proof fn lemma_gone_future_stays_gone<F, T>(
    slot: &mut FutureSlot<F>,
    polled: Option<&mut F>,
    drop_future: bool,
    later: &FutureSlot<F>,
    task: T,
    event: RunEvent<T>,
)
    requires
        old(slot)@ is None,
        call_ensures(FutureSlot::<F>::future, (slot,), polled) || call_ensures(
            FutureSlot::<F>::end_poll,
            (slot, drop_future),
            (),
        ),
        *later == *final(slot),
        call_ensures(FutureSlot::<F>::locked::<T>, (later, task), event),
    ensures
        event == RunEvent::<T>::FutureGone,
        call_ensures(FutureSlot::<F>::future, (slot,), polled) ==> polled is None,
{
}

} // verus!
