//! The course of a receive call.
use vstd::prelude::*;

use crate::datagram::flags::{RecvFlags, MSG_DONTWAIT, MSG_ERRQUEUE};
use crate::datagram::state::InnerState;
use crate::errno::{Errno, EAGAIN};

verus! {

/// What a receive call learns of the last action that it took.
#[derive(Debug)]
pub enum RecvEvent<A> {
    /// An attempt to receive had this result, on a socket that is nonblocking or not.
    Attempted { result: Result<(usize, Option<A>, i32), Errno>, is_nonblocking: bool },
    /// The socket was polled for readability; `is_empty` where it is not readable.
    Polled { is_empty: bool },
    /// The wait for the socket to become readable is over, or failed.
    WaitOver(Result<(), Errno>),
}

/// What a receive call does next.
#[derive(Debug)]
pub enum RecvAction<A> {
    /// Attempt to receive.
    Attempt,
    /// Poll the socket for readability, after connecting a new poller to it if `connect`.
    Poll { connect: bool },
    /// Wait until the poller sees the socket become readable.
    Wait,
    /// Return this result.
    Return(Result<(usize, Option<A>, i32), Errno>),
}

/// Whether a result is the error `code`.
pub open spec fn has_errno<T>(result: Result<T, Errno>, code: u32) -> bool {
    result matches Err(errno) && errno.code == code
}

/// Whether a receive call with these flags waits for data.
pub open spec fn waits(flags: RecvFlags, is_nonblocking: bool) -> bool {
    !is_nonblocking && !flags.has(MSG_DONTWAIT) && !flags.has(MSG_ERRQUEUE)
}

/// What a receive call does after an event, on a receiver that has been shut down or not.
pub open spec fn next_action<A>(
    flags: RecvFlags,
    has_poller: bool,
    is_shutdown: bool,
    event: RecvEvent<A>,
) -> RecvAction<A> {
    match event {
        RecvEvent::Attempted { result, is_nonblocking } => {
            if !has_errno(result, EAGAIN) {
                RecvAction::Return(result)
            } else if !waits(flags, is_nonblocking) {
                RecvAction::Return(Err(Errno { code: EAGAIN }))
            } else if is_shutdown {
                RecvAction::Return(Ok((0, None, flags.bits)))
            } else {
                RecvAction::Poll { connect: !has_poller }
            }
        },
        RecvEvent::Polled { is_empty } => if is_empty {
            RecvAction::Wait
        } else {
            RecvAction::Attempt
        },
        RecvEvent::WaitOver(Ok(())) => RecvAction::Attempt,
        RecvEvent::WaitOver(Err(errno)) => RecvAction::Return(Err(errno)),
    }
}

/// A receive call. It begins with an attempt to receive.
#[derive(Debug)]
pub struct RecvCall {
    /// The flags of the call.
    pub flags: RecvFlags,
    /// Whether the call has connected a poller to the socket.
    pub has_poller: bool,
}

impl RecvCall {
    /// A call with these flags.
    pub fn new(flags: RecvFlags) -> (call: Self)
        ensures
            call.flags == flags,
            !call.has_poller,
    {
        RecvCall { flags, has_poller: false }
    }
}

/// A call that waits for data does not return that there is none.
pub proof fn lemma_blocking_call_does_not_try_again<A>(
    flags: RecvFlags,
    has_poller: bool,
    is_shutdown: bool,
    result: Result<(usize, Option<A>, i32), Errno>,
    is_nonblocking: bool,
)
    requires
        waits(flags, is_nonblocking),
    ensures
        next_action(
            flags,
            has_poller,
            is_shutdown,
            RecvEvent::Attempted { result, is_nonblocking },
        ) matches RecvAction::Return(returned) ==> !has_errno(returned, EAGAIN),
{
}

/// A call that does not wait for data returns what came of its first attempt.
pub proof fn lemma_nonblocking_call_returns<A>(
    flags: RecvFlags,
    has_poller: bool,
    is_shutdown: bool,
    result: Result<(usize, Option<A>, i32), Errno>,
    is_nonblocking: bool,
)
    requires
        !waits(flags, is_nonblocking),
    ensures
        next_action(
            flags,
            has_poller,
            is_shutdown,
            RecvEvent::Attempted { result, is_nonblocking },
        ) == RecvAction::Return(result),
{
}

/// A call that would wait on a receiver that has been shut down returns at once that nothing
/// was received, and with its own flags.
pub proof fn lemma_shutdown_ends_call<A>(
    state: InnerState,
    flags: RecvFlags,
    has_poller: bool,
    room: int,
    addr: Option<A>,
)
    requires
        state.is_shutdown,
        state.recv_len is None,
        state.error is None,
        flags.is_supported(),
        waits(flags, false),
    ensures
        next_action(
            flags,
            has_poller,
            state.is_shutdown,
            RecvEvent::Attempted {
                result: state.attempt_result(flags, room, addr),
                is_nonblocking: false,
            },
        ) == RecvAction::<A>::Return(Ok((0, None, flags.bits))),
{
}

/// Whether a poller has been connected before the `i`-th event of a call; each event comes
/// with whether the receiver has been shut down when the event is taken note of.
pub open spec fn has_poller_at<A>(
    flags: RecvFlags,
    events: Seq<(RecvEvent<A>, bool)>,
    i: int,
) -> bool
    decreases i,
{
    if i <= 0 {
        false
    } else {
        let before = has_poller_at(flags, events, i - 1);
        before || next_action(flags, before, events[i - 1].1, events[i - 1].0) is Poll
    }
}

/// What a call does after the `i`-th of its events.
pub open spec fn action_at<A>(
    flags: RecvFlags,
    events: Seq<(RecvEvent<A>, bool)>,
    i: int,
) -> RecvAction<A> {
    next_action(flags, has_poller_at(flags, events, i), events[i].1, events[i].0)
}

/// Whether an event can follow an action.
pub open spec fn answers<A>(action: RecvAction<A>, event: RecvEvent<A>) -> bool {
    match action {
        RecvAction::Attempt => event is Attempted,
        RecvAction::Poll { .. } => event is Polled,
        RecvAction::Wait => event is WaitOver,
        RecvAction::Return(..) => false,
    }
}

/// Whether a call can see these events in a row, from its first attempt on.
pub open spec fn is_call<A>(flags: RecvFlags, events: Seq<(RecvEvent<A>, bool)>) -> bool {
    &&& events.len() > 0 ==> events[0].0 is Attempted
    &&& forall|i: int|
        0 < i < events.len() ==> answers(
            action_at(flags, events, i - 1),
            #[trigger] events[i].0,
        )
}

proof fn lemma_poller_stays<A>(
    flags: RecvFlags,
    events: Seq<(RecvEvent<A>, bool)>,
    i: int,
    j: int,
)
    requires
        0 <= i <= j,
        has_poller_at(flags, events, i),
    ensures
        has_poller_at(flags, events, j),
    decreases j - i,
{
    if i < j {
        lemma_poller_stays(flags, events, i, j - 1);
    }
}

/// A call connects a poller at most once, and it does so before it waits.
pub proof fn lemma_poller_is_connected_once<A>(
    flags: RecvFlags,
    events: Seq<(RecvEvent<A>, bool)>,
    i: int,
    j: int,
)
    requires
        is_call(flags, events),
        0 <= i < j < events.len(),
    ensures
        action_at(flags, events, i) == (RecvAction::<A>::Poll { connect: true }) ==> action_at(
            flags,
            events,
            j,
        ) != (RecvAction::<A>::Poll { connect: true }),
        action_at(flags, events, j) is Wait ==> has_poller_at(flags, events, j),
{
    if action_at(flags, events, i) == (RecvAction::<A>::Poll { connect: true }) {
        lemma_poller_stays(flags, events, i + 1, j);
    }
    assert(answers(action_at(flags, events, j - 1), events[j].0));
}

} // verus!
