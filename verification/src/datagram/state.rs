//! The state of a receiver, and what becomes of it.
use vstd::prelude::*;

use crate::datagram::buffers;
use crate::datagram::flags::{RecvFlags, MSG_PEEK, MSG_TRUNC};
use crate::datagram::sockaddr::SOCKADDR_STORAGE_SIZE;
use crate::errno::{Errno, EAGAIN, EINVAL, EWOULDBLOCK};

verus! {

/// The memory that the host fills when it receives a datagram, as the host has left it.
pub struct HostMemory<'a> {
    /// The receive buffer.
    pub recv_buf: &'a [u8],
    /// The buffer for ancillary data.
    pub msg_control: &'a [u8],
    /// The length of the ancillary data, as the host reports it.
    pub msg_controllen: usize,
}

/// A request to the host to receive a datagram.
#[derive(Debug, Clone, Copy, PartialEq, Eq, Structural)]
pub struct RecvReq {
    /// The number of buffers.
    pub iov_count: usize,
    /// The length of the only buffer.
    pub iov_len: usize,
    /// The room for the sender's address.
    pub name_len: usize,
    /// The room for ancillary data.
    pub control_len: usize,
    /// The flags of the request.
    pub flags: u32,
}

/// The events that a socket reports to those who poll it.
#[derive(Debug, Clone, Copy, PartialEq, Eq, Structural)]
pub enum PollEvents {
    /// There is something to be received.
    Readable,
    /// There is an error.
    Failed,
}

/// What comes of an attempt to receive a datagram.
#[derive(Debug)]
pub struct Attempt<A> {
    /// The number of bytes, the sender's address and the flags of what was received.
    pub result: Result<(usize, Option<A>, i32), Errno>,
    /// Whether the socket no longer counts as readable.
    pub clears_in: bool,
    /// What is to be requested from the host.
    pub request: Option<RecvReq>,
}

/// The state of a receiver.
pub struct InnerState {
    /// The length of the receive buffer.
    pub buf_len: usize,
    /// The length of the buffer for ancillary data.
    pub control_len: usize,
    /// The length of the datagram in the receive buffer, if there is one. It can be 0:
    /// zero-length datagrams are permitted.
    pub recv_len: Option<usize>,
    /// The error that the host has reported.
    pub error: Option<Errno>,
    /// Whether the host has a request that is not completed yet.
    pub in_flight: bool,
    /// Whether the receiver has been shut down.
    pub is_shutdown: bool,
}

impl InnerState {
    /// At most one of these holds: a request is in flight, a datagram is pending, an error is
    /// pending.
    pub open spec fn wf(self) -> bool {
        &&& self.in_flight ==> self.recv_len is None && self.error is None
        &&& !(self.recv_len is Some && self.error is Some)
    }

    /// A receiver that has received nothing yet.
    pub open spec fn initial(buf_len: usize, control_len: usize) -> InnerState {
        InnerState {
            buf_len,
            control_len,
            recv_len: None,
            error: None,
            in_flight: false,
            is_shutdown: false,
        }
    }

    /// The request that the host is given.
    pub open spec fn recv_req(self) -> RecvReq {
        RecvReq {
            iov_count: 1,
            iov_len: self.buf_len,
            name_len: SOCKADDR_STORAGE_SIZE,
            control_len: self.control_len,
            flags: 0,
        }
    }

    /// What becomes of the state where the next datagram is to be received: unless the socket
    /// is closed or a request is in flight, datagram and error are forgotten, and a request
    /// is made unless the receiver has been shut down.
    pub open spec fn after_do_recv(self, is_closed: bool) -> InnerState {
        if self.in_flight || is_closed {
            self
        } else {
            InnerState {
                recv_len: None,
                error: None,
                in_flight: !self.is_shutdown,
                ..self
            }
        }
    }

    /// The request that is made where the next datagram is to be received.
    pub open spec fn do_recv_request(self, is_closed: bool) -> Option<RecvReq> {
        if self.in_flight || is_closed || self.is_shutdown {
            None
        } else {
            Some(self.recv_req())
        }
    }

    /// What becomes of the state where the host completes a request: it reports the length
    /// of a datagram, or an error as a negative number.
    pub open spec fn after_complete(self, retval: i32) -> InnerState {
        if retval < 0 {
            InnerState { error: Some(Errno { code: (-retval) as u32 }), in_flight: false, ..self }
        } else {
            InnerState { recv_len: Some(retval as usize), in_flight: false, ..self }
        }
    }

    /// Whether an attempt to receive with these flags makes ready for the next datagram.
    pub open spec fn attempt_does_recv(self, flags: RecvFlags) -> bool {
        flags.is_supported() && if self.recv_len is Some {
            !flags.has(MSG_PEEK)
        } else {
            self.error is Some || !self.is_shutdown
        }
    }

    /// What becomes of the state in an attempt to receive with these flags.
    pub open spec fn after_attempt(self, flags: RecvFlags, is_closed: bool) -> InnerState {
        if self.attempt_does_recv(flags) {
            self.after_do_recv(is_closed)
        } else {
            self
        }
    }

    /// The request that is made in an attempt to receive with these flags.
    pub open spec fn attempt_request(self, flags: RecvFlags, is_closed: bool) -> Option<RecvReq> {
        if self.attempt_does_recv(flags) {
            self.do_recv_request(is_closed)
        } else {
            None
        }
    }

    /// The result of an attempt to receive with these flags into buffers with room for
    /// `room` bytes.
    pub open spec fn attempt_result<A>(
        self,
        flags: RecvFlags,
        room: int,
        addr: Option<A>,
    ) -> Result<(usize, Option<A>, i32), Errno> {
        if !flags.is_supported() {
            Err(Errno { code: EINVAL })
        } else if let Some(recv_len) = self.recv_len {
            let len = if flags.has(MSG_TRUNC) {
                recv_len
            } else {
                buffers::min(recv_len as int, room) as usize
            };
            let msg_flags = if room < recv_len {
                MSG_TRUNC
            } else {
                flags.bits
            };
            Ok((len, addr, msg_flags))
        } else if let Some(error) = self.error {
            Err(error)
        } else if self.is_shutdown {
            Err(Errno { code: EWOULDBLOCK })
        } else {
            Err(Errno { code: EAGAIN })
        }
    }
}

/// The address of the sender: there is none if the socket is connected, or if what came of
/// reading it from the host's memory is an error.
pub open spec fn packet_addr<A, E>(parsed: Result<A, E>, is_connected: bool) -> Option<A> {
    if is_connected {
        None
    } else {
        parsed.ok()
    }
}

/// The bytes in a buffer for ancillary data, where there is one.
pub open spec fn held(control: Option<&mut [u8]>) -> Option<Seq<u8>> {
    match control {
        Some(buf) => Some(buf@),
        None => None,
    }
}

/// The bytes in a buffer for ancillary data once it has been filled from the host's memory.
/// It is filled to its end where the host reports ancillary data, and else left as it is.
pub open spec fn filled(control: Option<Seq<u8>>, memory: HostMemory) -> Option<Seq<u8>> {
    match control {
        Some(buf) => Some(
            if memory.msg_controllen > 0 {
                memory.msg_control@.take(buf.len() as int)
            } else {
                buf
            },
        ),
        None => None,
    }
}

/// At most one request is in flight, and no operation leaves more than one thing pending.
pub proof fn lemma_requests_are_single(
    state: InnerState,
    flags: RecvFlags,
    is_closed: bool,
    retval: i32,
)
    requires
        state.wf(),
    ensures
        state.after_do_recv(is_closed).wf(),
        state.after_attempt(flags, is_closed).wf(),
        state.in_flight ==> state.after_complete(retval).wf(),
        state.attempt_request(flags, is_closed) is Some ==> !state.in_flight
            && state.after_attempt(flags, is_closed).in_flight,
        state.attempt_request(flags, is_closed) is None ==> state.after_attempt(
            flags,
            is_closed,
        ).in_flight == state.in_flight,
        !state.after_complete(retval).in_flight,
{
}

/// Neither a closed socket nor one that has been shut down requests anything.
pub proof fn lemma_no_request_after_shutdown(state: InnerState, flags: RecvFlags, is_closed: bool)
    requires
        state.is_shutdown || is_closed,
    ensures
        state.do_recv_request(is_closed) is None,
        state.attempt_request(flags, is_closed) is None,
{
}

/// The datagram whose length the host reports is the one that the next attempt receives. A
/// datagram of length 0 is received like any other.
pub proof fn lemma_completed_datagram_is_received<A>(
    state: InnerState,
    retval: i32,
    flags: RecvFlags,
    room: int,
    addr: Option<A>,
)
    requires
        retval >= 0,
        flags.is_supported(),
        room >= 0,
    ensures
        ({
            let len = if flags.has(MSG_TRUNC) || retval <= room {
                retval as int
            } else {
                room
            };
            let msg_flags = if room < retval {
                MSG_TRUNC
            } else {
                flags.bits
            };
            state.after_complete(retval).attempt_result(flags, room, addr) == Ok::<
                (usize, Option<A>, i32),
                Errno,
            >((len as usize, addr, msg_flags))
        }),
{
}

/// The error that the host reports is the one that the next attempt returns.
pub proof fn lemma_completed_error_is_returned<A>(
    state: InnerState,
    retval: i32,
    flags: RecvFlags,
    room: int,
    addr: Option<A>,
)
    requires
        state.wf(),
        state.in_flight,
        i32::MIN < retval < 0,
        flags.is_supported(),
    ensures
        state.after_complete(retval).attempt_result(flags, room, addr) == Err::<
            (usize, Option<A>, i32),
            Errno,
        >(Errno { code: (-retval) as u32 }),
{
}

/// A datagram that is only peeked at can be received again: the attempt changes nothing and
/// requests nothing.
pub proof fn lemma_peek_changes_nothing(state: InnerState, flags: RecvFlags, is_closed: bool)
    requires
        state.recv_len is Some,
        flags.has(MSG_PEEK),
    ensures
        state.after_attempt(flags, is_closed) == state,
        state.attempt_request(flags, is_closed) is None,
{
}

/// A datagram that is received without peeking is gone: unless the socket is closed, an
/// attempt that follows, before the host has completed another request, finds none.
pub proof fn lemma_datagram_is_received_once<A>(
    state: InnerState,
    flags: RecvFlags,
    flags2: RecvFlags,
    room: int,
    addr: Option<A>,
)
    requires
        state.wf(),
        state.recv_len is Some,
        flags.is_supported(),
        !flags.has(MSG_PEEK),
        flags2.is_supported(),
    ensures
        state.after_attempt(flags, false).recv_len is None,
        state.after_attempt(flags, false).attempt_result(flags2, room, addr) == Err::<
            (usize, Option<A>, i32),
            Errno,
        >(Errno { code: EAGAIN }),
{
}

/// An error is returned once: unless the socket is closed, an attempt that follows, before
/// the host has completed another request, finds neither it nor a datagram.
pub proof fn lemma_error_is_returned_once<A>(
    state: InnerState,
    flags: RecvFlags,
    flags2: RecvFlags,
    room: int,
    addr: Option<A>,
)
    requires
        state.wf(),
        state.recv_len is None,
        state.error is Some,
        flags.is_supported(),
        flags2.is_supported(),
    ensures
        state.after_attempt(flags, false).attempt_result(flags2, room, addr) == Err::<
            (usize, Option<A>, i32),
            Errno,
        >(Errno { code: EAGAIN }),
{
}

/// An attempt with unsupported flags changes nothing and requests nothing.
pub proof fn lemma_unsupported_flags_change_nothing(
    state: InnerState,
    flags: RecvFlags,
    is_closed: bool,
)
    requires
        !flags.is_supported(),
    ensures
        state.after_attempt(flags, is_closed) == state,
        state.attempt_request(flags, is_closed) is None,
{
}

/// Something that happens to a receiver.
pub enum Operation {
    /// The next datagram is to be received.
    DoRecv { is_closed: bool },
    /// An attempt to receive.
    Attempt { flags: RecvFlags, is_closed: bool },
    /// The host completes a request.
    Complete { retval: i32 },
    /// The receiver is shut down, or this is taken back.
    SetShutdown { is_shutdown: bool },
}

/// What becomes of the state by an operation.
pub open spec fn after_operation(state: InnerState, operation: Operation) -> InnerState {
    match operation {
        Operation::DoRecv { is_closed } => state.after_do_recv(is_closed),
        Operation::Attempt { flags, is_closed } => state.after_attempt(flags, is_closed),
        Operation::Complete { retval } => state.after_complete(retval),
        Operation::SetShutdown { is_shutdown } => InnerState { is_shutdown, ..state },
    }
}

/// The state of a new receiver after these operations.
pub open spec fn replay(
    buf_len: usize,
    control_len: usize,
    operations: Seq<Operation>,
) -> InnerState
    decreases operations.len(),
{
    if operations.len() == 0 {
        InnerState::initial(buf_len, control_len)
    } else {
        after_operation(
            replay(buf_len, control_len, operations.drop_last()),
            operations.last(),
        )
    }
}

/// Whether the host completes only requests that are in flight.
pub open spec fn completes_requests(
    buf_len: usize,
    control_len: usize,
    operations: Seq<Operation>,
) -> bool {
    forall|i: int|
        0 <= i < operations.len() && (#[trigger] operations[i]) is Complete ==> replay(
            buf_len,
            control_len,
            operations.take(i),
        ).in_flight
}

/// Whatever is done with a receiver, at most one of these holds: a request is in flight, a
/// datagram is pending, an error is pending. So the host never fills the receive buffer while
/// the datagram in it is still to be received.
pub proof fn lemma_at_most_one_is_pending(
    buf_len: usize,
    control_len: usize,
    operations: Seq<Operation>,
)
    requires
        completes_requests(buf_len, control_len, operations),
    ensures
        ({
            let state = replay(buf_len, control_len, operations);
            &&& !(state.in_flight && state.recv_len is Some)
            &&& !(state.in_flight && state.error is Some)
            &&& !(state.recv_len is Some && state.error is Some)
        }),
    decreases operations.len(),
{
    if operations.len() > 0 {
        let front = operations.drop_last();
        let n = front.len() as int;
        assert forall|i: int| 0 <= i < front.len() && (#[trigger] front[i]) is Complete implies
            replay(buf_len, control_len, front.take(i)).in_flight by {
            assert(operations[i] is Complete);
            assert(front.take(i) =~= operations.take(i));
        }
        lemma_at_most_one_is_pending(buf_len, control_len, front);
        assert(operations.take(n) =~= front);
        assert(operations[n] is Complete ==> replay(buf_len, control_len, front).in_flight);
    }
}

} // verus!
