//! The receiver of a datagram socket.
//!
//! A receiver decides; the requests to the host, the polling and the waiting are up to its
//! caller.
use vstd::prelude::*;

use crate::datagram::buffers;
use crate::datagram::call;
use crate::datagram::call::{RecvAction, RecvCall, RecvEvent};
use crate::datagram::flags::{RecvFlags, MSG_DONTWAIT, MSG_ERRQUEUE, MSG_PEEK, MSG_TRUNC};
use crate::datagram::sockaddr::sockaddr_storage_size;
use crate::datagram::state;
use crate::datagram::state::{Attempt, HostMemory, InnerState, PollEvents, RecvReq};
use crate::errno::{Errno, EAGAIN, EINVAL, EWOULDBLOCK};

verus! {

/// Copies ancillary data from the host's memory.
fn copy_control(control: &mut Option<&mut [u8]>, memory: &HostMemory)
    requires
        memory.msg_controllen > 0 && state::held(*old(control)) is Some
            ==> state::held(*old(control))->0.len() <= memory.msg_control@.len(),
    ensures
        state::held(*final(control)) == state::filled(state::held(*old(control)), *memory),
        *old(control) is Some ==> final((*final(control))->0)@ == final((*old(control))->0)@,
{
    if memory.msg_controllen > 0 {
        match control {
            Some(buf) => {
                let n: usize = buf.len();
                buffers::copy_to(buf, memory.msg_control, 0, n);
                assert(buf@ =~= memory.msg_control@.take(n as int));
            },
            None => {},
        }
    }
}

/// The state of a receiver. The memory that the host fills is not part of it.
#[derive(Debug)]
pub struct Inner {
    buf_len: usize,
    control_len: usize,
    recv_len: Option<usize>,
    error: Option<Errno>,
    in_flight: bool,
    is_shutdown: bool,
}

impl View for Inner {
    type V = InnerState;

    closed spec fn view(&self) -> InnerState {
        InnerState {
            buf_len: self.buf_len,
            control_len: self.control_len,
            recv_len: self.recv_len,
            error: self.error,
            in_flight: self.in_flight,
            is_shutdown: self.is_shutdown,
        }
    }
}

impl Inner {
    /// A receiver that has received nothing yet, with host memory of the given lengths.
    pub fn new(buf_len: usize, control_len: usize) -> (inner: Self)
        ensures
            inner@ == InnerState::initial(buf_len, control_len),
            inner@.wf(),
    {
        Inner {
            buf_len,
            control_len,
            recv_len: None,
            error: None,
            in_flight: false,
            is_shutdown: false,
        }
    }

    /// The request that the host is given: one buffer, with room for the sender's address
    /// and for ancillary data.
    pub fn new_recv_req(&self) -> (req: RecvReq)
        ensures
            req == self@.recv_req(),
    {
        RecvReq {
            iov_count: 1,
            iov_len: self.buf_len,
            name_len: sockaddr_storage_size(),
            control_len: self.control_len,
            flags: 0,
        }
    }

    /// Copies the datagram, if there is one, to the buffers, as far as they go. The result is
    /// the number of bytes that were copied.
    pub fn try_copy_buf(&self, memory: &HostMemory, bufs: &mut [&mut [u8]]) -> (copied: Option<
        usize,
    >)
        requires
            old(bufs)@.len() > 0 && self@.recv_len is Some ==> self@.recv_len->0
                <= memory.recv_buf@.len(),
        ensures
            match self@.recv_len {
                Some(recv_len) => {
                    &&& copied is Some
                    &&& copied->0 == buffers::min(
                        recv_len as int,
                        buffers::room(old(bufs)@) as int,
                    )
                    &&& buffers::is_scattered(
                        buffers::contents(old(bufs)@),
                        buffers::contents(final(bufs)@),
                        memory.recv_buf@,
                        copied->0 as int,
                    )
                    &&& forall|i: int|
                        0 <= i < old(bufs)@.len() ==> final(#[trigger] final(bufs)@[i])@
                            == final(old(bufs)@[i])@
                },
                None => copied is None && final(bufs)@ == old(bufs)@,
            },
    {
        match self.recv_len {
            Some(recv_len) => Some(buffers::scatter(bufs, memory.recv_buf, recv_len)),
            None => None,
        }
    }

    /// The length of the datagram in the receive buffer, if there is one.
    pub fn recv_len(&self) -> (recv_len: Option<usize>)
        ensures
            recv_len == self@.recv_len,
    {
        self.recv_len
    }

    /// The address of the sender, if the socket is not connected and the host's memory holds
    /// a valid one; `parsed` is what came of reading it. `None` if the socket is connected.
    pub fn get_packet_addr<A, E>(&self, parsed: Result<A, E>, is_connected: bool) -> (addr: Option<
        A,
    >)
        ensures
            addr == (if is_connected {
                None
            } else {
                parsed.ok()
            }),
    {
        if is_connected {
            None
        } else {
            parsed.ok()
        }
    }
}

/// The receiver of a datagram socket.
#[derive(Debug)]
pub struct Receiver {
    inner: Inner,
}

impl View for Receiver {
    type V = InnerState;

    closed spec fn view(&self) -> InnerState {
        self.inner@
    }
}

impl Receiver {
    /// A receiver that has received nothing yet, with host memory of the given lengths.
    pub fn new(buf_len: usize, control_len: usize) -> (receiver: Self)
        ensures
            receiver@ == InnerState::initial(buf_len, control_len),
            receiver@.wf(),
    {
        Receiver { inner: Inner::new(buf_len, control_len) }
    }

    /// Takes note of an event of a receive call and says what the call does next.
    pub fn recvmsg<A>(&self, call: &mut RecvCall, event: RecvEvent<A>) -> (action: RecvAction<A>)
        ensures
            action == call::next_action(
                old(call).flags,
                old(call).has_poller,
                self@.is_shutdown,
                event,
            ),
            final(call).flags == old(call).flags,
            final(call).has_poller == (old(call).has_poller || action is Poll),
    {
        match event {
            RecvEvent::Attempted { result, is_nonblocking } => {
                match result {
                    Err(errno) => if errno.code != EAGAIN {
                        return RecvAction::Return(Err(errno));
                    },
                    Ok(received) => {
                        return RecvAction::Return(Ok(received));
                    },
                }
                if is_nonblocking || call.flags.contains(MSG_DONTWAIT) || call.flags.contains(
                    MSG_ERRQUEUE,
                ) {
                    return RecvAction::Return(Err(Errno { code: EAGAIN }));
                }
                if self.is_shutdown() {
                    return RecvAction::Return(Ok((0, None, call.flags.bits())));
                }
                let connect = !call.has_poller;
                call.has_poller = true;
                RecvAction::Poll { connect }
            },
            RecvEvent::Polled { is_empty } => if is_empty {
                RecvAction::Wait
            } else {
                RecvAction::Attempt
            },
            RecvEvent::WaitOver(Ok(())) => RecvAction::Attempt,
            RecvEvent::WaitOver(Err(errno)) => RecvAction::Return(Err(errno)),
        }
    }

    /// Makes ready to receive the next datagram. The result is what is to be requested from
    /// the host.
    pub fn do_recv(&mut self, is_closed: bool) -> (request: Option<RecvReq>)
        ensures
            final(self)@ == old(self)@.after_do_recv(is_closed),
            old(self)@.wf() ==> final(self)@.wf(),
            request == old(self)@.do_recv_request(is_closed),
    {
        if self.inner.in_flight || is_closed {
            return None;
        }
        self.inner.recv_len = None;
        self.inner.error = None;
        if self.inner.is_shutdown {
            return None;
        }
        let request = self.inner.new_recv_req();
        self.inner.in_flight = true;
        Some(request)
    }

    /// Takes note that the host has completed the request. The result is the event that the
    /// socket reports from now on.
    pub fn complete(&mut self, retval: i32) -> (events: PollEvents)
        requires
            retval != i32::MIN,
        ensures
            final(self)@ == old(self)@.after_complete(retval),
            old(self)@.wf() && old(self)@.in_flight ==> final(self)@.wf(),
            events == (if retval < 0 {
                PollEvents::Failed
            } else {
                PollEvents::Readable
            }),
    {
        self.inner.in_flight = false;
        if retval < 0 {
            self.inner.error = Some(Errno::from((-retval) as u32));
            return PollEvents::Failed;
        }
        self.inner.recv_len = Some(retval as usize);
        // The next datagram is not requested here, since that would clear this one.
        PollEvents::Readable
    }

    /// Attempts to receive a datagram, on a socket that is connected or not, and closed or
    /// not; `parsed` is what came of reading the sender's address from the host's memory.
    pub fn try_recvmsg<A, E>(
        &mut self,
        bufs: &mut [&mut [u8]],
        flags: RecvFlags,
        control: &mut Option<&mut [u8]>,
        memory: &HostMemory,
        parsed: Result<A, E>,
        is_connected: bool,
        is_closed: bool,
    ) -> (attempt: Attempt<A>)
        requires
            flags.is_supported() && old(self)@.recv_len is Some ==> {
                &&& old(bufs)@.len() > 0 ==> old(self)@.recv_len->0 <= memory.recv_buf@.len()
                &&& buffers::room(old(bufs)@) <= usize::MAX
                &&& memory.msg_controllen > 0 && state::held(*old(control)) is Some
                    ==> state::held(*old(control))->0.len() <= memory.msg_control@.len()
            },
        ensures
            attempt.result == old(self)@.attempt_result(
                flags,
                buffers::room(old(bufs)@) as int,
                state::packet_addr(parsed, is_connected),
            ),
            attempt.clears_in == flags.is_supported(),
            attempt.request == old(self)@.attempt_request(flags, is_closed),
            final(self)@ == old(self)@.after_attempt(flags, is_closed),
            old(self)@.wf() ==> final(self)@.wf(),
            if flags.is_supported() && old(self)@.recv_len is Some {
                &&& buffers::is_scattered(
                    buffers::contents(old(bufs)@),
                    buffers::contents(final(bufs)@),
                    memory.recv_buf@,
                    buffers::min(
                        old(self)@.recv_len->0 as int,
                        buffers::room(old(bufs)@) as int,
                    ),
                )
                &&& forall|i: int|
                    0 <= i < old(bufs)@.len() ==> final(#[trigger] final(bufs)@[i])@
                        == final(old(bufs)@[i])@
                &&& state::held(*final(control)) == state::filled(
                    state::held(*old(control)),
                    *memory,
                )
                &&& *old(control) is Some ==> final((*final(control))->0)@
                    == final((*old(control))->0)@
            } else {
                final(bufs)@ == old(bufs)@ && *final(control) == *old(control)
            },
    {
        if flags.has_unsupported() {
            return Attempt {
                result: Err(Errno { code: EINVAL }),
                clears_in: false,
                request: None,
            };
        }
        let copied = self.inner.try_copy_buf(memory, bufs);
        if let (Some(copied), Some(recv_len)) = (copied, self.inner.recv_len) {
            let recv_addr = self.inner.get_packet_addr(parsed, is_connected);
            copy_control(control, memory);
            let bufs_len: usize = buffers::total_len(bufs);
            let msg_flags: i32 = if bufs_len < recv_len {
                MSG_TRUNC
            } else {
                flags.bits()
            };
            let recv_bytes: usize = if flags.contains(MSG_TRUNC) {
                recv_len
            } else {
                copied
            };
            // A datagram that is only peeked at stays in the receive buffer, which the next
            // request would flush.
            let request = if flags.contains(MSG_PEEK) {
                None
            } else {
                self.do_recv(is_closed)
            };
            return Attempt {
                result: Ok((recv_bytes, recv_addr, msg_flags)),
                clears_in: true,
                request,
            };
        }
        if let Some(errno) = self.inner.error {
            let request = self.do_recv(is_closed);
            return Attempt { result: Err(errno), clears_in: true, request };
        }
        if self.inner.is_shutdown {
            return Attempt {
                result: Err(Errno { code: EWOULDBLOCK }),
                clears_in: true,
                request: None,
            };
        }
        let request = self.do_recv(is_closed);
        Attempt { result: Err(Errno { code: EAGAIN }), clears_in: true, request }
    }

    /// Makes ready to receive the first datagram. The result is what is to be requested from
    /// the host.
    pub fn initiate_async_recv(&mut self, is_closed: bool) -> (request: Option<RecvReq>)
        ensures
            final(self)@ == old(self)@.after_do_recv(is_closed),
            old(self)@.wf() ==> final(self)@.wf(),
            request == old(self)@.do_recv_request(is_closed),
    {
        self.do_recv(is_closed)
    }

    /// Whether there is a request to be cancelled.
    pub fn cancel_requests(&self) -> (cancel: bool)
        ensures
            cancel == self@.in_flight,
    {
        self.inner.in_flight
    }

    /// Shuts the receiver down.
    pub fn shutdown(&mut self)
        ensures
            final(self)@ == (InnerState { is_shutdown: true, ..old(self)@ }),
    {
        self.inner.is_shutdown = true;
    }

    /// Takes the shutdown of the receiver back.
    pub fn reset_shutdown(&mut self)
        ensures
            final(self)@ == (InnerState { is_shutdown: false, ..old(self)@ }),
    {
        self.inner.is_shutdown = false;
    }

    /// Whether the receiver has been shut down.
    pub fn is_shutdown(&self) -> (is_shutdown: bool)
        ensures
            is_shutdown == self@.is_shutdown,
    {
        self.inner.is_shutdown
    }

    /// The number of bytes that are ready to be received.
    pub fn ready_len(&self) -> (len: usize)
        ensures
            len == (match self@.recv_len {
                Some(recv_len) => recv_len,
                None => 0,
            }),
    {
        self.inner.recv_len().unwrap_or(0)
    }

    /// The length of the datagram that is ready to be received, if there is one.
    pub fn recv_len(&self) -> (recv_len: Option<usize>)
        ensures
            recv_len == self@.recv_len,
    {
        self.inner.recv_len()
    }
}

/// Every result of an attempt but "try again" ends the call, and is what the call returns:
/// whether the call waits or not, whether it has polled before, and whether the receiver has
/// been shut down.
pub proof fn lemma_call_returns_what_was_received<A>(
    receiver: &Receiver,
    call: &mut RecvCall,
    result: Result<(usize, Option<A>, i32), Errno>,
    is_nonblocking: bool,
    action: RecvAction<A>,
)
    requires
        result is Ok || result->Err_0.code != 11,
        call_ensures(
            Receiver::recvmsg::<A>,
            (receiver, call, RecvEvent::Attempted { result, is_nonblocking }),
            action,
        ),
    ensures
        action == RecvAction::Return(result),
{
}

/// A call on a nonblocking socket, or with a flag not to wait or to receive errors, ends after
/// its first attempt, and returns the result of it, even if that is "try again".
pub proof fn lemma_call_that_does_not_wait_ends_at_once<A>(
    receiver: &Receiver,
    call: &mut RecvCall,
    result: Result<(usize, Option<A>, i32), Errno>,
    is_nonblocking: bool,
    action: RecvAction<A>,
)
    requires
        ({
            ||| is_nonblocking
            ||| old(call).flags.bits & 0x40 != 0
            ||| old(call).flags.bits & 0x2000 != 0
        }),
        call_ensures(
            Receiver::recvmsg::<A>,
            (receiver, call, RecvEvent::Attempted { result, is_nonblocking }),
            action,
        ),
    ensures
        action == RecvAction::Return(result),
{
    let bits = old(call).flags.bits;
    assert(bits & 0x40i32 != 0 ==> bits & 0x40i32 == 0x40i32) by (bit_vector);
    assert(bits & 0x2000i32 != 0 ==> bits & 0x2000i32 == 0x2000i32) by (bit_vector);
}

/// A call that waits polls where there is nothing to be received yet. Only on a receiver that
/// has been shut down it returns instead, with no bytes, no sender and its own flags.
pub proof fn lemma_call_that_waits_polls_until_shutdown<A>(
    receiver: &Receiver,
    is_shutdown: bool,
    call: &mut RecvCall,
    code: u32,
    action: RecvAction<A>,
)
    requires
        code == 11,
        old(call).flags.bits & 0x40 == 0,
        old(call).flags.bits & 0x2000 == 0,
        call_ensures(Receiver::is_shutdown, (receiver,), is_shutdown),
        call_ensures(
            Receiver::recvmsg::<A>,
            (
                receiver,
                call,
                (RecvEvent::Attempted { result: Err(Errno { code }), is_nonblocking: false }),
            ),
            action,
        ),
    ensures
        is_shutdown ==> action == RecvAction::<A>::Return(Ok((0, None, old(call).flags.bits))),
        !is_shutdown ==> action is Poll,
{
}

/// A call waits exactly where it finds the socket not readable, and attempts to receive again
/// exactly where it finds it readable or has waited. Where the wait fails, the call ends with
/// that very error.
pub proof fn lemma_call_waits_where_nothing_is_readable<A>(
    receiver: &Receiver,
    call: &mut RecvCall,
    event: RecvEvent<A>,
    action: RecvAction<A>,
    errno: Errno,
)
    requires
        call_ensures(Receiver::recvmsg::<A>, (receiver, call, event), action),
    ensures
        action is Wait <==> event == (RecvEvent::<A>::Polled { is_empty: true }),
        action is Attempt <==> event == (RecvEvent::<A>::Polled { is_empty: false }) || (event
            is WaitOver && event->WaitOver_0 is Ok),
        event == RecvEvent::<A>::WaitOver(Err(errno)) ==> action == RecvAction::<A>::Return(
            Err(errno),
        ),
        action is Poll ==> event is Attempted,
        action is Return ==> event is Attempted || event is WaitOver,
{
}

/// A new call connects a poller when it polls for the first time, and not again later; its
/// flags stay as they are. A call that does not poll connects none.
pub proof fn lemma_call_connects_its_poller_when_it_first_polls<A>(
    flags: RecvFlags,
    receiver: &Receiver,
    call: &mut RecvCall,
    event: RecvEvent<A>,
    action: RecvAction<A>,
    call_later: &mut RecvCall,
    event_later: RecvEvent<A>,
    action_later: RecvAction<A>,
)
    requires
        call_ensures(RecvCall::new, (flags,), *old(call)),
        call_ensures(Receiver::recvmsg::<A>, (receiver, call, event), action),
        *old(call_later) == *final(call),
        call_ensures(
            Receiver::recvmsg::<A>,
            (receiver, call_later, event_later),
            action_later,
        ),
    ensures
        old(call).flags == flags,
        final(call_later).flags == flags,
        action matches RecvAction::Poll { connect } ==> connect,
        action_later matches RecvAction::Poll { connect } ==> connect == !(action is Poll),
{
}

/// Whatever happens in a call, its flags stay, and a poller that is connected stays connected.
pub proof fn lemma_call_keeps_its_flags_and_poller<A>(
    receiver: &Receiver,
    call: &mut RecvCall,
    event: RecvEvent<A>,
    action: RecvAction<A>,
)
    requires
        call_ensures(Receiver::recvmsg::<A>, (receiver, call, event), action),
    ensures
        final(call).flags == old(call).flags,
        final(call).has_poller <==> old(call).has_poller || action is Poll,
        action matches RecvAction::Poll { connect } ==> connect == !old(call).has_poller,
{
}

/// A new receiver has received nothing, has requested nothing and is not shut down.
pub proof fn lemma_new_receiver_has_received_nothing(
    buf_len: usize,
    control_len: usize,
    receiver: &Receiver,
    recv_len: Option<usize>,
    ready_len: usize,
    is_shutdown: bool,
    cancel: bool,
)
    requires
        call_ensures(Receiver::new, (buf_len, control_len), *receiver),
        call_ensures(Receiver::recv_len, (receiver,), recv_len),
        call_ensures(Receiver::ready_len, (receiver,), ready_len),
        call_ensures(Receiver::is_shutdown, (receiver,), is_shutdown),
        call_ensures(Receiver::cancel_requests, (receiver,), cancel),
    ensures
        recv_len is None,
        ready_len == 0,
        !is_shutdown,
        !cancel,
        receiver@.error is None,
        receiver@.buf_len == buf_len,
        receiver@.control_len == control_len,
{
}

/// The same holds of what a receiver is made of.
pub proof fn lemma_new_inner_has_received_nothing(
    buf_len: usize,
    control_len: usize,
    inner: &Inner,
    recv_len: Option<usize>,
)
    requires
        call_ensures(Inner::new, (buf_len, control_len), *inner),
        call_ensures(Inner::recv_len, (inner,), recv_len),
    ensures
        recv_len is None,
        inner@.error is None,
        !inner@.in_flight,
        !inner@.is_shutdown,
        inner@.buf_len == buf_len,
        inner@.control_len == control_len,
{
}

/// The host is given the whole receive buffer as the only one, room for an address of any
/// kind, the whole buffer for ancillary data, and no flags.
pub proof fn lemma_request_offers_all_memory(inner: &Inner, req: RecvReq)
    requires
        call_ensures(Inner::new_recv_req, (inner,), req),
    ensures
        req.iov_count == 1,
        req.iov_len == inner@.buf_len,
        req.name_len == 128,
        req.control_len == inner@.control_len,
        req.flags == 0,
{
}

/// The sender of a datagram is known exactly where the socket is not connected and the host's
/// memory holds a valid address; then it is this address.
pub proof fn lemma_sender_is_what_was_read<A, E>(
    inner: &Inner,
    parsed: Result<A, E>,
    is_connected: bool,
    addr: Option<A>,
)
    requires
        call_ensures(Inner::get_packet_addr::<A, E>, (inner, parsed, is_connected), addr),
    ensures
        addr is Some <==> !is_connected && parsed is Ok,
        addr is Some ==> parsed == Ok::<A, E>(addr->0),
{
}

/// Making ready for the next datagram forgets the last one, and the last error, and requests
/// the next one with all memory of the host. Nothing is requested on a receiver that has been
/// shut down. Nothing at all happens while a request is in flight or on a closed socket.
pub proof fn lemma_next_datagram_is_requested(
    receiver: &mut Receiver,
    is_closed: bool,
    request: Option<RecvReq>,
)
    requires
        call_ensures(Receiver::do_recv, (receiver, is_closed), request),
    ensures
        request is Some <==> !is_closed && !old(receiver)@.in_flight && !old(receiver)@.is_shutdown,
        request is Some ==> {
            &&& (request->0).iov_count == 1
            &&& (request->0).iov_len == old(receiver)@.buf_len
            &&& (request->0).name_len == 128
            &&& (request->0).control_len == old(receiver)@.control_len
            &&& (request->0).flags == 0
        },
        final(receiver)@.in_flight <==> old(receiver)@.in_flight || request is Some,
        is_closed || old(receiver)@.in_flight ==> final(receiver)@ == old(receiver)@,
        !is_closed && !old(receiver)@.in_flight ==> final(receiver)@.recv_len is None && final(
            receiver)@.error is None,
        final(receiver)@.buf_len == old(receiver)@.buf_len,
        final(receiver)@.control_len == old(receiver)@.control_len,
        final(receiver)@.is_shutdown == old(receiver)@.is_shutdown,
{
}

/// The first datagram is requested like any other.
pub proof fn lemma_first_datagram_is_requested_like_any(
    receiver: &mut Receiver,
    other: &mut Receiver,
    is_closed: bool,
    request: Option<RecvReq>,
    request_other: Option<RecvReq>,
)
    requires
        *old(other) == *old(receiver),
        call_ensures(Receiver::initiate_async_recv, (receiver, is_closed), request),
        call_ensures(Receiver::do_recv, (other, is_closed), request_other),
    ensures
        request == request_other,
        final(receiver)@ == final(other)@,
{
}

/// A request can be cancelled from when it is made until the host completes it.
pub proof fn lemma_request_can_be_cancelled_until_completed(
    receiver: &mut Receiver,
    is_closed: bool,
    request: Option<RecvReq>,
    requesting: &mut Receiver,
    cancel: bool,
    retval: i32,
    events: PollEvents,
    completed: &Receiver,
    cancel_later: bool,
)
    requires
        call_ensures(Receiver::do_recv, (receiver, is_closed), request),
        *old(requesting) == *final(receiver),
        call_ensures(Receiver::cancel_requests, (&*old(requesting),), cancel),
        call_ensures(Receiver::complete, (requesting, retval), events),
        *completed == *final(requesting),
        call_ensures(Receiver::cancel_requests, (completed,), cancel_later),
    ensures
        request is Some ==> cancel,
        !cancel_later,
{
}

/// Where the host reports the length of a datagram, the socket becomes readable, and exactly so
/// many bytes are ready. Where it reports an error, as a negative number, this error is kept,
/// and the socket has failed. Nothing else changes but that the request is no longer in flight.
pub proof fn lemma_completion_is_taken_note_of(
    receiver: &mut Receiver,
    retval: i32,
    events: PollEvents,
    after: &Receiver,
    recv_len: Option<usize>,
    ready_len: usize,
)
    requires
        retval != i32::MIN,
        call_ensures(Receiver::complete, (receiver, retval), events),
        *after == *final(receiver),
        call_ensures(Receiver::recv_len, (after,), recv_len),
        call_ensures(Receiver::ready_len, (after,), ready_len),
    ensures
        retval >= 0 ==> {
            &&& events == PollEvents::Readable
            &&& recv_len is Some
            &&& recv_len->0 == retval
            &&& ready_len == retval
            &&& after@.error == old(receiver)@.error
        },
        retval < 0 ==> {
            &&& events == PollEvents::Failed
            &&& after@.error is Some
            &&& after@.error->0.code + retval == 0
            &&& recv_len == old(receiver)@.recv_len
        },
        !after@.in_flight,
        after@.buf_len == old(receiver)@.buf_len,
        after@.control_len == old(receiver)@.control_len,
        after@.is_shutdown == old(receiver)@.is_shutdown,
{
}

/// The bytes that are ready are those of the datagram, and none where there is none.
pub proof fn lemma_ready_bytes_are_those_of_the_datagram(
    receiver: &Receiver,
    recv_len: Option<usize>,
    ready_len: usize,
)
    requires
        call_ensures(Receiver::recv_len, (receiver,), recv_len),
        call_ensures(Receiver::ready_len, (receiver,), ready_len),
    ensures
        recv_len == receiver@.recv_len,
        recv_len is Some ==> ready_len == recv_len->0,
        recv_len is None ==> ready_len == 0,
{
}

/// A receiver counts as shut down from its shutdown on until this is taken back. Neither
/// changes what has been received or requested.
pub proof fn lemma_shutdown_lasts_until_it_is_taken_back(
    receiver: &mut Receiver,
    down: &mut Receiver,
    is_shutdown: bool,
    up: &Receiver,
    is_shutdown_later: bool,
)
    requires
        call_ensures(Receiver::shutdown, (receiver,), ()),
        *old(down) == *final(receiver),
        call_ensures(Receiver::is_shutdown, (&*old(down),), is_shutdown),
        call_ensures(Receiver::reset_shutdown, (down,), ()),
        *up == *final(down),
        call_ensures(Receiver::is_shutdown, (up,), is_shutdown_later),
    ensures
        is_shutdown,
        !is_shutdown_later,
        old(down)@.recv_len == old(receiver)@.recv_len,
        old(down)@.error == old(receiver)@.error,
        old(down)@.in_flight == old(receiver)@.in_flight,
        old(down)@.buf_len == old(receiver)@.buf_len,
        old(down)@.control_len == old(receiver)@.control_len,
        up@.recv_len == old(receiver)@.recv_len,
        up@.error == old(receiver)@.error,
        up@.in_flight == old(receiver)@.in_flight,
        up@.buf_len == old(receiver)@.buf_len,
        up@.control_len == old(receiver)@.control_len,
{
}

/// An attempt with any other flags than those to peek, to report the real length, not to wait
/// and to receive errors is refused as an invalid argument, and nothing else comes of it.
pub proof fn lemma_attempt_with_unsupported_flags_is_refused<A, E>(
    receiver: &mut Receiver,
    bufs: &mut [&mut [u8]],
    flags: RecvFlags,
    control: &mut Option<&mut [u8]>,
    memory: &HostMemory,
    parsed: Result<A, E>,
    is_connected: bool,
    is_closed: bool,
    attempt: Attempt<A>,
)
    requires
        call_ensures(
            Receiver::try_recvmsg::<A, E>,
            (receiver, bufs, flags, control, memory, parsed, is_connected, is_closed),
            attempt,
        ),
    ensures
        flags.bits & !0x2062 != 0 ==> {
            &&& attempt.result is Err && attempt.result->Err_0.code == 22
            &&& !attempt.clears_in
            &&& attempt.request is None
            &&& final(receiver)@ == old(receiver)@
            &&& final(bufs)@ == old(bufs)@
            &&& *final(control) == *old(control)
        },
        flags.bits & !0x2062 == 0 ==> attempt.clears_in,
{
    let bits = flags.bits;
    assert(bits & !(0x40i32 | 0x2000i32 | 0x20i32 | 0x02i32) == bits & !0x2062i32) by (bit_vector);
}

/// A datagram is received into the buffers as far as they go, one byte after the other, and
/// what lies behind it is as it was; `starts` says where each buffer starts among the bytes
/// of all. The result is the number of bytes that were received, or the real length of the
/// datagram where that is asked for; the sender's address, unless the socket is connected or
/// there is no valid one; and the flag that the datagram was too long for the buffers where it
/// was, or else the flags of the call.
pub proof fn lemma_attempt_receives_the_datagram<A, E>(
    receiver: &mut Receiver,
    bufs: &mut [&mut [u8]],
    starts: Seq<int>,
    flags: RecvFlags,
    control: &mut Option<&mut [u8]>,
    memory: &HostMemory,
    parsed: Result<A, E>,
    is_connected: bool,
    is_closed: bool,
    attempt: Attempt<A>,
)
    requires
        flags.bits & !0x2062 == 0,
        old(receiver)@.recv_len is Some,
        old(bufs)@.len() > 0 ==> old(receiver)@.recv_len->0 <= memory.recv_buf@.len(),
        starts.len() == old(bufs)@.len() + 1,
        starts[0] == 0,
        forall|i: int|
            0 <= i < old(bufs)@.len() ==> starts[i + 1] == #[trigger] starts[i]
                + old(bufs)@[i]@.len(),
        starts[old(bufs)@.len() as int] <= usize::MAX,
        call_ensures(
            Receiver::try_recvmsg::<A, E>,
            (receiver, bufs, flags, control, memory, parsed, is_connected, is_closed),
            attempt,
        ),
    ensures
        ({
            let len = old(receiver)@.recv_len->0;
            let room = starts[old(bufs)@.len() as int];
            let copied = if len <= room {
                len as int
            } else {
                room
            };
            &&& attempt.result is Ok
            &&& (attempt.result->Ok_0).0 == (if flags.bits & 0x20 != 0 {
                len as int
            } else {
                copied
            })
            &&& (attempt.result->Ok_0).1 is Some <==> !is_connected && parsed is Ok
            &&& (attempt.result->Ok_0).1 is Some ==> parsed == Ok::<A, E>(
                (attempt.result->Ok_0).1->0,
            )
            &&& (attempt.result->Ok_0).2 == (if len > room {
                0x20
            } else {
                flags.bits
            })
            &&& final(bufs)@.len() == old(bufs)@.len()
            &&& forall|i: int|
                0 <= i < old(bufs)@.len() ==> #[trigger] final(bufs)@[i]@.len()
                    == old(bufs)@[i]@.len()
            &&& forall|i: int, j: int|
                0 <= i < old(bufs)@.len() && 0 <= j < old(bufs)@[i]@.len()
                    ==> #[trigger] final(bufs)@[i]@[j] == (if starts[i] + j < copied {
                    memory.recv_buf@[starts[i] + j]
                } else {
                    old(bufs)@[i]@[j]
                })
        }),
{
    let bits = flags.bits;
    assert(bits & !(0x40i32 | 0x2000i32 | 0x20i32 | 0x02i32) == bits & !0x2062i32) by (bit_vector);
    assert(bits & 0x20i32 != 0 <==> bits & 0x20i32 == 0x20i32) by (bit_vector);
    let before = buffers::contents(old(bufs)@);
    let after = buffers::contents(final(bufs)@);
    let len = old(receiver)@.recv_len->0;
    let room = starts[old(bufs)@.len() as int];
    let copied = if len <= room {
        len as int
    } else {
        room
    };
    assert forall|i: int| 0 <= i < before.len() implies starts[i + 1] == starts[i] + (
    #[trigger] before[i]).len() by {
        assert(before[i] == old(bufs)@[i]@);
    }
    buffers::lemma_concat_len(before, starts);
    buffers::lemma_scattered_bytes(before, after, memory.recv_buf@, copied, starts);
    assert forall|i: int| 0 <= i < before.len() implies #[trigger] final(bufs)@[i]@.len()
        == old(bufs)@[i]@.len() by {
        assert(after[i].len() == before[i].len());
    }
    assert forall|i: int, j: int|
        0 <= i < before.len() && 0 <= j < old(bufs)@[i]@.len() implies
        #[trigger] final(bufs)@[i]@[j] == (if starts[i] + j < copied {
        memory.recv_buf@[starts[i] + j]
    } else {
        old(bufs)@[i]@[j]
    }) by {
        assert(after[i][j] == final(bufs)@[i]@[j]);
        assert(before[i][j] == old(bufs)@[i]@[j]);
    }
}

/// With a datagram, the host's ancillary data is received: where the host reports any, each
/// byte of the buffer for it is the host's byte at the same place, however long the buffer is.
/// Where the host reports none, or there is no datagram, the buffer is as it was.
pub proof fn lemma_attempt_receives_ancillary_data<A, E>(
    receiver: &mut Receiver,
    bufs: &mut [&mut [u8]],
    flags: RecvFlags,
    control: &mut Option<&mut [u8]>,
    memory: &HostMemory,
    parsed: Result<A, E>,
    is_connected: bool,
    is_closed: bool,
    attempt: Attempt<A>,
)
    requires
        flags.bits & !0x2062 == 0,
        old(receiver)@.recv_len is Some && *old(control) is Some && memory.msg_controllen > 0 ==> (
        *old(control))->0@.len() <= memory.msg_control@.len(),
        call_ensures(
            Receiver::try_recvmsg::<A, E>,
            (receiver, bufs, flags, control, memory, parsed, is_connected, is_closed),
            attempt,
        ),
    ensures
        *final(control) is Some <==> *old(control) is Some,
        *old(control) is Some ==> {
            let before = (*old(control))->0@;
            let after = (*final(control))->0@;
            &&& after.len() == before.len()
            &&& if memory.msg_controllen > 0 && old(receiver)@.recv_len is Some {
                forall|i: int|
                    0 <= i < after.len() ==> #[trigger] after[i] == memory.msg_control@[i]
            } else {
                after == before
            }
        },
{
    let bits = flags.bits;
    assert(bits & !(0x40i32 | 0x2000i32 | 0x20i32 | 0x02i32) == bits & !0x2062i32) by (bit_vector);
    assert(state::held(*final(control)) is Some <==> *final(control) is Some);
}

/// Where there is no datagram, the buffers are as they were. An error that the host has
/// reported is returned as it is; where there is none, the result is "try again".
pub proof fn lemma_attempt_without_datagram_fails<A, E>(
    receiver: &mut Receiver,
    bufs: &mut [&mut [u8]],
    flags: RecvFlags,
    control: &mut Option<&mut [u8]>,
    memory: &HostMemory,
    parsed: Result<A, E>,
    is_connected: bool,
    is_closed: bool,
    attempt: Attempt<A>,
)
    requires
        flags.bits & !0x2062 == 0,
        old(receiver)@.recv_len is None,
        call_ensures(
            Receiver::try_recvmsg::<A, E>,
            (receiver, bufs, flags, control, memory, parsed, is_connected, is_closed),
            attempt,
        ),
    ensures
        attempt.result is Err,
        old(receiver)@.error is Some ==> attempt.result->Err_0 == old(receiver)@.error->0,
        old(receiver)@.error is None ==> attempt.result->Err_0.code == 11,
        final(bufs)@ == old(bufs)@,
        *final(control) == *old(control),
{
    let bits = flags.bits;
    assert(bits & !(0x40i32 | 0x2000i32 | 0x20i32 | 0x02i32) == bits & !0x2062i32) by (bit_vector);
}

/// An attempt makes ready for the next datagram, and requests what is requested then, unless it
/// only peeks at a datagram, or there is nothing to be received on a receiver that has been
/// shut down. In these two cases nothing is requested, and the receiver is as it was.
pub proof fn lemma_attempt_makes_ready_for_the_next_datagram<A, E>(
    receiver: &mut Receiver,
    bufs: &mut [&mut [u8]],
    flags: RecvFlags,
    control: &mut Option<&mut [u8]>,
    memory: &HostMemory,
    parsed: Result<A, E>,
    is_connected: bool,
    is_closed: bool,
    attempt: Attempt<A>,
    other: &mut Receiver,
    request: Option<RecvReq>,
)
    requires
        flags.bits & !0x2062 == 0,
        call_ensures(
            Receiver::try_recvmsg::<A, E>,
            (receiver, bufs, flags, control, memory, parsed, is_connected, is_closed),
            attempt,
        ),
        *old(other) == *old(receiver),
        call_ensures(Receiver::do_recv, (other, is_closed), request),
    ensures
        ({
            let peeks = old(receiver)@.recv_len is Some && flags.bits & 0x02 != 0;
            let ends = old(receiver)@.recv_len is None && old(receiver)@.error is None && old(
                receiver)@.is_shutdown;
            if peeks || ends {
                attempt.request is None && final(receiver)@ == old(receiver)@
            } else {
                attempt.request == request && final(receiver)@ == final(other)@
            }
        }),
{
    let bits = flags.bits;
    assert(bits & !(0x40i32 | 0x2000i32 | 0x20i32 | 0x02i32) == bits & !0x2062i32) by (bit_vector);
    assert(bits & 0x02i32 != 0 <==> bits & 0x02i32 == 0x02i32) by (bit_vector);
}

/// Copying a datagram is scattering its bytes, and nothing is copied where there is none.
pub proof fn lemma_datagram_is_copied_by_scattering(
    inner: &Inner,
    memory: &HostMemory,
    bufs: &mut [&mut [u8]],
    starts: Seq<int>,
    copied: Option<usize>,
)
    requires
        old(bufs)@.len() > 0 && inner@.recv_len is Some ==> inner@.recv_len->0
            <= memory.recv_buf@.len(),
        starts.len() == old(bufs)@.len() + 1,
        starts[0] == 0,
        forall|i: int|
            0 <= i < old(bufs)@.len() ==> starts[i + 1] == #[trigger] starts[i]
                + old(bufs)@[i]@.len(),
        call_ensures(Inner::try_copy_buf, (inner, memory, bufs), copied),
    ensures
        copied is Some <==> inner@.recv_len is Some,
        inner@.recv_len is None ==> final(bufs)@ == old(bufs)@,
        inner@.recv_len is Some ==> {
            let len = inner@.recv_len->0;
            let room = starts[old(bufs)@.len() as int];
            &&& copied->0 == (if len <= room {
                len as int
            } else {
                room
            })
            &&& final(bufs)@.len() == old(bufs)@.len()
            &&& forall|i: int, j: int|
                0 <= i < old(bufs)@.len() && 0 <= j < old(bufs)@[i]@.len()
                    ==> #[trigger] final(bufs)@[i]@[j] == (if starts[i] + j < copied->0 {
                    memory.recv_buf@[starts[i] + j]
                } else {
                    old(bufs)@[i]@[j]
                })
        },
{
    if inner@.recv_len is Some {
        let before = buffers::contents(old(bufs)@);
        let after = buffers::contents(final(bufs)@);
        assert forall|i: int| 0 <= i < before.len() implies starts[i + 1] == starts[i] + (
        #[trigger] before[i]).len() by {
            assert(before[i] == old(bufs)@[i]@);
        }
        buffers::lemma_concat_len(before, starts);
        buffers::lemma_scattered_bytes(
            before,
            after,
            memory.recv_buf@,
            copied->0 as int,
            starts,
        );
        assert forall|i: int, j: int|
            0 <= i < before.len() && 0 <= j < old(bufs)@[i]@.len() implies
            #[trigger] final(bufs)@[i]@[j] == (if starts[i] + j < copied->0 {
            memory.recv_buf@[starts[i] + j]
        } else {
            old(bufs)@[i]@[j]
        }) by {
            assert(after[i][j] == final(bufs)@[i]@[j]);
            assert(before[i][j] == old(bufs)@[i]@[j]);
        }
    }
}

} // verus!
