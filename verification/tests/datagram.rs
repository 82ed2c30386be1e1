use libos_runtime::datagram::buffers::{scatter, total_len};
use libos_runtime::datagram::call::{RecvAction, RecvCall, RecvEvent};
use libos_runtime::datagram::flags::{
    RecvFlags, MSG_DONTWAIT, MSG_ERRQUEUE, MSG_PEEK, MSG_TRUNC,
};
use libos_runtime::datagram::receiver::{Inner, Receiver};
use libos_runtime::datagram::state::{Attempt, HostMemory, PollEvents, RecvReq};
use libos_runtime::errno::{Errno, EAGAIN, EINVAL, EWOULDBLOCK};

const NO_FLAGS: RecvFlags = RecvFlags { bits: 0 };
const REQUEST: RecvReq =
    RecvReq { iov_count: 1, iov_len: 64, name_len: 128, control_len: 16, flags: 0 };

fn memory<'a>(recv_buf: &'a [u8], msg_control: &'a [u8], msg_controllen: usize) -> HostMemory<'a> {
    HostMemory { recv_buf, msg_control, msg_controllen }
}

/// Attempts to receive into one buffer, from a sender with an address, on an open socket.
fn attempt(
    receiver: &mut Receiver,
    buf: &mut [u8],
    flags: i32,
    data: &[u8],
) -> Attempt<&'static str> {
    receiver.try_recvmsg(
        &mut [buf],
        RecvFlags { bits: flags },
        &mut None,
        &memory(data, &[], 0),
        Ok::<&'static str, ()>("peer"),
        false,
        false,
    )
}

/// A receiver for which the host has completed a request.
fn completed(retval: i32) -> Receiver {
    let mut receiver = Receiver::new(64, 16);
    assert_eq!(receiver.initiate_async_recv(false), Some(REQUEST));
    receiver.complete(retval);
    receiver
}

#[test]
fn bytes_are_scattered_over_buffers() {
    let (mut a, mut b, mut c) = ([0u8; 2], [0u8; 0], [9u8; 4]);
    {
        let mut bufs: [&mut [u8]; 3] = [&mut a, &mut b, &mut c];
        assert_eq!(total_len(&bufs), 6);
        assert_eq!(scatter(&mut bufs, &[1, 2, 3, 4, 5], 3), 3);
    }
    assert_eq!(a, [1, 2]);
    assert_eq!(c, [3, 9, 9, 9]);
}

#[test]
fn scattering_stops_where_the_buffers_are_full() {
    let (mut a, mut b) = ([0u8; 2], [0u8; 1]);
    assert_eq!(scatter(&mut [&mut a, &mut b], &[1, 2, 3, 4, 5], 5), 3);
    assert_eq!((a, b), ([1, 2], [3]));
    assert_eq!(scatter(&mut [], &[1, 2], 2), 0);
    let (mut a, mut b) = ([7u8; 2], [7u8; 1]);
    assert_eq!(scatter(&mut [&mut a, &mut b], &[1, 2], 2), 2);
    assert_eq!((a, b), ([1, 2], [7]));
    assert_eq!(scatter(&mut [&mut a, &mut b], &[5, 6], 0), 0);
    assert_eq!((a, b), ([1, 2], [7]));
}

#[test]
fn a_request_has_one_buffer_and_room_for_address_and_control() {
    assert_eq!(Inner::new(64, 16).new_recv_req(), REQUEST);
}

#[test]
fn nothing_is_copied_without_a_datagram() {
    let inner = Inner::new(64, 16);
    let mut buf = [7u8; 2];
    assert_eq!(inner.recv_len(), None);
    assert_eq!(inner.try_copy_buf(&memory(&[1, 2], &[], 0), &mut [&mut buf]), None);
    assert_eq!(buf, [7, 7]);
}

#[test]
fn a_connected_socket_reports_no_sender() {
    let inner = Inner::new(64, 16);
    assert_eq!(inner.get_packet_addr(Ok::<u8, ()>(3), false), Some(3));
    assert_eq!(inner.get_packet_addr(Ok::<u8, ()>(3), true), None);
    assert_eq!(inner.get_packet_addr(Err::<u8, ()>(()), false), None);
    assert_eq!(inner.get_packet_addr(Err::<u8, ()>(()), true), None);

    for (is_connected, addr) in [(false, Some("peer")), (true, None)] {
        let mut buf = [0u8; 2];
        let got = completed(2).try_recvmsg(
            &mut [&mut buf],
            NO_FLAGS,
            &mut None,
            &memory(&[1, 2], &[], 0),
            Ok::<&str, ()>("peer"),
            is_connected,
            false,
        );
        assert_eq!(got.result, Ok((2, addr, 0)));
        assert_eq!(buf, [1, 2]);
    }
}

#[test]
fn nothing_else_is_pending_beside_a_request() {
    let mut receiver = completed(2);
    let mut buf = [0u8; 2];
    // the request that follows a datagram ends in an error, which alone is pending then
    assert!(attempt(&mut receiver, &mut buf, 0, &[1, 2]).request.is_some());
    assert_eq!(receiver.recv_len(), None);
    assert!(receiver.cancel_requests());
    receiver.complete(-5);
    assert_eq!(receiver.recv_len(), None);
    assert!(!receiver.cancel_requests());
    let got = attempt(&mut receiver, &mut buf, 0, &[1, 2]);
    assert_eq!(got.result, Err(Errno { code: 5 }));
}

#[test]
fn a_datagram_is_received_once() {
    let mut receiver = completed(3);
    assert_eq!(receiver.ready_len(), 3);
    let mut buf = [0u8; 4];
    let got = attempt(&mut receiver, &mut buf, 0, &[1, 2, 3, 4, 5]);
    assert_eq!(got.result, Ok((3, Some("peer"), 0)));
    assert!(got.clears_in);
    assert_eq!(got.request, Some(REQUEST));
    assert_eq!(buf, [1, 2, 3, 0]);
    assert_eq!(receiver.ready_len(), 0);
    let got = attempt(&mut receiver, &mut buf, 0, &[1, 2, 3, 4, 5]);
    assert_eq!(got.result, Err(Errno { code: EAGAIN }));
    // a request is in flight already
    assert_eq!(got.request, None);
}

#[test]
fn an_empty_datagram_is_received_like_any_other() {
    let mut receiver = completed(0);
    assert_eq!(receiver.recv_len(), Some(0));
    let mut buf = [9u8; 2];
    let got = attempt(&mut receiver, &mut buf, 0, &[1, 2]);
    assert_eq!(got.result, Ok((0, Some("peer"), 0)));
    assert_eq!(buf, [9, 9]);
}

#[test]
fn peeking_leaves_the_datagram() {
    let mut receiver = completed(3);
    let (mut first, mut second) = ([0u8; 3], [0u8; 3]);
    let got = attempt(&mut receiver, &mut first, MSG_PEEK, &[1, 2, 3]);
    assert_eq!(got.result, Ok((3, Some("peer"), MSG_PEEK)));
    assert_eq!(got.request, None);
    assert_eq!(receiver.ready_len(), 3);
    let got = attempt(&mut receiver, &mut second, 0, &[1, 2, 3]);
    assert_eq!(got.result, Ok((3, Some("peer"), 0)));
    assert_eq!(first, second);
}

#[test]
fn a_truncated_datagram_is_flagged() {
    let mut buf = [0u8; 2];
    let got = attempt(&mut completed(3), &mut buf, 0, &[1, 2, 3]);
    assert_eq!(got.result, Ok((2, Some("peer"), MSG_TRUNC)));
    assert_eq!(buf, [1, 2]);
    let got = attempt(&mut completed(3), &mut buf, MSG_TRUNC | MSG_PEEK, &[1, 2, 3]);
    assert_eq!(got.result, Ok((3, Some("peer"), MSG_TRUNC)));
    let mut buf = [0u8; 3];
    let got = attempt(&mut completed(3), &mut buf, MSG_TRUNC | MSG_DONTWAIT, &[1, 2, 3]);
    assert_eq!(got.result, Ok((3, Some("peer"), MSG_TRUNC | MSG_DONTWAIT)));
}

#[test]
fn an_error_is_returned_once() {
    let mut receiver = Receiver::new(64, 16);
    receiver.initiate_async_recv(false);
    assert_eq!(receiver.complete(-111), PollEvents::Failed);
    let mut buf = [0u8; 2];
    let got = attempt(&mut receiver, &mut buf, 0, &[]);
    assert_eq!(got.result, Err(Errno { code: 111 }));
    assert_eq!(got.request, Some(REQUEST));
    let got = attempt(&mut receiver, &mut buf, 0, &[]);
    assert_eq!(got.result, Err(Errno { code: EAGAIN }));
}

#[test]
fn unsupported_flags_are_refused() {
    let mut receiver = completed(3);
    let mut buf = [0u8; 3];
    for flags in [1, 0x100, MSG_PEEK | 0x04, i32::MIN] {
        let got = attempt(&mut receiver, &mut buf, flags, &[1, 2, 3]);
        assert_eq!(got.result, Err(Errno { code: EINVAL }));
        assert!(!got.clears_in);
        assert_eq!(got.request, None);
    }
    assert_eq!(buf, [0; 3]);
    assert_eq!(receiver.ready_len(), 3);
    assert!(!RecvFlags { bits: MSG_PEEK | MSG_TRUNC | MSG_DONTWAIT | MSG_ERRQUEUE }
        .has_unsupported());
}

#[test]
fn control_data_is_copied_where_the_host_reports_some() {
    for (controllen, expected) in [(0usize, [7u8; 2]), (5, [1, 2])] {
        let mut receiver = completed(1);
        let mut control = [7u8; 2];
        let got = receiver.try_recvmsg(
            &mut [],
            NO_FLAGS,
            &mut Some(&mut control),
            &memory(&[0], &[1, 2, 3], controllen),
            Err::<(), ()>(()),
            false,
            false,
        );
        assert_eq!(got.result, Ok((0, None, MSG_TRUNC)));
        assert_eq!(control, expected);
    }
}

#[test]
fn a_closed_socket_requests_nothing() {
    let mut receiver = completed(2);
    let mut buf = [0u8; 2];
    let got = receiver.try_recvmsg(
        &mut [&mut buf],
        NO_FLAGS,
        &mut None,
        &memory(&[1, 2], &[], 0),
        Err::<(), ()>(()),
        false,
        true,
    );
    assert_eq!(got.result, Ok((2, None, 0)));
    assert_eq!(got.request, None);
    assert_eq!(receiver.ready_len(), 2);
    assert_eq!(Receiver::new(64, 16).initiate_async_recv(true), None);
}

#[test]
fn a_receiver_that_is_shut_down_requests_nothing() {
    let mut receiver = Receiver::new(64, 16);
    receiver.shutdown();
    assert!(receiver.is_shutdown());
    assert_eq!(receiver.initiate_async_recv(false), None);
    let mut buf = [0u8; 2];
    let got = attempt(&mut receiver, &mut buf, 0, &[]);
    assert_eq!(got.result, Err(Errno { code: EWOULDBLOCK }));
    assert_eq!(got.request, None);
    receiver.reset_shutdown();
    assert!(!receiver.is_shutdown());
    let got = attempt(&mut receiver, &mut buf, 0, &[]);
    assert_eq!(got.result, Err(Errno { code: EAGAIN }));
    assert_eq!(got.request, Some(REQUEST));
}

#[test]
fn only_a_request_in_flight_is_cancelled() {
    let mut receiver = Receiver::new(64, 16);
    assert!(!receiver.cancel_requests());
    receiver.initiate_async_recv(false);
    assert!(receiver.cancel_requests());
    assert_eq!(receiver.initiate_async_recv(false), None);
    assert_eq!(receiver.complete(1), PollEvents::Readable);
    assert!(!receiver.cancel_requests());
}

fn try_again(is_nonblocking: bool) -> RecvEvent<()> {
    RecvEvent::Attempted { result: Err(Errno { code: EAGAIN }), is_nonblocking }
}

#[test]
fn a_blocking_call_polls_waits_and_tries_again() {
    let receiver = Receiver::new(64, 16);
    let mut call = RecvCall::new(NO_FLAGS);
    assert!(matches!(
        receiver.recvmsg(&mut call, try_again(false)),
        RecvAction::Poll { connect: true }
    ));
    assert!(matches!(
        receiver.recvmsg::<()>(&mut call, RecvEvent::Polled { is_empty: true }),
        RecvAction::Wait
    ));
    assert!(matches!(
        receiver.recvmsg::<()>(&mut call, RecvEvent::WaitOver(Ok(()))),
        RecvAction::Attempt
    ));
    // the poller is connected already
    assert!(matches!(
        receiver.recvmsg(&mut call, try_again(false)),
        RecvAction::Poll { connect: false }
    ));
    assert!(matches!(
        receiver.recvmsg::<()>(&mut call, RecvEvent::Polled { is_empty: false }),
        RecvAction::Attempt
    ));
    assert!(matches!(
        receiver.recvmsg(
            &mut call,
            RecvEvent::Attempted { result: Ok((3, Some(4), 0)), is_nonblocking: false }
        ),
        RecvAction::Return(Ok((3, Some(4), 0)))
    ));
    assert!(matches!(
        receiver.recvmsg::<()>(&mut call, RecvEvent::WaitOver(Err(Errno { code: 4 }))),
        RecvAction::Return(Err(Errno { code: 4 }))
    ));
}

#[test]
fn a_nonblocking_call_does_not_wait() {
    let receiver = Receiver::new(64, 16);
    let mut call = RecvCall::new(NO_FLAGS);
    assert!(matches!(
        receiver.recvmsg(&mut call, try_again(true)),
        RecvAction::Return(Err(Errno { code: EAGAIN }))
    ));
    for bits in [MSG_DONTWAIT, MSG_ERRQUEUE, MSG_ERRQUEUE | MSG_PEEK] {
        let mut call = RecvCall::new(RecvFlags { bits });
        assert!(matches!(
            receiver.recvmsg(&mut call, try_again(false)),
            RecvAction::Return(Err(Errno { code: EAGAIN }))
        ));
    }
}

#[test]
fn a_blocking_call_returns_nothing_after_the_shutdown() {
    let mut receiver = Receiver::new(64, 16);
    receiver.shutdown();
    let mut call = RecvCall::new(RecvFlags { bits: MSG_PEEK });
    let mut buf = [0u8; 2];
    let result = attempt(&mut receiver, &mut buf, MSG_PEEK, &[]).result;
    assert!(matches!(
        receiver.recvmsg(&mut call, RecvEvent::Attempted { result, is_nonblocking: false }),
        RecvAction::Return(Ok((0, None, MSG_PEEK)))
    ));
}

#[test]
fn other_errors_end_a_call() {
    let receiver = Receiver::new(64, 16);
    let mut call = RecvCall::new(NO_FLAGS);
    let event: RecvEvent<()> =
        RecvEvent::Attempted { result: Err(Errno { code: EINVAL }), is_nonblocking: false };
    assert!(matches!(
        receiver.recvmsg(&mut call, event),
        RecvAction::Return(Err(Errno { code: EINVAL }))
    ));
}
