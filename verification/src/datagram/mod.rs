//! Datagram sockets.
pub mod buffers;
pub mod call;
pub mod flags;
pub mod receiver;
pub mod sockaddr;
pub mod state;
