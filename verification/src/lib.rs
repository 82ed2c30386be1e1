//! Scheduling and socket logic of a library OS runtime.
pub mod bitmask;
pub mod bits;
pub mod datagram;
pub mod errno;
pub mod executor;
pub mod parker;
pub mod vcpu;
pub mod vcpu_selector;
