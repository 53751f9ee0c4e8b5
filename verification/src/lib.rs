//! Lifecycle management for kernel traffic-control classifier attachments.
//!
//! The crate models the identity of one filter slot on a network interface
//! (`AttachPoint`), the ownership states of an attachment (`LinkHandle`),
//! the decision logic of an attachment controller (collision classification,
//! idempotent chain setup, idempotent detach), the durable text encoding of
//! one attachment's identity, and a reference model of the kernel's filter
//! table against which the whole lifecycle is proved. The kernel itself is
//! reached through an unverified driver that performs the calls and hands
//! their outcomes back to the verified decision functions.

pub mod codec;
pub mod controller;
pub mod errors;
pub mod laws;
pub mod loader;
pub mod handle;
pub mod point;
pub mod points;
pub mod store;
pub mod table;
pub mod transport;
