//! Outcomes of kernel calls, as the unverified driver reports them back
//! to the verified decision functions.
//!
//! Every operation against the kernel is a request/response exchange: the
//! driver (or, in proofs and tests, the filter-table model) performs the
//! call and hands one of these outcomes to the controller, which decides
//! what the result and the next state are.

use vstd::prelude::*;

verus! {

/// Outcome of inserting a classifier image into the kernel.
#[derive(Clone, Copy, Debug, PartialEq, Eq, Structural)]
pub enum LoadReply {
    /// The kernel accepted and inserted the image.
    Loaded,
    /// The kernel's verifier or insertion step rejected it.
    Rejected,
}

/// Outcome of installing the classifier-chain hook on an interface.
#[derive(Clone, Copy, Debug, PartialEq, Eq, Structural)]
pub enum ChainReply {
    /// The hook infrastructure was installed.
    Installed,
    /// It was already present.
    AlreadyExists,
    /// Communication with the kernel failed.
    Failed,
}

/// Outcome of an exact-slot attach request.
#[derive(Clone, Copy, Debug, PartialEq, Eq, Structural)]
pub enum AttachReply {
    /// The filter was inserted at the requested slot.
    Accepted,
    /// The slot is already occupied.
    Occupied,
    /// The kernel rejected the identity values as malformed.
    InvalidArgs,
    /// Communication with the kernel failed.
    Failed,
}

/// Outcome of an attach request that lets the kernel pick the slot.
#[derive(Clone, Copy, Debug, PartialEq, Eq, Structural)]
pub enum AutoReply {
    /// The filter was inserted at the slot the kernel assigned.
    Assigned { priority: u16, handle: u32 },
    /// Communication with the kernel failed, or no slot was free.
    Failed,
}

/// Outcome of a detach request.
#[derive(Clone, Copy, Debug, PartialEq, Eq, Structural)]
pub enum DetachReply {
    /// The filter at the given identity was removed.
    Removed,
    /// No filter with that exact identity is present.
    NoSuchFilter,
    /// Communication with the kernel failed.
    Failed,
}

} // verus!
