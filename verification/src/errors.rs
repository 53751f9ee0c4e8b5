//! Error taxonomy of the attachment lifecycle.

use vstd::prelude::*;

verus! {

/// Failure of loading a classifier image into the kernel.
#[derive(Clone, Copy, Debug, PartialEq, Eq, Structural)]
pub enum LoadError {
    /// The image itself is malformed (nothing was handed to the kernel).
    Invalid,
    /// The kernel's verifier or insertion step rejected the image, or the
    /// program table has no capacity left.
    KernelRejected,
}

/// Failure of installing the classifier-chain hook infrastructure on an
/// interface. The hook already being present is deliberately not an error:
/// repeated or concurrent setup is expected and harmless.
#[derive(Clone, Copy, Debug, PartialEq, Eq, Structural)]
pub enum ChainError {
    /// Lower-level communication with the kernel failed.
    Transport,
}

/// Failure of attaching a loaded program at a slot.
#[derive(Clone, Copy, Debug, PartialEq, Eq, Structural)]
pub enum AttachError {
    /// The slot is occupied and this process itself holds it.
    SlotOccupiedBySelf,
    /// The slot is occupied by an attachment this process does not own.
    /// Also the conservative classification when ownership is unknown.
    SlotOccupiedForeign,
    /// The identity handed in is malformed (empty or unusable interface
    /// name, or a zero priority or handle in an exact-slot request).
    InvalidHandle,
    /// Lower-level communication with the kernel failed.
    Transport,
}

/// Failure of detaching a filter.
#[derive(Clone, Copy, Debug, PartialEq, Eq, Structural)]
pub enum DetachError {
    /// The kernel no longer has a filter with that exact identity.
    NotFound,
    /// Lower-level communication with the kernel failed.
    Transport,
}

/// Failure of the persistence store.
#[derive(Clone, Copy, Debug, PartialEq, Eq, Structural)]
pub enum PersistError {
    /// No record is present.
    Missing,
    /// A record is present but its bytes do not decode to a record.
    Corrupt,
    /// The durable medium failed.
    Io,
}

} // verus!
