//! The attachment controller: the decision layer of every kernel-facing
//! operation.
//!
//! The controller never caches kernel state beyond a single call: each
//! operation sends a request through the driver (or the filter-table
//! model) and decides from the reported outcome. What it does keep is its
//! own registry of the identities this process has attached and not yet
//! detached — the only ground on which an occupied slot may be classified
//! as self-owned. Occupancy whose owner the transport cannot show is
//! conservatively foreign.

use vstd::prelude::*;
use crate::errors::{AttachError, ChainError, DetachError};
use crate::handle::{HandleV, LinkHandle, LinkState};
use crate::loader::LoadedProgram;
use crate::point::{check_exact_point, check_if_name, valid_exact_point, valid_if_name,
    AttachPoint, Direction, PointV};
use crate::points::PointSet;
use crate::transport::{AttachReply, AutoReply, ChainReply, DetachReply};

verus! {

/// Classification of an occupied slot: self exactly when this process's
/// registry holds that identity; everything else — including occupancy
/// whose owner is unknown — is foreign.
pub open spec fn spec_classify(held: Set<PointV>, p: PointV) -> AttachError {
    if held.contains(p) {
        AttachError::SlotOccupiedBySelf
    } else {
        AttachError::SlotOccupiedForeign
    }
}

/// What chain setup decides from the kernel's outcome: the hook already
/// being present counts as success — repeated or concurrent setup is
/// expected and harmless — and only a communication failure is an error.
pub open spec fn spec_ensure_chain(reply: ChainReply) -> Result<(), ChainError> {
    match reply {
        ChainReply::Installed => Ok(()),
        ChainReply::AlreadyExists => Ok(()),
        ChainReply::Failed => Err(ChainError::Transport),
    }
}

/// What an exact-slot attach decides: the registry afterwards, and the
/// handle or error. A malformed identity is rejected before anything
/// reaches the kernel; an accepted attach registers the identity and
/// yields an owned `Attached` handle; an occupied slot is classified
/// against the registry; everything else maps to the matching error.
pub open spec fn spec_attach_complete(
    held: Set<PointV>,
    prog_id: u64,
    p: PointV,
    reply: AttachReply,
) -> (Set<PointV>, Result<HandleV, AttachError>) {
    if !valid_exact_point(p) {
        (held, Err(AttachError::InvalidHandle))
    } else {
        match reply {
            AttachReply::Accepted => (
                held.insert(p),
                Ok(HandleV { state: LinkState::Attached, point: p, program: Some(prog_id) }),
            ),
            AttachReply::Occupied => (held, Err(spec_classify(held, p))),
            AttachReply::InvalidArgs => (held, Err(AttachError::InvalidHandle)),
            AttachReply::Failed => (held, Err(AttachError::Transport)),
        }
    }
}

/// What a kernel-assigned attach decides: as the exact-slot case, except
/// that the slot identity is the one the kernel reports, and is handed
/// back alongside the handle — it cannot be recovered later otherwise.
pub open spec fn spec_attach_auto_complete(
    held: Set<PointV>,
    prog_id: u64,
    name: Seq<u8>,
    direction: Direction,
    reply: AutoReply,
) -> (Set<PointV>, Result<(HandleV, PointV), AttachError>) {
    if !valid_if_name(name) {
        (held, Err(AttachError::InvalidHandle))
    } else {
        match reply {
            AutoReply::Assigned { priority, handle } => {
                let p = PointV { if_name: name, direction, priority, handle };
                (
                    held.insert(p),
                    Ok(
                        (
                            HandleV {
                                state: LinkState::Attached,
                                point: p,
                                program: Some(prog_id),
                            },
                            p,
                        ),
                    ),
                )
            },
            AutoReply::Failed => (held, Err(AttachError::Transport)),
        }
    }
}

/// What a detach decides: the registry and the handle afterwards, and
/// the result. A handle that is already `Detached` is a settled no-op
/// success, whatever the reply says — no kernel call is owed for it. For
/// any other state, both a removal and a confirmed absence settle the
/// handle as `Detached` and release the identity from the registry;
/// absence is still reported as `NotFound`, never as a false success. A
/// communication failure leaves handle and registry untouched.
pub open spec fn spec_detach_complete(
    held: Set<PointV>,
    h: HandleV,
    reply: DetachReply,
) -> (Set<PointV>, HandleV, Result<(), DetachError>) {
    if h.state == LinkState::Detached {
        (held, h, Ok(()))
    } else {
        match reply {
            DetachReply::Removed => (
                held.remove(h.point),
                HandleV { state: LinkState::Detached, ..h },
                Ok(()),
            ),
            DetachReply::NoSuchFilter => (
                held.remove(h.point),
                HandleV { state: LinkState::Detached, ..h },
                Err(DetachError::NotFound),
            ),
            DetachReply::Failed => (held, h, Err(DetachError::Transport)),
        }
    }
}

/// Attaches loaded programs to slots, detaches them by identity, and
/// classifies slot collisions against its registry of held identities.
pub struct AttachmentController {
    held: PointSet,
}

impl View for AttachmentController {
    type V = Set<PointV>;

    /// The identities this process has attached and not yet detached.
    closed spec fn view(&self) -> Set<PointV> {
        self.held@
    }
}

impl AttachmentController {
    /// Well-formedness of the registry storage.
    pub closed spec fn wf(&self) -> bool {
        self.held.inv()
    }

    /// A controller for a fresh session: nothing held yet.
    pub fn new() -> (r: Self)
        ensures
            r@ == Set::<PointV>::empty(),
            r.wf(),
    {
        AttachmentController { held: PointSet::new() }
    }

    /// Whether this process currently holds the identity.
    pub fn holds(&self, p: &AttachPoint) -> (r: bool)
        ensures
            r == self@.contains(p@),
    {
        self.held.contains(p)
    }

    /// Decides chain setup from the kernel's outcome; the already-present
    /// case is success by policy.
    pub fn ensure_chain(reply: ChainReply) -> (r: Result<(), ChainError>)
        ensures
            r == spec_ensure_chain(reply),
    {
        match reply {
            ChainReply::Installed => Ok(()),
            ChainReply::AlreadyExists => Ok(()),
            ChainReply::Failed => Err(ChainError::Transport),
        }
    }

    /// Checks an identity before any kernel call: the driver must not
    /// send an exact-slot request whose identity this rejects.
    pub fn validate_exact_point(p: &AttachPoint) -> (r: Result<(), AttachError>)
        ensures
            r == if valid_exact_point(p@) {
                Ok::<(), AttachError>(())
            } else {
                Err::<(), AttachError>(AttachError::InvalidHandle)
            },
    {
        if check_exact_point(p) {
            Ok(())
        } else {
            Err(AttachError::InvalidHandle)
        }
    }

    /// Completes an exact-slot attach of `program` at `point`, deciding
    /// from the kernel outcome `reply` exactly as `spec_attach_complete`
    /// says. On success the returned handle is `Attached`: this process
    /// owns cleanup until it detaches or takes the handle.
    pub fn attach_complete(
        &mut self,
        program: &LoadedProgram,
        point: &AttachPoint,
        reply: AttachReply,
    ) -> (r: Result<LinkHandle, AttachError>)
        requires
            old(self).wf(),
        ensures
            final(self).wf(),
            final(self)@ == spec_attach_complete(old(self)@, program@.id, point@, reply).0,
            (match r {
                Ok(h) => Ok(h@),
                Err(e) => Err(e),
            }) == spec_attach_complete(old(self)@, program@.id, point@, reply).1,
            r matches Ok(h) ==> h.wf(),
    {
        if !check_exact_point(point) {
            return Err(AttachError::InvalidHandle);
        }
        match reply {
            AttachReply::Accepted => {
                self.held.insert(point.duplicate());
                Ok(LinkHandle::new_attached(point.duplicate(), program.id()))
            },
            AttachReply::Occupied => {
                if self.held.contains(point) {
                    Err(AttachError::SlotOccupiedBySelf)
                } else {
                    Err(AttachError::SlotOccupiedForeign)
                }
            },
            AttachReply::InvalidArgs => Err(AttachError::InvalidHandle),
            AttachReply::Failed => Err(AttachError::Transport),
        }
    }

    /// Completes a kernel-assigned attach: the kernel picked the slot and
    /// `reply` carries it. The assigned identity is returned beside the
    /// handle; a caller that wants to persist it must capture it here.
    pub fn attach_auto_complete(
        &mut self,
        program: &LoadedProgram,
        name: &Vec<u8>,
        direction: Direction,
        reply: AutoReply,
    ) -> (r: Result<(LinkHandle, AttachPoint), AttachError>)
        requires
            old(self).wf(),
        ensures
            final(self).wf(),
            final(self)@ == spec_attach_auto_complete(
                old(self)@,
                program@.id,
                name@,
                direction,
                reply,
            ).0,
            (match r {
                Ok(hp) => Ok((hp.0@, hp.1@)),
                Err(e) => Err(e),
            }) == spec_attach_auto_complete(old(self)@, program@.id, name@, direction, reply).1,
            r matches Ok(hp) ==> hp.0.wf(),
    {
        if !check_if_name(name) {
            return Err(AttachError::InvalidHandle);
        }
        match reply {
            AutoReply::Assigned { priority, handle } => {
                let p = AttachPoint {
                    if_name: crate::point::copy_bytes(name),
                    direction,
                    priority,
                    handle,
                };
                proof {
                    assert(p@ =~= (PointV { if_name: name@, direction, priority, handle }));
                }
                self.held.insert(p.duplicate());
                let link = LinkHandle::new_attached(p.duplicate(), program.id());
                Ok((link, p))
            },
            AutoReply::Failed => Err(AttachError::Transport),
        }
    }

    /// Completes a detach of the filter at `handle`'s identity, deciding
    /// from the kernel outcome `reply` exactly as `spec_detach_complete`
    /// says. For a handle that is already `Detached` the driver must not
    /// call the kernel at all; this settles as a no-op success. The state
    /// advances to `Detached` only on a confirmed removal or a confirmed
    /// absence, and a confirmed absence is reported as `NotFound`.
    pub fn detach_complete(&mut self, handle: &mut LinkHandle, reply: DetachReply) -> (r: Result<
        (),
        DetachError,
    >)
        requires
            old(self).wf(),
        ensures
            final(self).wf(),
            final(self)@ == spec_detach_complete(old(self)@, old(handle)@, reply).0,
            final(handle)@ == spec_detach_complete(old(self)@, old(handle)@, reply).1,
            r == spec_detach_complete(old(self)@, old(handle)@, reply).2,
            old(handle).wf() ==> final(handle).wf(),
    {
        match handle.state() {
            LinkState::Detached => Ok(()),
            _ => {
                match reply {
                    DetachReply::Removed => {
                        self.held.remove(handle.point());
                        handle.mark_detached();
                        Ok(())
                    },
                    DetachReply::NoSuchFilter => {
                        self.held.remove(handle.point());
                        handle.mark_detached();
                        Err(DetachError::NotFound)
                    },
                    DetachReply::Failed => Err(DetachError::Transport),
                }
            },
        }
    }
}

} // verus!
