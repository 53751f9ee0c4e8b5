//! Ownership and lifecycle states of one attachment.

use vstd::prelude::*;
use crate::point::{AttachPoint, PersistedRecord, PointV};

verus! {

/// Lifecycle state of a `LinkHandle`.
///
/// Transitions: `Attached` to `Taken` or `Detached`; `Taken` to `Detached`;
/// `Foreign` to `Detached`. No transition leaves `Detached`.
#[derive(Clone, Copy, Debug, PartialEq, Eq, Structural)]
pub enum LinkState {
    /// This process owns cleanup: the attachment must be detached before
    /// the handle's lifetime ends.
    Attached,
    /// Ownership was explicitly released; the attachment outlives the
    /// handle unless the caller ever detaches it again.
    Taken,
    /// Terminal: the kernel confirmed removal or absence of the slot.
    Detached,
    /// Reconstructed from persisted identity alone, with no in-memory
    /// program reference; detach and query are the only valid operations.
    Foreign,
}

/// Mathematical value of a `LinkHandle`.
#[verifier::ext_equal]
pub struct HandleV {
    pub state: LinkState,
    pub point: PointV,
    pub program: Option<u64>,
}

/// Whether a handle in this state triggers an automatic detach when the
/// owning process shuts down: only `Attached` handles do.
pub open spec fn cleanup_needed(s: LinkState) -> bool {
    s == LinkState::Attached
}

/// What `take` does to a state: it releases ownership of an `Attached`
/// handle and leaves every other state alone. In particular, taking a
/// `Foreign` handle is a no-op, since a foreign handle was never owned;
/// and nothing leaves `Detached`.
pub open spec fn spec_take(s: LinkState) -> LinkState {
    if s == LinkState::Attached {
        LinkState::Taken
    } else {
        s
    }
}

/// Binds one attachment's slot identity to its lifecycle state and, for
/// attachments made in this process, the loaded program that backs it.
#[derive(Clone, Debug)]
pub struct LinkHandle {
    state: LinkState,
    point: AttachPoint,
    program: Option<u64>,
}

impl View for LinkHandle {
    type V = HandleV;

    closed spec fn view(&self) -> HandleV {
        HandleV { state: self.state, point: self.point@, program: self.program }
    }
}

impl LinkHandle {
    /// Well-formedness: a foreign handle carries no program reference and
    /// an attached one always does.
    pub open spec fn wf(self) -> bool {
        &&& self@.state == LinkState::Foreign ==> self@.program is None
        &&& self@.state == LinkState::Attached ==> self@.program is Some
    }

    /// A freshly attached handle, owned by this process.
    pub(crate) fn new_attached(point: AttachPoint, program_id: u64) -> (r: Self)
        ensures
            r@ == (HandleV {
                state: LinkState::Attached,
                point: point@,
                program: Some(program_id),
            }),
            r.wf(),
    {
        LinkHandle { state: LinkState::Attached, point, program: Some(program_id) }
    }

    /// Rebuilds a handle purely from persisted identity, performing no
    /// kernel call. The result is `Foreign`: it carries no program
    /// reference, is not owned, and supports only detach and query.
    pub fn reconstruct(record: &PersistedRecord) -> (r: Self)
        ensures
            r@ == (HandleV { state: LinkState::Foreign, point: record@, program: None }),
            r.wf(),
    {
        LinkHandle { state: LinkState::Foreign, point: record.point.duplicate(), program: None }
    }

    /// Releases ownership: an `Attached` handle becomes `Taken`, so no
    /// automatic cleanup will happen and the attachment survives process
    /// end. On any other state this is a no-op: a `Foreign` handle was
    /// never owned, and nothing leaves `Detached`.
    pub fn take(self) -> (r: Self)
        ensures
            r@ == (HandleV { state: spec_take(self@.state), ..self@ }),
            self.wf() ==> r.wf(),
    {
        match self.state {
            LinkState::Attached => LinkHandle { state: LinkState::Taken, ..self },
            _ => self,
        }
    }

    /// Advances the state to terminal `Detached`. Internal: the controller
    /// calls this only once the kernel has confirmed removal or absence.
    pub(crate) fn mark_detached(&mut self)
        ensures
            final(self)@ == (HandleV { state: LinkState::Detached, ..old(self)@ }),
            final(self).wf(),
    {
        self.state = LinkState::Detached;
    }

    /// The lifecycle state.
    pub fn state(&self) -> (r: LinkState)
        ensures
            r == self@.state,
    {
        self.state
    }

    /// The slot identity this handle stands for.
    pub fn point(&self) -> (r: &AttachPoint)
        ensures
            r@ == self@.point,
    {
        &self.point
    }

    /// The durable record of this handle's identity, for the store.
    pub fn identity(&self) -> (r: PersistedRecord)
        ensures
            r@ == self@.point,
    {
        PersistedRecord { point: self.point.duplicate() }
    }

    /// Whether the shutdown path must still detach this attachment:
    /// exactly the `Attached` state.
    pub fn needs_cleanup(&self) -> (r: bool)
        ensures
            r == cleanup_needed(self@.state),
    {
        match self.state {
            LinkState::Attached => true,
            _ => false,
        }
    }
}

} // verus!
