//! The laws of the attachment lifecycle, proved over the same transition
//! functions that the executable operations are specified by.

use vstd::prelude::*;
use crate::codec::{spec_encode_record, lemma_record_round_trip};
use crate::controller::{spec_attach_auto_complete, spec_attach_complete, spec_detach_complete};
use crate::errors::{AttachError, DetachError, PersistError};
use crate::handle::{cleanup_needed, spec_take, HandleV, LinkState};
use crate::loader::spec_load;
use crate::point::{valid_exact_point, valid_if_name, PointV, Direction};
use crate::store::spec_store_load;
use crate::table::{spec_table_attach, spec_table_detach};
use crate::transport::{AttachReply, AutoReply, DetachReply, LoadReply};

verus! {

/// Law: attaching a point and then detaching it leaves the chain with no
/// filter of that identity; whenever the attach was accepted, the detach
/// succeeds and the chain returns to exactly its prior state.
pub proof fn lemma_attach_then_detach_clears(t: Set<PointV>, p: PointV)
    ensures
        ({
            let (t1, a) = spec_table_attach(t, p);
            let (t2, d) = spec_table_detach(t1, p);
            &&& !t2.contains(p)
            &&& (a == AttachReply::Accepted ==> d == DetachReply::Removed)
            &&& (a == AttachReply::Accepted ==> t2 =~= t)
        }),
{
    let (t1, a) = spec_table_attach(t, p);
    if !t.contains(p) {
        assert(t1.remove(p) =~= t);
    }
}

/// Law: attaching the same point twice without a detach between them has
/// the second call rejected, classified as occupied by this process
/// itself, while the first attachment stays intact: the chain still
/// holds exactly one filter with that identity and is unchanged by the
/// second call.
pub proof fn lemma_second_attach_is_self(
    t: Set<PointV>,
    held: Set<PointV>,
    prog: u64,
    p: PointV,
)
    requires
        valid_exact_point(p),
    ensures
        ({
            let (t1, a1) = spec_table_attach(t, p);
            let (held1, r1) = spec_attach_complete(held, prog, p, a1);
            let (t2, a2) = spec_table_attach(t1, p);
            let (held2, r2) = spec_attach_complete(held1, prog, p, a2);
            r1 is Ok ==> {
                &&& a2 == AttachReply::Occupied
                &&& t2 == t1
                &&& t2.contains(p)
                &&& r2 == Err::<HandleV, AttachError>(AttachError::SlotOccupiedBySelf)
                &&& held2 == held1
            }
        }),
{
}

/// Law: taking an attached handle moves it to `Taken` and disables the
/// automatic detach at shutdown, while the identity is untouched. A take
/// makes no kernel call at all, so the attachment itself stays in place
/// and survives the end of the owning session.
pub proof fn lemma_take_leaves_attachment(h: HandleV)
    requires
        h.state == LinkState::Attached,
    ensures
        ({
            let after = HandleV { state: spec_take(h.state), ..h };
            &&& after.state == LinkState::Taken
            &&& !cleanup_needed(after.state)
            &&& after.point == h.point
            &&& after.program == h.program
        }),
{
}

/// Law: a save followed by a load returns a record equal in all four
/// identity fields to the one saved, whatever the slot held before.
pub proof fn lemma_save_then_load(rec: PointV)
    requires
        valid_if_name(rec.if_name),
    ensures
        spec_store_load(Some(spec_encode_record(rec))) == Ok::<PointV, PersistError>(rec),
{
    lemma_record_round_trip(rec);
}

/// Law: detaching an identity with no matching live filter reports
/// `NotFound` — never a false success — leaves the chain unchanged, and
/// settles the handle as `Detached`, since the kernel confirmed absence.
pub proof fn lemma_detach_missing_is_not_found(t: Set<PointV>, held: Set<PointV>, h: HandleV)
    requires
        !t.contains(h.point),
        h.state != LinkState::Detached,
    ensures
        ({
            let (t1, reply) = spec_table_detach(t, h.point);
            let (held1, h1, r) = spec_detach_complete(held, h, reply);
            &&& reply == DetachReply::NoSuchFilter
            &&& t1 == t
            &&& r == Err::<(), DetachError>(DetachError::NotFound)
            &&& h1.state == LinkState::Detached
            &&& h1.point == h.point
        }),
{
}

/// Law: a kernel-assigned identity round-trips. When the kernel accepts
/// an automatic attach and assigns a slot that was free, the identity
/// handed back names exactly the inserted filter, so feeding it straight
/// into a detach succeeds and returns the chain to its prior state.
pub proof fn lemma_auto_identity_round_trips(
    t: Set<PointV>,
    held: Set<PointV>,
    prog: u64,
    name: Seq<u8>,
    direction: Direction,
    priority: u16,
    handle: u32,
)
    requires
        valid_if_name(name),
        !t.contains(PointV { if_name: name, direction, priority, handle }),
    ensures
        ({
            let p = PointV { if_name: name, direction, priority, handle };
            let reply = AutoReply::Assigned { priority, handle };
            let (held1, r) = spec_attach_auto_complete(held, prog, name, direction, reply);
            let t1 = t.insert(p);
            let (t2, d) = spec_table_detach(t1, p);
            &&& r == Ok::<(HandleV, PointV), AttachError>(
                (HandleV { state: LinkState::Attached, point: p, program: Some(prog) }, p),
            )
            &&& held1 == held.insert(p)
            &&& d == DetachReply::Removed
            &&& !t2.contains(p)
            &&& t2 =~= t
        }),
{
    let p = PointV { if_name: name, direction, priority, handle };
    assert(t.insert(p).remove(p) =~= t);
}

/// Law: a handle whose slot is already settled as `Detached` is a no-op
/// success for detach, whatever outcome is reported: nothing changes and
/// no error is raised. Detach is therefore idempotent on a handle.
pub proof fn lemma_detach_settled_is_noop(held: Set<PointV>, h: HandleV, reply: DetachReply)
    requires
        h.state == LinkState::Detached,
    ensures
        spec_detach_complete(held, h, reply) == (held, h, Ok::<(), DetachError>(())),
{
}

/// Law: a handle's state advances to `Detached` only once the kernel
/// confirms removal or absence: a communication failure changes neither
/// the handle, nor the registry, and reports the failure.
pub proof fn lemma_failed_detach_changes_nothing(held: Set<PointV>, h: HandleV)
    requires
        h.state != LinkState::Detached,
    ensures
        spec_detach_complete(held, h, DetachReply::Failed) == (
            held,
            h,
            Err::<(), DetachError>(DetachError::Transport),
        ),
{
}

/// Law: loading twice in one session yields two independent instances:
/// whenever both loads succeed, their ids differ.
pub proof fn lemma_loads_are_independent(next: u64, image_ok: bool, r1: LoadReply, r2: LoadReply)
    ensures
        ({
            let (next1, a) = spec_load(next, image_ok, r1);
            let (next2, b) = spec_load(next1, image_ok, r2);
            (a is Ok && b is Ok) ==> a != b
        }),
{
}

} // verus!
