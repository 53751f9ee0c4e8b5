//! Scenario tests of the attach/detach lifecycle against the filter-table
//! model.

use tchandle::controller::AttachmentController;
use tchandle::errors::{AttachError, ChainError, DetachError, LoadError};
use tchandle::handle::{LinkHandle, LinkState};
use tchandle::loader::{LoadedProgram, ProgramImage, ProgramLoader};
use tchandle::point::{AttachPoint, Direction, PersistedRecord};
use tchandle::table::FilterTable;
use tchandle::transport::{AttachReply, AutoReply, ChainReply, DetachReply, LoadReply};

fn eth0() -> Vec<u8> {
    b"eth0".to_vec()
}

fn point(priority: u16, handle: u32) -> AttachPoint {
    AttachPoint { if_name: eth0(), direction: Direction::Ingress, priority, handle }
}

fn loaded_program() -> LoadedProgram {
    let image = ProgramImage { name: b"tctest1".to_vec(), bytes: vec![0u8, 1, 2, 3] };
    let mut loader = ProgramLoader::new();
    loader.load(&image, LoadReply::Loaded).expect("model load accepts a well-formed image")
}

fn attach(
    table: &mut FilterTable,
    ctl: &mut AttachmentController,
    prog: &LoadedProgram,
    p: &AttachPoint,
) -> Result<LinkHandle, AttachError> {
    AttachmentController::validate_exact_point(p)?;
    let reply = table.attach_reply(p);
    ctl.attach_complete(prog, p, reply)
}

fn detach(
    table: &mut FilterTable,
    ctl: &mut AttachmentController,
    handle: &mut LinkHandle,
) -> Result<(), DetachError> {
    if handle.state() == LinkState::Detached {
        return ctl.detach_complete(handle, DetachReply::NoSuchFilter);
    }
    let reply = table.detach_reply(handle.point());
    ctl.detach_complete(handle, reply)
}

#[test]
fn scenario_attach_detach_detach() {
    let mut table = FilterTable::new();
    let mut ctl = AttachmentController::new();
    let prog = loaded_program();
    let p = point(50, 1);

    let mut h = attach(&mut table, &mut ctl, &prog, &p).expect("first attach succeeds");
    assert_eq!(h.state(), LinkState::Attached);
    assert!(table.contains_point(&p));

    assert_eq!(detach(&mut table, &mut ctl, &mut h), Ok(()));
    assert_eq!(h.state(), LinkState::Detached);
    assert!(!table.contains_point(&p));

    // A second detach of the same identity, as a later caller would issue
    // it (a fresh handle, not the settled one), is NotFound, not a crash.
    let mut again = LinkHandle::reconstruct(&PersistedRecord { point: p.clone() });
    assert_eq!(detach(&mut table, &mut ctl, &mut again), Err(DetachError::NotFound));
    assert_eq!(again.state(), LinkState::Detached);
}

#[test]
fn scenario_double_attach_is_self_occupied() {
    let mut table = FilterTable::new();
    let mut ctl = AttachmentController::new();
    let prog = loaded_program();
    let p = point(50, 1);

    let h = attach(&mut table, &mut ctl, &prog, &p).expect("first attach succeeds");
    assert_eq!(h.state(), LinkState::Attached);

    let second = attach(&mut table, &mut ctl, &prog, &p);
    assert_eq!(second.err(), Some(AttachError::SlotOccupiedBySelf));

    // The first attachment is intact: exactly one filter with that
    // identity exists.
    assert!(table.contains_point(&p));
    assert_eq!(table.count(), 1);
}

#[test]
fn take_disables_cleanup_and_leaves_attachment() {
    let mut table = FilterTable::new();
    let mut ctl = AttachmentController::new();
    let prog = loaded_program();
    let p = point(50, 3);

    let h = attach(&mut table, &mut ctl, &prog, &p).expect("attach succeeds");
    assert!(h.needs_cleanup());
    let taken = h.take();
    assert_eq!(taken.state(), LinkState::Taken);
    assert!(!taken.needs_cleanup());
    // Take makes no kernel call: the filter is still present, so it
    // survives the end of the session (the shutdown path skips handles
    // that need no cleanup).
    assert!(table.contains_point(&p));
}

#[test]
fn take_on_foreign_is_a_noop() {
    let record = PersistedRecord { point: point(50, 3) };
    let foreign = LinkHandle::reconstruct(&record);
    assert_eq!(foreign.state(), LinkState::Foreign);
    let after = foreign.take();
    assert_eq!(after.state(), LinkState::Foreign);
    assert!(!after.needs_cleanup());
}

#[test]
fn detach_without_matching_filter_is_not_found() {
    let mut table = FilterTable::new();
    let mut ctl = AttachmentController::new();
    let record = PersistedRecord { point: point(50, 9) };
    let mut foreign = LinkHandle::reconstruct(&record);

    assert_eq!(detach(&mut table, &mut ctl, &mut foreign), Err(DetachError::NotFound));
    assert_eq!(foreign.state(), LinkState::Detached);
}

#[test]
fn detach_on_settled_handle_is_noop_success() {
    let mut table = FilterTable::new();
    let mut ctl = AttachmentController::new();
    let prog = loaded_program();
    let p = point(50, 1);

    let mut h = attach(&mut table, &mut ctl, &prog, &p).expect("attach succeeds");
    assert_eq!(detach(&mut table, &mut ctl, &mut h), Ok(()));
    assert_eq!(h.state(), LinkState::Detached);
    // Detaching the same handle again is an idempotent success.
    assert_eq!(detach(&mut table, &mut ctl, &mut h), Ok(()));
    assert_eq!(h.state(), LinkState::Detached);
}

#[test]
fn scenario_auto_assigned_identity_round_trips() {
    let mut table = FilterTable::new();
    let mut ctl = AttachmentController::new();
    let prog = loaded_program();

    let reply = table.attach_auto_reply(&eth0(), Direction::Ingress);
    assert!(matches!(reply, AutoReply::Assigned { .. }));
    let (h, assigned) = ctl
        .attach_auto_complete(&prog, &eth0(), Direction::Ingress, reply)
        .expect("auto attach succeeds");
    assert_eq!(h.state(), LinkState::Attached);
    assert!(table.contains_point(&assigned));

    // Feeding the returned identity straight into a detach succeeds.
    let mut h = h;
    assert_eq!(detach(&mut table, &mut ctl, &mut h), Ok(()));
    assert!(!table.contains_point(&assigned));
    assert_eq!(table.count(), 0);
}

#[test]
fn auto_assignments_do_not_collide() {
    let mut table = FilterTable::new();
    let mut ctl = AttachmentController::new();
    let prog = loaded_program();

    let r1 = table.attach_auto_reply(&eth0(), Direction::Ingress);
    let (_h1, p1) = ctl
        .attach_auto_complete(&prog, &eth0(), Direction::Ingress, r1)
        .expect("first auto attach succeeds");
    let r2 = table.attach_auto_reply(&eth0(), Direction::Ingress);
    let (_h2, p2) = ctl
        .attach_auto_complete(&prog, &eth0(), Direction::Ingress, r2)
        .expect("second auto attach succeeds");
    assert_ne!((p1.priority, p1.handle), (p2.priority, p2.handle));
    assert_eq!(table.count(), 2);
}

#[test]
fn occupied_slot_of_another_process_is_foreign() {
    let mut table = FilterTable::new();
    let mut ctl = AttachmentController::new();
    let prog = loaded_program();
    let p = point(50, 1);

    // Another process holds the slot: the filter is present in the
    // kernel, but not in this controller's registry.
    assert_eq!(table.attach_reply(&p), AttachReply::Accepted);

    let r = attach(&mut table, &mut ctl, &prog, &p);
    assert_eq!(r.err(), Some(AttachError::SlotOccupiedForeign));
}

#[test]
fn malformed_identity_is_rejected_before_any_call() {
    let zero_priority = point(0, 1);
    let zero_handle = point(50, 0);
    let empty_name = AttachPoint {
        if_name: Vec::new(),
        direction: Direction::Egress,
        priority: 50,
        handle: 1,
    };
    for p in [zero_priority, zero_handle, empty_name] {
        assert_eq!(
            AttachmentController::validate_exact_point(&p),
            Err(AttachError::InvalidHandle)
        );
        // Even if a request were completed anyway, the controller still
        // reports the malformed identity.
        let mut ctl = AttachmentController::new();
        let prog = loaded_program();
        let r = ctl.attach_complete(&prog, &p, AttachReply::Failed);
        assert_eq!(r.err(), Some(AttachError::InvalidHandle));
    }
}

#[test]
fn transport_failures_surface_as_transport_errors() {
    let mut ctl = AttachmentController::new();
    let prog = loaded_program();
    let p = point(50, 1);

    let r = ctl.attach_complete(&prog, &p, AttachReply::Failed);
    assert_eq!(r.err(), Some(AttachError::Transport));

    let mut table = FilterTable::new();
    let mut h = attach(&mut table, &mut ctl, &prog, &p).expect("attach succeeds");
    let r = ctl.detach_complete(&mut h, DetachReply::Failed);
    assert_eq!(r, Err(DetachError::Transport));
    // A failed detach leaves the handle owned and the filter in place.
    assert_eq!(h.state(), LinkState::Attached);
    assert!(table.contains_point(&p));
}

#[test]
fn kernel_invalid_args_surface_as_invalid_handle() {
    let mut ctl = AttachmentController::new();
    let prog = loaded_program();
    let p = point(50, 1);
    let r = ctl.attach_complete(&prog, &p, AttachReply::InvalidArgs);
    assert_eq!(r.err(), Some(AttachError::InvalidHandle));
}

#[test]
fn chain_setup_treats_already_present_as_success() {
    assert_eq!(AttachmentController::ensure_chain(ChainReply::Installed), Ok(()));
    assert_eq!(AttachmentController::ensure_chain(ChainReply::AlreadyExists), Ok(()));
    assert_eq!(
        AttachmentController::ensure_chain(ChainReply::Failed),
        Err(ChainError::Transport)
    );
}

#[test]
fn loader_rejects_malformed_images() {
    let mut loader = ProgramLoader::new();
    let no_bytes = ProgramImage { name: b"tctest1".to_vec(), bytes: Vec::new() };
    assert_eq!(loader.load(&no_bytes, LoadReply::Loaded).err(), Some(LoadError::Invalid));
    let no_name = ProgramImage { name: Vec::new(), bytes: vec![1u8] };
    assert_eq!(loader.load(&no_name, LoadReply::Loaded).err(), Some(LoadError::Invalid));
}

#[test]
fn loader_surfaces_kernel_rejection() {
    let mut loader = ProgramLoader::new();
    let image = ProgramImage { name: b"tctest1".to_vec(), bytes: vec![1u8] };
    assert_eq!(
        loader.load(&image, LoadReply::Rejected).err(),
        Some(LoadError::KernelRejected)
    );
}

#[test]
fn loading_twice_yields_independent_instances() {
    let mut loader = ProgramLoader::new();
    let image = ProgramImage { name: b"tctest1".to_vec(), bytes: vec![1u8] };
    let a = loader.load(&image, LoadReply::Loaded).expect("first load succeeds");
    let b = loader.load(&image, LoadReply::Loaded).expect("second load succeeds");
    assert_ne!(a.id(), b.id());
    assert_eq!(a.name(), b.name());
    assert_eq!(a.name(), &b"tctest1".to_vec());
}
