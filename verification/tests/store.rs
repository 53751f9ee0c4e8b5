//! Tests of the persistence store model and the rediscovery path.

use tchandle::controller::AttachmentController;
use tchandle::errors::{DetachError, PersistError};
use tchandle::handle::{LinkHandle, LinkState};
use tchandle::point::{AttachPoint, Direction, PersistedRecord};
use tchandle::store::PersistenceStore;
use tchandle::table::FilterTable;
use tchandle::transport::AttachReply;

fn record() -> PersistedRecord {
    PersistedRecord {
        point: AttachPoint {
            if_name: b"eth0".to_vec(),
            direction: Direction::Ingress,
            priority: 50,
            handle: 3,
        },
    }
}

#[test]
fn save_then_load_returns_an_equal_record() {
    let mut store = PersistenceStore::new();
    let rec = record();
    assert_eq!(store.save(&rec), Ok(()));
    let loaded = store.load().expect("a saved record loads");
    assert_eq!(loaded, rec);
}

#[test]
fn save_replaces_the_previous_record() {
    let mut store = PersistenceStore::new();
    let first = record();
    let mut second = record();
    second.point.handle = 9;
    assert_eq!(store.save(&first), Ok(()));
    assert_eq!(store.save(&second), Ok(()));
    assert_eq!(store.load().expect("the newer record loads"), second);
}

#[test]
fn load_without_a_record_is_missing() {
    let store = PersistenceStore::new();
    assert_eq!(store.load().err(), Some(PersistError::Missing));
}

#[test]
fn delete_removes_and_is_idempotent() {
    let mut store = PersistenceStore::new();
    assert_eq!(store.save(&record()), Ok(()));
    assert_eq!(store.delete(), Ok(()));
    assert_eq!(store.load().err(), Some(PersistError::Missing));
    // Deleting when nothing is stored is not an error.
    assert_eq!(store.delete(), Ok(()));
}

#[test]
fn undecodable_bytes_load_as_corrupt() {
    let store = PersistenceStore::restore(Some(b"not a record".to_vec()));
    assert_eq!(store.load().err(), Some(PersistError::Corrupt));
    let empty = PersistenceStore::restore(None);
    assert_eq!(empty.load().err(), Some(PersistError::Missing));
}

#[test]
fn scenario_persist_rediscover_detach_delete() {
    // First session: the attachment exists in the kernel and its
    // identity is saved.
    let mut table = FilterTable::new();
    let rec = record();
    assert_eq!(table.attach_reply(&rec.point), AttachReply::Accepted);
    let mut store = PersistenceStore::new();
    assert_eq!(store.save(&rec), Ok(()));

    // A new process session finds the durable bytes and rediscovers the
    // record; the kernel-side table survives across sessions.
    let mut later = PersistenceStore::restore(store.contents());
    let found = later.load().expect("the persisted record is rediscovered");
    assert_eq!(found, rec);

    // The foreign handle built purely from identity detaches the filter.
    let mut foreign = LinkHandle::reconstruct(&found);
    assert_eq!(foreign.state(), LinkState::Foreign);
    let mut ctl = AttachmentController::new();
    let reply = table.detach_reply(foreign.point());
    assert_eq!(ctl.detach_complete(&mut foreign, reply), Ok(()));
    assert!(!table.contains_point(&rec.point));
    assert_eq!(foreign.state(), LinkState::Detached);

    // The record is deleted; a subsequent load reports it missing.
    assert_eq!(later.delete(), Ok(()));
    assert_eq!(later.load().err(), Some(PersistError::Missing));
}

#[test]
fn stale_record_detach_is_not_found_then_delete_still_works() {
    // The record survived, the kernel attachment did not: detaching is
    // NotFound, never a false success, and cleanup of the record is
    // still possible.
    let mut table = FilterTable::new();
    let mut store = PersistenceStore::new();
    let rec = record();
    assert_eq!(store.save(&rec), Ok(()));

    let mut later = PersistenceStore::restore(store.contents());
    let found = later.load().expect("the persisted record is rediscovered");
    let mut foreign = LinkHandle::reconstruct(&found);
    let mut ctl = AttachmentController::new();
    let reply = table.detach_reply(foreign.point());
    assert_eq!(ctl.detach_complete(&mut foreign, reply), Err(DetachError::NotFound));
    assert_eq!(foreign.state(), LinkState::Detached);
    assert_eq!(later.delete(), Ok(()));
}
