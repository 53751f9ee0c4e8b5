//! The persistence store: one durable slot for one attachment's identity.

use vstd::prelude::*;
use crate::codec::{encode_record, parse_record, spec_encode_record, spec_parse_record};
use crate::errors::PersistError;
use crate::point::{copy_bytes, PersistedRecord, PointV};

verus! {

/// What a load returns for a given slot content: nothing stored is
/// `Missing`; stored bytes that do not decode are `Corrupt` — malformed
/// persisted data needs operator attention and must not crash a reader.
pub open spec fn spec_store_load(slot: Option<Seq<u8>>) -> Result<PointV, PersistError> {
    match slot {
        None => Err(PersistError::Missing),
        Some(bytes) => match spec_parse_record(bytes) {
            Some(p) => Ok(p),
            None => Err(PersistError::Corrupt),
        },
    }
}

/// Reference model of the durable store: the single slot kept under the
/// well-known logical name, holding the encoded bytes of at most one
/// record. A write replaces the whole slot at once, so no reader ever
/// sees a partial record. The unverified driver keeps the same bytes in
/// a file written atomically; `restore` stands for a later process
/// session finding those bytes (or nothing) on the durable medium. The
/// record is only a hint: the kernel stays authoritative about whether
/// the attachment it names still exists.
pub struct PersistenceStore {
    slot: Option<Vec<u8>>,
}

impl View for PersistenceStore {
    type V = Option<Seq<u8>>;

    /// The bytes the durable slot holds.
    closed spec fn view(&self) -> Option<Seq<u8>> {
        match self.slot {
            Some(v) => Some(v@),
            None => None,
        }
    }
}

impl PersistenceStore {
    /// A store whose slot holds nothing yet.
    pub fn new() -> (r: Self)
        ensures
            r@ is None,
    {
        PersistenceStore { slot: None }
    }

    /// A store as a fresh session finds it: whatever bytes the durable
    /// medium holds, or nothing.
    pub fn restore(slot: Option<Vec<u8>>) -> (r: Self)
        ensures
            r@ == (match slot {
                Some(v) => Some(v@),
                None => None::<Seq<u8>>,
            }),
    {
        PersistenceStore { slot }
    }

    /// The durable bytes, as a later session would find them.
    pub fn contents(&self) -> (r: Option<Vec<u8>>)
        ensures
            (match r {
                Some(v) => Some(v@),
                None => None::<Seq<u8>>,
            }) == self@,
    {
        match &self.slot {
            Some(v) => Some(copy_bytes(v)),
            None => None,
        }
    }

    /// Replaces the slot with the encoding of `record`, atomically: after
    /// this returns, the slot holds exactly that encoding, whatever it
    /// held before. In the model the replacement itself cannot fail; the
    /// driver maps a failing medium to `PersistError::Io`.
    pub fn save(&mut self, record: &PersistedRecord) -> (r: Result<(), PersistError>)
        ensures
            final(self)@ == Some(spec_encode_record(record@)),
            r == Ok::<(), PersistError>(()),
    {
        self.slot = Some(encode_record(record));
        Ok(())
    }

    /// Reads the stored record back: `Missing` when nothing is stored,
    /// `Corrupt` when the stored bytes do not decode to a record.
    pub fn load(&self) -> (r: Result<PersistedRecord, PersistError>)
        ensures
            (match r {
                Ok(rec) => Ok(rec@),
                Err(e) => Err(e),
            }) == spec_store_load(self@),
    {
        match &self.slot {
            None => Err(PersistError::Missing),
            Some(bytes) => match parse_record(bytes) {
                Some(rec) => Ok(rec),
                None => Err(PersistError::Corrupt),
            },
        }
    }

    /// Empties the slot; deleting when nothing is stored is not an error.
    pub fn delete(&mut self) -> (r: Result<(), PersistError>)
        ensures
            final(self)@ is None,
            r == Ok::<(), PersistError>(()),
    {
        self.slot = None;
        Ok(())
    }
}

} // verus!
