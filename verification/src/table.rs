//! Reference model of the kernel's filter table.
//!
//! The kernel's filter chains are ambient state outside any process; every
//! question about them is answered by a kernel call. This model captures
//! exactly what the kernel guarantees about those calls — each chain holds
//! at most one filter per identity, an occupied slot rejects a second
//! attach, a missing identity rejects a detach — and serves as the
//! external listing capability that the laws and the scenario tests check
//! the controller against. The unverified driver talks to the real kernel
//! instead and reports the same outcomes.

use vstd::prelude::*;
use crate::point::{bytes_eq, copy_bytes, AttachPoint, Direction, PointV};
use crate::points::PointSet;
use crate::transport::{AttachReply, AutoReply, DetachReply};

verus! {

/// What an exact-slot attach does to a chain: an absent identity is
/// inserted and accepted, a present one is rejected and the chain is left
/// unchanged.
pub open spec fn spec_table_attach(t: Set<PointV>, p: PointV) -> (Set<PointV>, AttachReply) {
    if t.contains(p) {
        (t, AttachReply::Occupied)
    } else {
        (t.insert(p), AttachReply::Accepted)
    }
}

/// What a detach does to a chain: a present identity is removed, an
/// absent one is reported missing and the chain is left unchanged.
pub open spec fn spec_table_detach(t: Set<PointV>, p: PointV) -> (Set<PointV>, DetachReply) {
    if t.contains(p) {
        (t.remove(p), DetachReply::Removed)
    } else {
        (t, DetachReply::NoSuchFilter)
    }
}

/// The slot the model assigns when the kernel may choose: priority one,
/// and the given handle.
pub open spec fn auto_point(name: Seq<u8>, direction: Direction, handle: u32) -> PointV {
    PointV { if_name: name, direction, priority: 1, handle }
}

/// All model-assignable handles for this chain are taken: the assignment
/// counts upward from the largest handle in use at its priority, so it is
/// exhausted exactly when that largest handle is the greatest value.
pub open spec fn auto_exhausted(t: Set<PointV>, name: Seq<u8>, direction: Direction) -> bool {
    t.contains(auto_point(name, direction, u32::MAX))
}

/// The filters present, over all interfaces and directions.
pub struct FilterTable {
    filters: PointSet,
}

impl View for FilterTable {
    type V = Set<PointV>;

    /// The identities of all filters present.
    closed spec fn view(&self) -> Set<PointV> {
        self.filters@
    }
}

impl FilterTable {
    /// Well-formedness of the backing storage.
    pub closed spec fn wf(&self) -> bool {
        self.filters.inv()
    }

    /// A table with no filters.
    pub fn new() -> (r: Self)
        ensures
            r@ == Set::<PointV>::empty(),
            r.wf(),
    {
        FilterTable { filters: PointSet::new() }
    }

    /// The listing capability: whether a filter with exactly this
    /// identity is present.
    pub fn contains_point(&self, p: &AttachPoint) -> (r: bool)
        ensures
            r == self@.contains(p@),
    {
        self.filters.contains(p)
    }

    /// How many filters are present in all.
    pub fn count(&self) -> (r: usize)
        requires
            self.wf(),
        ensures
            r == self@.len(),
    {
        self.filters.len()
    }

    /// One exact-slot attach call against the model kernel.
    pub fn attach_reply(&mut self, p: &AttachPoint) -> (r: AttachReply)
        requires
            old(self).wf(),
        ensures
            final(self).wf(),
            (final(self)@, r) == spec_table_attach(old(self)@, p@),
    {
        if self.filters.contains(p) {
            AttachReply::Occupied
        } else {
            self.filters.insert(p.duplicate());
            AttachReply::Accepted
        }
    }

    /// One detach call against the model kernel.
    pub fn detach_reply(&mut self, p: &AttachPoint) -> (r: DetachReply)
        requires
            old(self).wf(),
        ensures
            final(self).wf(),
            (final(self)@, r) == spec_table_detach(old(self)@, p@),
    {
        if self.filters.contains(p) {
            self.filters.remove(p);
            DetachReply::Removed
        } else {
            DetachReply::NoSuchFilter
        }
    }

    /// One kernel-assigned attach call against the model kernel: the
    /// model picks a slot that is free — callers learn which one only
    /// from the reply, as with the real kernel — inserts the filter
    /// there, and reports the assigned identity.
    pub fn attach_auto_reply(&mut self, name: &Vec<u8>, direction: Direction) -> (r: AutoReply)
        requires
            old(self).wf(),
        ensures
            final(self).wf(),
            match r {
                AutoReply::Assigned { priority, handle } => {
                    let p = PointV { if_name: name@, direction, priority, handle };
                    &&& !old(self)@.contains(p)
                    &&& final(self)@ == old(self)@.insert(p)
                    &&& !auto_exhausted(old(self)@, name@, direction)
                },
                AutoReply::Failed => {
                    &&& final(self)@ == old(self)@
                    &&& auto_exhausted(old(self)@, name@, direction)
                },
            },
    {
        let entries = self.filters.to_vec();
        let ghost mapped = entries@.map_values(|q: AttachPoint| q@);
        let mut m: u32 = 0;
        let mut i: usize = 0;
        while i < entries.len()
            invariant
                0 <= i <= entries@.len(),
                mapped == entries@.map_values(|q: AttachPoint| q@),
                forall|k: int|
                    0 <= k < i && mapped[k].if_name == name@ && mapped[k].direction == direction
                        && mapped[k].priority == 1 ==> mapped[k].handle <= m,
                m != 0 ==> mapped.contains(auto_point(name@, direction, m)),
            decreases entries@.len() - i,
        {
            let q = &entries[i];
            if bytes_eq(&q.if_name, name) && q.direction == direction && q.priority == 1 {
                if q.handle > m {
                    m = q.handle;
                    proof {
                        assert(mapped[i as int] =~= auto_point(name@, direction, m));
                    }
                }
            }
            i = i + 1;
        }
        proof {
            assert forall|x: PointV| self@.contains(x) implies mapped.contains(x) by {}
            assert forall|x: PointV| mapped.contains(x) implies self@.contains(x) by {}
        }
        if m == u32::MAX {
            return AutoReply::Failed;
        }
        proof {
            if auto_exhausted(self@, name@, direction) {
                let p = auto_point(name@, direction, u32::MAX);
                let k = choose|k: int| 0 <= k < mapped.len() && mapped[k] == p;
                assert(mapped[k].handle <= m);
            }
            let fresh = auto_point(name@, direction, (m + 1) as u32);
            if self@.contains(fresh) {
                let k = choose|k: int| 0 <= k < mapped.len() && mapped[k] == fresh;
                assert(mapped[k].handle <= m);
            }
        }
        let p = AttachPoint {
            if_name: copy_bytes(name),
            direction,
            priority: 1,
            handle: m + 1,
        };
        self.filters.insert(p);
        AutoReply::Assigned { priority: 1, handle: m + 1 }
    }
}

} // verus!
