//! A finite collection of slot identities, backed by a duplicate-free
//! vector. The controller's registry of held points and the filter-table
//! model both keep one.

use vstd::prelude::*;
use crate::point::{point_eq, AttachPoint, PointV};

verus! {

/// A finite collection of distinct slot identities.
pub struct PointSet {
    items: Vec<AttachPoint>,
}

impl PointSet {
    /// The identities held, as a mathematical set.
    pub closed spec fn view(&self) -> Set<PointV> {
        self.mapped().to_set()
    }

    /// The identities of the backing vector, in storage order.
    pub closed spec fn mapped(&self) -> Seq<PointV> {
        self.items@.map_values(|p: AttachPoint| p@)
    }

    /// The backing vector holds no identity twice.
    pub closed spec fn inv(&self) -> bool {
        self.mapped().no_duplicates()
    }

    /// The empty collection.
    pub fn new() -> (r: Self)
        ensures
            r@ == Set::<PointV>::empty(),
            r.inv(),
    {
        let r = PointSet { items: Vec::new() };
        proof {
            assert(r@ =~= Set::<PointV>::empty());
        }
        r
    }

    /// Index of the identity equal to `p`, if present.
    fn find(&self, p: &AttachPoint) -> (r: Option<usize>)
        ensures
            match r {
                Some(i) => i < self.items@.len() && self.mapped()[i as int] == p@,
                None => !self.mapped().contains(p@),
            },
    {
        let mut i: usize = 0;
        while i < self.items.len()
            invariant
                0 <= i <= self.items@.len(),
                forall|k: int| 0 <= k < i ==> self.mapped()[k] != p@,
            decreases self.items@.len() - i,
        {
            if point_eq(&self.items[i], p) {
                return Some(i);
            }
            i = i + 1;
        }
        None
    }

    /// Whether the identity is in the collection.
    pub fn contains(&self, p: &AttachPoint) -> (r: bool)
        ensures
            r == self@.contains(p@),
    {
        match self.find(p) {
            Some(_) => true,
            None => false,
        }
    }

    /// How many identities are held.
    pub fn len(&self) -> (r: usize)
        requires
            self.inv(),
        ensures
            r == self@.len(),
    {
        proof {
            self.mapped().unique_seq_to_set();
        }
        self.items.len()
    }

    /// Adds an identity; present identities stay single.
    pub fn insert(&mut self, p: AttachPoint)
        requires
            old(self).inv(),
        ensures
            final(self).inv(),
            final(self)@ == old(self)@.insert(p@),
    {
        let ghost before = self.mapped();
        if self.contains(&p) {
            proof {
                assert(self@ =~= old(self)@.insert(p@));
            }
        } else {
            self.items.push(p);
            proof {
                assert(self.mapped() =~= before.push(p@));
                assert forall|x: PointV| self@.contains(x) <==> old(self)@.insert(p@).contains(x) by {
                    if self.mapped().contains(x) {
                        let i = choose|i: int|
                            0 <= i < self.mapped().len() && self.mapped()[i] == x;
                        if i < before.len() {
                            assert(before[i] == x);
                        } else {
                            assert(x == p@);
                        }
                    }
                    if before.contains(x) {
                        let i = choose|i: int| 0 <= i < before.len() && before[i] == x;
                        assert(self.mapped()[i] == x);
                    }
                    if x == p@ {
                        assert(self.mapped()[before.len() as int] == x);
                    }
                }
                assert(self@ =~= old(self)@.insert(p@));
            }
        }
    }

    /// Removes an identity; removing an absent one changes nothing.
    pub fn remove(&mut self, p: &AttachPoint)
        requires
            old(self).inv(),
        ensures
            final(self).inv(),
            final(self)@ == old(self)@.remove(p@),
    {
        let ghost before = self.mapped();
        match self.find(p) {
            None => {
                proof {
                    assert(self@ =~= old(self)@.remove(p@));
                }
            },
            Some(i) => {
                self.items.remove(i);
                proof {
                    let gi = i as int;
                    assert(self.mapped() =~= before.remove(gi));
                    assert forall|x: PointV|
                        self@.contains(x) <==> old(self)@.remove(p@).contains(x) by {
                        if self.mapped().contains(x) {
                            let j = choose|j: int|
                                0 <= j < self.mapped().len() && self.mapped()[j] == x;
                            if j < gi {
                                assert(before[j] == x);
                                assert(before[j] != before[gi]);
                            } else {
                                assert(before[j + 1] == x);
                                assert(before[j + 1] != before[gi]);
                            }
                        }
                        if before.contains(x) && x != p@ {
                            let j = choose|j: int| 0 <= j < before.len() && before[j] == x;
                            if j < gi {
                                assert(self.mapped()[j] == x);
                            } else {
                                assert(j != gi);
                                assert(self.mapped()[j - 1] == x);
                            }
                        }
                    }
                    assert(self@ =~= old(self)@.remove(p@));
                }
            },
        }
    }

    /// The identities, one copy of each, for callers that list them.
    pub fn to_vec(&self) -> (r: Vec<AttachPoint>)
        ensures
            r@.map_values(|p: AttachPoint| p@) =~= self.mapped(),
            forall|x: PointV| self@.contains(x) <==> r@.map_values(
                |p: AttachPoint| p@,
            ).contains(x),
    {
        let mut r: Vec<AttachPoint> = Vec::new();
        let mut i: usize = 0;
        while i < self.items.len()
            invariant
                0 <= i <= self.items@.len(),
                r@.len() == i,
                forall|k: int| 0 <= k < i ==> r@.map_values(|p: AttachPoint| p@)[k]
                    == self.mapped()[k],
            decreases self.items@.len() - i,
        {
            r.push(self.items[i].duplicate());
            i = i + 1;
        }
        proof {
            assert(r@.map_values(|p: AttachPoint| p@) =~= self.mapped());
        }
        r
    }
}

} // verus!
