//! Identity of one filter slot in an interface's classifier chain.

use vstd::prelude::*;

verus! {

/// Which hook of an interface's classifier chain a filter occupies.
#[derive(Clone, Copy, Debug, PartialEq, Eq, Structural)]
pub enum Direction {
    Ingress,
    Egress,
}

/// Mathematical identity of one filter slot: the four fields that the
/// kernel uses to address a filter within one interface's chain.
#[verifier::ext_equal]
pub struct PointV {
    pub if_name: Seq<u8>,
    pub direction: Direction,
    pub priority: u16,
    pub handle: u32,
}

/// One slot in an interface's filter chain: the interface name (raw bytes),
/// the hook direction, the priority that orders evaluation, and the handle
/// that disambiguates filters sharing a priority. Two points denote the
/// same slot exactly when all four fields agree.
#[derive(Clone, Debug, PartialEq, Eq)]
pub struct AttachPoint {
    pub if_name: Vec<u8>,
    pub direction: Direction,
    pub priority: u16,
    pub handle: u32,
}

impl View for AttachPoint {
    type V = PointV;

    open spec fn view(&self) -> PointV {
        PointV {
            if_name: self.if_name@,
            direction: self.direction,
            priority: self.priority,
            handle: self.handle,
        }
    }
}

/// Durable identity of one attachment, as written to and read back from
/// the persistence store. It carries exactly the slot identity; the kernel
/// remains authoritative about whether that slot is still occupied.
#[derive(Clone, Debug, PartialEq, Eq)]
pub struct PersistedRecord {
    pub point: AttachPoint,
}

impl View for PersistedRecord {
    type V = PointV;

    open spec fn view(&self) -> PointV {
        self.point@
    }
}

impl AttachPoint {
    /// An owned copy of this identity, equal in all four fields.
    pub fn duplicate(&self) -> (r: AttachPoint)
        ensures
            r@ == self@,
    {
        let r = AttachPoint {
            if_name: copy_bytes(&self.if_name),
            direction: self.direction,
            priority: self.priority,
            handle: self.handle,
        };
        proof {
            assert(r@ =~= self@);
        }
        r
    }
}

/// An owned copy of a byte string.
pub fn copy_bytes(v: &Vec<u8>) -> (r: Vec<u8>)
    ensures
        r@ == v@,
{
    let r = v.clone();
    proof {
        assert(r@ =~= v@);
    }
    r
}

/// Bytes usable in an interface name: printable ASCII without the quote
/// and backslash that the persisted record encoding reserves.
pub open spec fn name_byte_ok(b: u8) -> bool {
    0x20 <= b && b < 0x7f && b != 0x22 && b != 0x5c
}

/// A usable interface name: nonempty, made of `name_byte_ok` bytes.
pub open spec fn valid_if_name(s: Seq<u8>) -> bool {
    0 < s.len() && (forall|i: int| 0 <= i < s.len() ==> name_byte_ok(s[i]))
}

/// A well-formed identity for an exact-slot attach request: a usable
/// interface name and nonzero priority and handle. Zero is the kernel's
/// "assign one for me" marker, so an exact request carrying it is a
/// malformed identity, not a valid slot.
pub open spec fn valid_exact_point(p: PointV) -> bool {
    valid_if_name(p.if_name) && p.priority != 0 && p.handle != 0
}

/// Byte-wise equality of two interface names.
pub fn bytes_eq(a: &Vec<u8>, b: &Vec<u8>) -> (r: bool)
    ensures
        r == (a@ == b@),
{
    if a.len() != b.len() {
        return false;
    }
    let mut i: usize = 0;
    while i < a.len()
        invariant
            0 <= i <= a.len(),
            a.len() == b.len(),
            forall|k: int| 0 <= k < i ==> a@[k] == b@[k],
        decreases a.len() - i,
    {
        if a[i] != b[i] {
            return false;
        }
        i = i + 1;
    }
    proof {
        assert(a@ =~= b@);
    }
    true
}

/// Checks that a name is usable as an interface name in a slot identity.
pub fn check_if_name(s: &Vec<u8>) -> (r: bool)
    ensures
        r == valid_if_name(s@),
{
    if s.len() == 0 {
        return false;
    }
    let mut i: usize = 0;
    while i < s.len()
        invariant
            0 <= i <= s.len(),
            forall|k: int| 0 <= k < i ==> name_byte_ok(s@[k]),
        decreases s.len() - i,
    {
        let b = s[i];
        if !(0x20 <= b && b < 0x7f && b != 0x22 && b != 0x5c) {
            return false;
        }
        i = i + 1;
    }
    true
}

/// Whether two points denote the same slot: all four fields agree.
pub fn point_eq(a: &AttachPoint, b: &AttachPoint) -> (r: bool)
    ensures
        r == (a@ == b@),
{
    let r = bytes_eq(&a.if_name, &b.if_name) && a.direction == b.direction
        && a.priority == b.priority && a.handle == b.handle;
    proof {
        if r {
            assert(a@ =~= b@);
        }
    }
    r
}

/// Checks that a point is a well-formed exact-slot identity.
pub fn check_exact_point(p: &AttachPoint) -> (r: bool)
    ensures
        r == valid_exact_point(p@),
{
    check_if_name(&p.if_name) && p.priority != 0 && p.handle != 0
}

} // verus!
