//! Object identifiers and the allocator that hands them out.

use vstd::prelude::*;
use vstd::string::StringSliceAdditionalSpecFns;
use crate::bytes::{dec, push_dec, push_str};

verus! {

/// The bytes of an indirect reference to object `id`: `<id> 0 R`.
pub open spec fn ref_bytes(id: u64) -> Seq<u8> {
    dec(id as nat) + " 0 R".spec_bytes()
}

/// The bytes that open the definition of object `id`: `<id> 0 obj`.
pub open spec fn def_bytes(id: u64) -> Seq<u8> {
    dec(id as nat) + " 0 obj".spec_bytes()
}

/// The identifier of an indirect object. The generation number is always zero: documents are
/// written anew, never updated in place.
#[derive(Debug, PartialEq, Eq, Structural)]
pub struct ObjId {
    id: u64,
}

impl Clone for ObjId {
    fn clone(&self) -> (r: Self)
        ensures
            r == *self,
    {
        ObjId { id: self.id }
    }
}

/// The identifier with object number `n`.
pub closed spec fn obj_id_of(n: u64) -> ObjId {
    ObjId { id: n }
}

/// `obj_id_of` gives the identifier of the number it is given, and every identifier is the
/// one of its number.
pub proof fn lemma_obj_id_of(n: u64, a: ObjId)
    ensures
        obj_id_of(n).spec_id() == n,
        obj_id_of(a.spec_id()) == a,
{
}

impl ObjId {
    /// The object number.
    pub closed spec fn spec_id(&self) -> u64 {
        self.id
    }

    /// An identifier for object number `id`.
    pub fn from_number(id: u64) -> (r: Self)
        ensures
            r.spec_id() == id,
    {
        ObjId { id }
    }

    /// The object number.
    pub fn id(&self) -> (r: u64)
        ensures
            r == self.spec_id(),
    {
        self.id
    }

    /// Appends the indirect reference `<id> 0 R` and returns the number of bytes written.
    pub fn write_ref(&self, out: &mut Vec<u8>) -> (n: usize)
        ensures
            final(out)@ == old(out)@ + ref_bytes(self.spec_id()),
            n == ref_bytes(self.spec_id()).len(),
    {
        let start = out.len();
        push_dec(out, self.id);
        push_str(out, " 0 R");
        out.len() - start
    }

    /// Appends the definition prologue `<id> 0 obj` and returns the number of bytes written.
    pub fn write_def(&self, out: &mut Vec<u8>) -> (n: usize)
        ensures
            final(out)@ == old(out)@ + def_bytes(self.spec_id()),
            n == def_bytes(self.spec_id()).len(),
    {
        let start = out.len();
        push_dec(out, self.id);
        push_str(out, " 0 obj");
        out.len() - start
    }
}

/// An indirect reference to an object by its number, written `<id> 0 R`.
#[derive(Debug, PartialEq, Eq, Structural)]
pub struct ObjRef {
    id: u64,
}

impl ObjRef {
    /// The number of the object referred to.
    pub closed spec fn spec_id(&self) -> u64 {
        self.id
    }

    /// Appends `<id> 0 R` and returns the number of bytes written.
    pub fn write(&self, out: &mut Vec<u8>) -> (n: usize)
        ensures
            final(out)@ == old(out)@ + ref_bytes(self.spec_id()),
            n == ref_bytes(self.spec_id()).len(),
    {
        let start = out.len();
        push_dec(out, self.id);
        push_str(out, " 0 R");
        out.len() - start
    }
}

impl From<u64> for ObjRef {
    /// A reference to object `id`.
    fn from(id: u64) -> (r: Self)
        ensures
            r.spec_id() == id,
    {
        ObjRef { id }
    }
}

impl vstd::std_specs::convert::FromSpecImpl<u64> for ObjRef {
    open spec fn obeys_from_spec() -> bool {
        true
    }

    closed spec fn from_spec(id: u64) -> ObjRef {
        ObjRef { id }
    }
}

/// Hands out object identifiers: each call of `create_id` returns the next number, starting at 1,
/// so no identifier is handed out twice by one allocator.
#[derive(Debug)]
pub struct IdManager {
    curr: u64,
}

impl IdManager {
    /// The number that the next call of `create_id` hands out.
    pub closed spec fn next(&self) -> u64 {
        self.curr
    }

    /// A fresh allocator, whose first identifier is 1.
    pub fn new() -> (r: Self)
        ensures
            r.next() == 1,
    {
        IdManager { curr: 1 }
    }

    /// A copy of this allocator with the same counter; the two then hand out the same sequence.
    pub fn clone(&self) -> (r: Self)
        ensures
            r.next() == self.next(),
    {
        IdManager { curr: self.curr }
    }

    /// Hands out the next identifier.
    pub fn create_id(&mut self) -> (r: ObjId)
        requires
            old(self).next() < u64::MAX,
        ensures
            r.spec_id() == old(self).next(),
            final(self).next() == old(self).next() + 1,
    {
        let id = self.curr;
        self.curr = self.curr + 1;
        ObjId { id }
    }
}

} // verus!
