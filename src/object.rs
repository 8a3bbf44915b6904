//! The three-phase writing contract shared by every indirect object.

use vstd::prelude::*;
use vstd::string::StringSliceAdditionalSpecFns;
use crate::bytes::{push_bytes, push_str};
use crate::obj_id::{def_bytes, ObjId};

verus! {

/// The definition line of object `id`: `<id> 0 obj` and a newline.
pub open spec fn def_line(id: u64) -> Seq<u8> {
    def_bytes(id) + "\n".spec_bytes()
}

/// The marker that closes every object, with its newline.
pub open spec fn end_line() -> Seq<u8> {
    "endobj\n".spec_bytes()
}

/// An object block followed by `tail`: definition line, body, `endobj` line, then the
/// separator bytes that come after the object.
pub open spec fn framed(id: u64, body: Seq<u8>, tail: Seq<u8>) -> Seq<u8> {
    def_line(id) + body + end_line() + tail
}

/// A complete object block as the writer emits it on its own: definition line, body, `endobj`
/// line and one blank separator line.
pub open spec fn block_bytes(id: u64, body: Seq<u8>) -> Seq<u8> {
    framed(id, body, "\n".spec_bytes())
}

/// Appends the definition line of `id` and returns the number of bytes written.
pub fn write_def_line(id: &ObjId, out: &mut Vec<u8>) -> (n: usize)
    ensures
        final(out)@ == old(out)@ + def_line(id.spec_id()),
        n == def_line(id.spec_id()).len(),
{
    let start = out.len();
    id.write_def(out);
    push_str(out, "\n");
    out.len() - start
}

/// An indirect object: it knows its identifier and writes itself in three phases, definition,
/// content and end, so that a writer can note where the object starts before any of its bytes
/// go out.
pub trait Object {
    /// The object number.
    spec fn spec_obj_id(&self) -> u64;

    /// The bytes that `write_content` appends.
    spec fn content(&self) -> Seq<u8>;

    /// Appends `<id> 0 obj` and a newline.
    fn write_def(&self, out: &mut Vec<u8>) -> (n: usize)
        ensures
            final(out)@ == old(out)@ + def_line(self.spec_obj_id()),
            n == def_line(self.spec_obj_id()).len();

    /// Appends the body of the object.
    fn write_content(&self, out: &mut Vec<u8>) -> (n: usize)
        ensures
            final(out)@ == old(out)@ + self.content(),
            n == self.content().len();

    /// Appends the `endobj` line.
    fn write_end(&self, out: &mut Vec<u8>) -> (n: usize)
        ensures
            final(out)@ == old(out)@ + end_line(),
            n == end_line().len(),
    {
        let start = out.len();
        push_str(out, "endobj\n");
        out.len() - start
    }
}

/// An indirect object whose body is given as ready-made bytes.
#[derive(Debug)]
pub struct RawObject {
    id: ObjId,
    body: Vec<u8>,
}

impl RawObject {
    /// The object `id` with body `body`.
    pub fn new(id: ObjId, body: Vec<u8>) -> (r: Self)
        ensures
            r.spec_obj_id() == id.spec_id(),
            r.content() == body@,
    {
        RawObject { id, body }
    }
}

impl Object for RawObject {
    closed spec fn spec_obj_id(&self) -> u64 {
        self.id.spec_id()
    }

    closed spec fn content(&self) -> Seq<u8> {
        self.body@
    }

    fn write_def(&self, out: &mut Vec<u8>) -> (n: usize) {
        write_def_line(&self.id, out)
    }

    fn write_content(&self, out: &mut Vec<u8>) -> (n: usize) {
        push_bytes(out, self.body.as_slice());
        self.body.len()
    }
}

} // verus!
