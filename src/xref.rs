//! The cross-reference table and the trailer that points at it.

use vstd::prelude::*;
use vstd::string::StringSliceAdditionalSpecFns;
use crate::bytes::{dec, dec10, push_dec, push_dec10, push_str};
use crate::obj_id::{ref_bytes, ObjId};
use crate::array::{hex_of, push_spaces, spaces, WriteArray};

verus! {

/// What `md5::compute` returns for `data`: its 16-byte MD5 digest.
pub uninterp spec fn md5_digest(data: Seq<u8>) -> Seq<u8>;

/// Relies on `md5::compute`: the MD5 digest of the bytes, 16 bytes long, a function of the bytes
/// alone.
#[verifier::external_body]
fn md5_compute(data: &Vec<u8>) -> (r: [u8; 16])
    ensures
        r@ == md5_digest(data@),
{
    md5::compute(data).0
}

/// The eight bytes of `v`, least significant first (taken `n` at a time from the low end).
pub open spec fn le_bytes(v: nat, n: nat) -> Seq<u8>
    decreases n,
{
    if n == 0 {
        Seq::empty()
    } else {
        seq![(v % 256) as u8] + le_bytes(v / 256, (n - 1) as nat)
    }
}

/// The offsets laid out as consecutive 8-byte little-endian integers.
pub open spec fn offsets_bytes(offsets: Seq<usize>) -> Seq<u8>
    decreases offsets.len(),
{
    if offsets.len() == 0 {
        Seq::empty()
    } else {
        offsets_bytes(offsets.drop_last()) + le_bytes(offsets.last() as nat, 8)
    }
}

/// One table entry: a ten-digit offset, generation zero, in use.
pub open spec fn entry_bytes(offset: usize) -> Seq<u8> {
    dec10(offset as nat) + " 00000 n \n".spec_bytes()
}

/// The entries of the table, one line each, in the order given.
pub open spec fn entries_bytes(offsets: Seq<usize>) -> Seq<u8>
    decreases offsets.len(),
{
    if offsets.len() == 0 {
        Seq::empty()
    } else {
        entries_bytes(offsets.drop_last()) + entry_bytes(offsets.last())
    }
}

/// The whole cross-reference section: marker, subsection header, entries.
#[verifier::opaque]
pub open spec fn table_bytes(offsets: Seq<usize>) -> Seq<u8> {
    "xref\n".spec_bytes() + "0 ".spec_bytes() + dec(offsets.len()) + "\n".spec_bytes()
        + entries_bytes(offsets)
}

/// The indentation of the trailer dictionary: as wide as the word `trailer`.
pub open spec fn trailer_indent() -> Seq<u8> {
    spaces(7)
}

/// The trailer block: `/Size`, `/Root`, the `/ID` pair, then `startxref` and the table's offset.
#[verifier::opaque]
pub open spec fn trailer_bytes(offset: usize, size: usize, root: u64, id: Seq<u8>) -> Seq<u8> {
    trailer_size_part(size) + trailer_root_part(root) + trailer_id_part(id) + trailer_end_part(offset)
}

/// The opening of the trailer dictionary and its `/Size` entry.
pub open spec fn trailer_size_part(size: usize) -> Seq<u8> {
    "trailer\n".spec_bytes() + trailer_indent() + "<< ".spec_bytes() + "/Size ".spec_bytes()
        + dec(size as nat) + "\n".spec_bytes()
}

/// The `/Root` entry of the trailer.
pub open spec fn trailer_root_part(root: u64) -> Seq<u8> {
    trailer_indent() + "/Root ".spec_bytes() + ref_bytes(root) + "\n".spec_bytes()
}

/// The `/ID` entry of the trailer.
pub open spec fn trailer_id_part(id: Seq<u8>) -> Seq<u8> {
    trailer_indent() + "/ID ".spec_bytes() + id_pair_bytes(id, 10) + "\n".spec_bytes()
}

/// The end of the trailer dictionary and the `startxref` pointer.
pub open spec fn trailer_end_part(offset: usize) -> Seq<u8> {
    trailer_indent() + ">>".spec_bytes() + "\n".spec_bytes() + "startxref\n".spec_bytes()
        + dec(offset as nat) + "\n".spec_bytes()
}

/// The document identifier written twice as hexadecimal strings inside an array.
pub open spec fn id_pair_bytes(id: Seq<u8>, indent: nat) -> Seq<u8> {
    "[".spec_bytes() + "<".spec_bytes() + hex_of(id) + ">".spec_bytes() + "\n".spec_bytes()
        + spaces(indent) + "<".spec_bytes() + hex_of(id) + ">".spec_bytes() + "\n".spec_bytes()
        + spaces(indent) + "]".spec_bytes()
}

/// Maps each indirect object, in the order written, to the byte offset at which it starts. The
/// generation number is always zero and every entry is in use.
#[derive(Debug)]
pub struct CrossReferenceTable {
    offsets: Vec<usize>,
}

impl CrossReferenceTable {
    /// The recorded offsets, in the order they were added.
    pub closed spec fn view(&self) -> Seq<usize> {
        self.offsets@
    }

    /// An empty table.
    pub fn new() -> (r: Self)
        ensures
            r.view() == Seq::<usize>::empty(),
    {
        CrossReferenceTable { offsets: Vec::new() }
    }

    /// Appends the offset of the next object.
    pub fn add_object(&mut self, byte_offset: usize)
        ensures
            final(self).view() == old(self).view().push(byte_offset),
    {
        self.offsets.push(byte_offset);
    }

    /// Appends the table section: `xref`, the subsection header `0 <count>`, then one fixed-width
    /// line per entry.
    pub fn write(&self, out: &mut Vec<u8>)
        ensures
            final(out)@ == old(out)@ + table_bytes(self.view()),
    {
        let ghost start = out@;
        push_str(out, "xref\n");
        push_str(out, "0 ");
        push_dec(out, self.offsets.len() as u64);
        push_str(out, "\n");
        let ghost head = out@;
        let mut i: usize = 0;
        while i < self.offsets.len()
            invariant
                i <= self.offsets@.len(),
                out@ == head + entries_bytes(self.offsets@.subrange(0, i as int)),
            decreases self.offsets@.len() - i,
        {
            push_dec10(out, self.offsets[i] as u64);
            push_str(out, " 00000 n \n");
            proof {
                let s = self.offsets@.subrange(0, i as int + 1);
                assert(s.drop_last() == self.offsets@.subrange(0, i as int));
            }
            i += 1;
        }
        assert(self.offsets@.subrange(0, self.offsets@.len() as int) == self.offsets@);
        reveal(table_bytes);
        assert(out@ =~= start + table_bytes(self.view()));
    }

    /// The number of entries.
    pub fn len(&self) -> (r: usize)
        ensures
            r == self.view().len(),
    {
        self.offsets.len()
    }

    /// Whether the table holds no entry.
    pub fn is_empty(&self) -> (r: bool)
        ensures
            r == (self.view().len() == 0),
    {
        self.len() == 0
    }

    /// The 16-byte document identifier: the MD5 digest of the offsets, each laid out as eight
    /// little-endian bytes.
    pub fn offsets_hash(&self) -> (r: [u8; 16])
        ensures
            r@ == md5_digest(offsets_bytes(self.view())),
    {
        let mut bytes: Vec<u8> = Vec::new();
        let mut i: usize = 0;
        while i < self.offsets.len()
            invariant
                i <= self.offsets@.len(),
                bytes@ == offsets_bytes(self.offsets@.subrange(0, i as int)),
            decreases self.offsets@.len() - i,
        {
            push_le(&mut bytes, self.offsets[i] as u64, 8);
            proof {
                let s = self.offsets@.subrange(0, i as int + 1);
                assert(s.drop_last() == self.offsets@.subrange(0, i as int));
            }
            i += 1;
        }
        assert(self.offsets@.subrange(0, self.offsets@.len() as int) == self.offsets@);
        md5_compute(&bytes)
    }

    /// Appends the trailer: the table size, the root reference, the identifier pair and the byte
    /// offset of the table itself.
    pub fn write_trailer(&self, out: &mut Vec<u8>, offset: usize, size: usize, root: &ObjId, id: &[u8; 16])
        ensures
            final(out)@ == old(out)@ + trailer_bytes(offset, size, root.spec_id(), id@),
    {
        let ghost start = out@;
        push_str(out, "trailer\n");
        push_spaces(out, 7);
        push_str(out, "<< ");
        push_str(out, "/Size ");
        push_dec(out, size as u64);
        push_str(out, "\n");
        assert(out@ =~= start + trailer_size_part(size));
        let ghost at_root = out@;
        push_spaces(out, 7);
        push_str(out, "/Root ");
        root.write_ref(out);
        push_str(out, "\n");
        assert(out@ =~= at_root + trailer_root_part(root.spec_id()));
        let ghost at_id = out@;
        push_spaces(out, 7);
        push_str(out, "/ID ");
        id.write_array(out, Some(10));
        push_str(out, "\n");
        assert(out@ =~= at_id + trailer_id_part(id@));
        let ghost at_end = out@;
        push_spaces(out, 7);
        push_str(out, ">>");
        push_str(out, "\n");
        push_str(out, "startxref\n");
        push_dec(out, offset as u64);
        push_str(out, "\n");
        assert(out@ =~= at_end + trailer_end_part(offset));
        reveal(trailer_bytes);
        assert(out@ =~= start + trailer_bytes(offset, size, root.spec_id(), id@));
    }
}

/// Appends the `n` low-order bytes of `v`, least significant first.
fn push_le(out: &mut Vec<u8>, v: u64, n: usize)
    ensures
        final(out)@ == old(out)@ + le_bytes(v as nat, n as nat),
    decreases n,
{
    let ghost start = out@;
    if n > 0 {
        out.push((v % 256) as u8);
        push_le(out, v / 256, n - 1);
        assert(out@ =~= start + le_bytes(v as nat, n as nat));
    }
}

} // verus!
