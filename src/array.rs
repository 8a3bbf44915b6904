//! PDF arrays of object references and of identifier bytes.

use vstd::prelude::*;
use vstd::string::StringSliceAdditionalSpecFns;
use crate::bytes::{push_bytes, push_str};
use crate::obj_id::{ref_bytes, ObjId};

verus! {

/// `n` spaces.
pub open spec fn spaces(n: nat) -> Seq<u8> {
    Seq::new(n, |_i: int| 32u8)
}

/// The lowercase hexadecimal digit for `d` (0..=15).
pub open spec fn hex_digit(d: nat) -> u8 {
    if d < 10 {
        (48 + d) as u8
    } else {
        (87 + d) as u8
    }
}

/// Each byte as two lowercase hexadecimal digits, high nibble first.
pub open spec fn hex_of(b: Seq<u8>) -> Seq<u8>
    decreases b.len(),
{
    if b.len() == 0 {
        Seq::empty()
    } else {
        hex_of(b.drop_last()) + seq![hex_digit(b.last() as nat / 16), hex_digit(b.last() as nat % 16)]
    }
}

/// Relies on `hex::encode`: two lowercase hexadecimal digits per byte, high nibble first.
#[verifier::external_body]
fn hex_encode(b: &[u8]) -> (r: Vec<u8>)
    ensures
        r@ == hex_of(b@),
{
    hex::encode(b).into_bytes()
}

/// Appends `n` spaces.
pub fn push_spaces(out: &mut Vec<u8>, n: usize)
    ensures
        final(out)@ == old(out)@ + spaces(n as nat),
{
    let ghost start = out@;
    let mut i: usize = 0;
    while i < n
        invariant
            i <= n,
            out@ == start + spaces(i as nat),
        decreases n - i,
    {
        out.push(32u8);
        assert(spaces((i + 1) as nat) =~= spaces(i as nat).push(32u8));
        i += 1;
    }
}

/// The references of `ids` as an array; entries after the first go on lines of their own,
/// indented by `indent` plus one column.
pub open spec fn refs_array_bytes(ids: Seq<ObjId>, indent: nat) -> Seq<u8> {
    "[".spec_bytes() + refs_items(ids, indent) + "]".spec_bytes()
}

/// The items of a reference array, without the brackets.
pub open spec fn refs_items(ids: Seq<ObjId>, indent: nat) -> Seq<u8>
    decreases ids.len(),
{
    if ids.len() == 0 {
        Seq::empty()
    } else if ids.len() == 1 {
        ref_bytes(ids[0].spec_id())
    } else {
        refs_items(ids.drop_last(), indent) + "\n".spec_bytes() + spaces(indent + 1)
            + ref_bytes(ids.last().spec_id())
    }
}

/// Encodes an array-like value as a PDF array.
pub trait WriteArray {
    /// The bytes of the encoded array.
    spec fn array_bytes(&self, indent: Option<usize>) -> Seq<u8>;

    /// Appends the encoded array and returns the number of bytes written.
    fn write_array(&self, out: &mut Vec<u8>, indent: Option<usize>) -> (n: usize)
        ensures
            final(out)@ == old(out)@ + self.array_bytes(indent),
            n == self.array_bytes(indent).len();
}

/// The indentation width that `indent` asks for.
pub open spec fn indent_width(indent: Option<usize>) -> nat {
    match indent {
        Some(w) => w as nat,
        None => 0,
    }
}

impl WriteArray for Vec<ObjId> {
    open spec fn array_bytes(&self, indent: Option<usize>) -> Seq<u8> {
        refs_array_bytes(self@, indent_width(indent))
    }

    fn write_array(&self, out: &mut Vec<u8>, indent: Option<usize>) -> (n: usize) {
        let ghost start = out@;
        let first = out.len();
        let width: usize = match indent {
            Some(w) => w,
            None => 0,
        };
        push_str(out, "[");
        let ghost head = out@;
        let mut i: usize = 0;
        while i < self.len()
            invariant
                i <= self@.len(),
                width == indent_width(indent),
                out@ == head + refs_items(self@.subrange(0, i as int), width as nat),
            decreases self@.len() - i,
        {
            proof {
                let s = self@.subrange(0, i as int + 1);
                assert(s.drop_last() =~= self@.subrange(0, i as int));
            }
            if i > 0 {
                push_str(out, "\n");
                push_spaces(out, width);
                push_str(out, " ");
                proof {
                    reveal_strlit(" ");
                    vstd::string::is_ascii_spec_bytes(" ");
                    assert(" ".spec_bytes() =~= seq![32u8]);
                    assert(spaces(width as nat) + " ".spec_bytes() =~= spaces(width as nat + 1));
                }
            }
            self[i].write_ref(out);
            proof {
                let s = self@.subrange(0, i as int + 1);
                if i == 0 {
                    assert(s.len() == 1);
                }
                assert(out@ =~= head + refs_items(s, width as nat));
            }
            i += 1;
        }
        assert(self@.subrange(0, self@.len() as int) == self@);
        push_str(out, "]");
        assert(out@ =~= start + self.array_bytes(indent));
        out.len() - first
    }
}

impl WriteArray for [u8; 16] {
    open spec fn array_bytes(&self, indent: Option<usize>) -> Seq<u8> {
        crate::xref::id_pair_bytes(self@, indent_width(indent))
    }

    fn write_array(&self, out: &mut Vec<u8>, indent: Option<usize>) -> (n: usize) {
        let ghost start = out@;
        let first = out.len();
        let width: usize = match indent {
            Some(w) => w,
            None => 0,
        };
        let hex = hex_encode(self.as_slice());
        push_str(out, "[");
        push_str(out, "<");
        push_bytes(out, hex.as_slice());
        push_str(out, ">");
        push_str(out, "\n");
        push_spaces(out, width);
        push_str(out, "<");
        push_bytes(out, hex.as_slice());
        push_str(out, ">");
        push_str(out, "\n");
        push_spaces(out, width);
        push_str(out, "]");
        assert(out@ =~= start + self.array_bytes(indent));
        out.len() - first
    }
}

} // verus!
