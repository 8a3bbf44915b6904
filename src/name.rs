//! PDF names written verbatim: a solidus, the bytes, a separating space.

use vstd::prelude::*;
use vstd::string::StringSliceAdditionalSpecFns;
use crate::bytes::{push_bytes, push_str};
use crate::identifier::unescape;

verus! {

/// A name may be written verbatim when it is not empty and holds no solidus.
pub open spec fn is_valid_name(b: Seq<u8>) -> bool {
    b.len() > 0 && !b.contains(47u8)
}

/// The encoding of a verbatim name: `/<bytes> `.
pub open spec fn name_bytes(b: Seq<u8>) -> Seq<u8> {
    "/".spec_bytes() + b + " ".spec_bytes()
}

/// Why a byte string cannot be a name.
#[derive(Debug, Clone, Copy, PartialEq, Eq, Structural)]
pub enum NameError {
    /// The name is empty.
    Empty,
    /// The name holds a solidus.
    ContainsSlash,
}

impl NameError {
    /// A human-readable description of the error.
    pub fn message(&self) -> &'static str {
        match self {
            NameError::Empty => "PDF Name contain at least one ASCII character.",
            NameError::ContainsSlash => "PDF Name is not allowed to contain '/'.",
        }
    }
}

/// A PDF name whose bytes are written as they are. It is never empty and holds no solidus.
#[derive(Debug)]
pub struct Name {
    inner: Vec<u8>,
}

impl Clone for Name {
    fn clone(&self) -> (r: Self)
        ensures
            r@ == self@,
    {
        Name { inner: self.inner.clone() }
    }
}

/// Whether `b` holds the byte `c`, by a scan.
pub fn contains_byte(b: &[u8], c: u8) -> (r: bool)
    ensures
        r == b@.contains(c),
{
    let mut i: usize = 0;
    while i < b.len()
        invariant
            i <= b@.len(),
            forall|k: int| 0 <= k < i ==> b@[k] != c,
        decreases b@.len() - i,
    {
        if b[i] == c {
            return true;
        }
        i += 1;
    }
    false
}

impl Name {
    /// The bytes of the name, without the solidus.
    pub closed spec fn view(&self) -> Seq<u8> {
        self.inner@
    }

    /// The name's invariant.
    pub open spec fn wf(&self) -> bool {
        is_valid_name(self.view())
    }

    /// A name from `inner`, or why it cannot be one: an empty input gives `Empty`, one with a
    /// solidus gives `ContainsSlash`.
    pub fn try_new(inner: Vec<u8>) -> (r: Result<Self, NameError>)
        ensures
            inner@.len() == 0 ==> r == Err::<Self, NameError>(NameError::Empty),
            inner@.len() > 0 && inner@.contains(47u8) ==> r == Err::<Self, NameError>(
                NameError::ContainsSlash,
            ),
            is_valid_name(inner@) ==> r is Ok && r->Ok_0@ == inner@,
    {
        if inner.len() == 0 {
            return Err(NameError::Empty);
        }
        if contains_byte(inner.as_slice(), 47u8) {
            return Err(NameError::ContainsSlash);
        }
        Ok(Name { inner })
    }

    /// A name from bytes known to be valid.
    pub fn new(inner: Vec<u8>) -> (r: Self)
        requires
            is_valid_name(inner@),
        ensures
            r@ == inner@,
            r.wf(),
    {
        Name { inner }
    }

    /// A name from a constant byte string known to be valid.
    pub fn from_static(inner: &'static [u8]) -> (r: Self)
        requires
            is_valid_name(inner@),
        ensures
            r@ == inner@,
            r.wf(),
    {
        let mut v: Vec<u8> = Vec::new();
        push_bytes(&mut v, inner);
        Name { inner: v }
    }

    /// Appends `/<bytes> ` and returns the number of bytes written.
    pub fn write(&self, out: &mut Vec<u8>) -> (n: usize)
        ensures
            final(out)@ == old(out)@ + name_bytes(self@),
            n == name_bytes(self@).len(),
    {
        let start = out.len();
        push_str(out, "/");
        push_bytes(out, self.inner.as_slice());
        push_str(out, " ");
        out.len() - start
    }

    /// The number of bytes the name occupies when written, without the separating space.
    pub fn len(&self) -> (r: usize)
        ensures
            r == self@.len() + 1,
    {
        let written = self.to_bytes();
        proof {
            reveal_strlit("/");
            reveal_strlit(" ");
            vstd::string::is_ascii_spec_bytes("/");
            vstd::string::is_ascii_spec_bytes(" ");
        }
        written.len() - 1
    }

    /// A copy of this name.
    pub fn as_ref(&self) -> (r: Self)
        ensures
            r@ == self@,
    {
        Name { inner: self.inner.clone() }
    }

    /// The encoded name, `/<bytes> `, as a fresh byte vector.
    pub fn to_bytes(&self) -> (r: Vec<u8>)
        ensures
            r@ == name_bytes(self@),
    {
        let mut v: Vec<u8> = Vec::new();
        self.write(&mut v);
        v
    }
}

/// Reading a verbatim name back by the `#XX` escape rule gives its bytes again whenever they
/// hold no number sign.
pub proof fn lemma_plain_name_round_trip(b: Seq<u8>)
    requires
        !b.contains(35u8),
    ensures
        unescape(b) == b,
    decreases b.len(),
{
    if b.len() > 0 {
        assert(b[0] != 35u8) by {
            assert(b.contains(b[0]) ==> b.contains(35u8) || b[0] != 35u8);
        }
        let rest = b.drop_first();
        assert(!rest.contains(35u8)) by {
            if rest.contains(35u8) {
                let k = choose|k: int| 0 <= k < rest.len() && rest[k] == 35u8;
                assert(b[k + 1] == 35u8);
            }
        }
        lemma_plain_name_round_trip(rest);
        assert(seq![b[0]] + rest =~= b);
    }
}

} // verus!
