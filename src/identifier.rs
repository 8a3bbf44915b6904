//! PDF names with full escaping: every byte that is not a regular character is written as
//! `#XX`, so that any byte string but one holding NUL can be a name.

use vstd::prelude::*;
use vstd::string::StringSliceAdditionalSpecFns;
use crate::bytes::{push_bytes, push_str};

verus! {

/// A regular character: printable ASCII other than a delimiter or the number sign.
pub open spec fn is_regular(c: u8) -> bool {
    &&& 33 <= c <= 126
    &&& c != 35  // #
    &&& c != 37  // %
    &&& c != 40 && c != 41  // ( )
    &&& c != 47  // /
    &&& c != 60 && c != 62  // < >
    &&& c != 91 && c != 93  // [ ]
    &&& c != 123 && c != 125  // { }
}

/// The uppercase hexadecimal digit for `d` (0..=15).
pub open spec fn hex_upper(d: nat) -> u8 {
    if d < 10 {
        (48 + d) as u8
    } else {
        (55 + d) as u8
    }
}

/// The value of a hexadecimal digit of either case; zero for any other byte.
pub open spec fn hex_value(h: u8) -> nat {
    if 48 <= h <= 57 {
        (h - 48) as nat
    } else if 65 <= h <= 70 {
        (h - 55) as nat
    } else if 97 <= h <= 102 {
        (h - 87) as nat
    } else {
        0
    }
}

/// How one byte is written inside a name.
pub open spec fn escape_byte(c: u8) -> Seq<u8> {
    if is_regular(c) {
        seq![c]
    } else {
        seq![35u8, hex_upper(c as nat / 16), hex_upper(c as nat % 16)]
    }
}

/// The escaped form of a byte string, byte by byte.
pub open spec fn escape(b: Seq<u8>) -> Seq<u8>
    decreases b.len(),
{
    if b.len() == 0 {
        Seq::empty()
    } else {
        escape(b.drop_last()) + escape_byte(b.last())
    }
}

/// Reads an escaped name back: `#` and two hexadecimal digits stand for one byte, any other
/// byte for itself.
pub open spec fn unescape(s: Seq<u8>) -> Seq<u8>
    decreases s.len(),
{
    if s.len() == 0 {
        Seq::empty()
    } else if s[0] == 35u8 && s.len() >= 3 {
        seq![(hex_value(s[1]) * 16 + hex_value(s[2])) as u8] + unescape(s.subrange(3, s.len() as int))
    } else {
        seq![s[0]] + unescape(s.drop_first())
    }
}

/// An identifier may be any non-empty byte string without NUL.
pub open spec fn is_valid_identifier(b: Seq<u8>) -> bool {
    b.len() > 0 && !b.contains(0u8)
}

/// The encoding of an identifier: `/`, the escaped bytes, a separating space.
pub open spec fn identifier_bytes(b: Seq<u8>) -> Seq<u8> {
    "/".spec_bytes() + escape(b) + " ".spec_bytes()
}

/// Escaping works from the front as well as from the back.
proof fn lemma_escape_front(c: u8, t: Seq<u8>)
    ensures
        escape(seq![c] + t) == escape_byte(c) + escape(t),
    decreases t.len(),
{
    let s = seq![c] + t;
    if t.len() == 0 {
        assert(s.drop_last() =~= Seq::<u8>::empty());
        assert(escape(Seq::<u8>::empty()) == Seq::<u8>::empty());
        assert(s.last() == c);
        assert(escape(s) =~= escape_byte(c));
    } else {
        assert(s.drop_last() =~= seq![c] + t.drop_last());
        lemma_escape_front(c, t.drop_last());
        assert(escape(s) =~= escape_byte(c) + escape(t));
    }
}

/// Reading back the escape of one byte yields that byte.
proof fn lemma_unescape_byte(c: u8, r: Seq<u8>)
    ensures
        unescape(escape_byte(c) + r) == seq![c] + unescape(r),
{
    let s = escape_byte(c) + r;
    if is_regular(c) {
        assert(s.drop_first() =~= r);
    } else {
        let hi = c as nat / 16;
        let lo = c as nat % 16;
        assert(hi * 16 + lo == c as nat);
        assert(hex_value(hex_upper(hi)) == hi);
        assert(hex_value(hex_upper(lo)) == lo);
        assert(s.subrange(3, s.len() as int) =~= r);
    }
}

/// Decoding an escaped identifier by the `#XX` rule gives back exactly the bytes it was given,
/// whatever delimiters or non-printable bytes they hold.
pub proof fn lemma_identifier_round_trip(b: Seq<u8>)
    ensures
        unescape(escape(b)) == b,
    decreases b.len(),
{
    if b.len() > 0 {
        let c = b[0];
        let t = b.drop_first();
        assert(b =~= seq![c] + t);
        lemma_escape_front(c, t);
        lemma_unescape_byte(c, escape(t));
        lemma_identifier_round_trip(t);
    }
}

/// The uppercase hexadecimal digit for `d`.
fn hex_upper_digit(d: u8) -> (r: u8)
    requires
        d < 16,
    ensures
        r == hex_upper(d as nat),
{
    if d < 10 {
        48 + d
    } else {
        55 + d
    }
}

/// Whether `c` is a regular character.
fn regular(c: u8) -> (r: bool)
    ensures
        r == is_regular(c),
{
    33 <= c && c <= 126 && c != 35 && c != 37 && c != 40 && c != 41 && c != 47 && c != 60 && c
        != 62 && c != 91 && c != 93 && c != 123 && c != 125
}

/// Appends the escaped form of `b`.
pub fn push_escaped(out: &mut Vec<u8>, b: &[u8])
    ensures
        final(out)@ == old(out)@ + escape(b@),
{
    let ghost start = out@;
    let mut i: usize = 0;
    while i < b.len()
        invariant
            i <= b@.len(),
            out@ == start + escape(b@.subrange(0, i as int)),
        decreases b@.len() - i,
    {
        let c = b[i];
        if regular(c) {
            out.push(c);
        } else {
            out.push(35u8);
            out.push(hex_upper_digit(c / 16));
            out.push(hex_upper_digit(c % 16));
        }
        proof {
            let s = b@.subrange(0, i as int + 1);
            assert(s.drop_last() =~= b@.subrange(0, i as int));
            assert(out@ =~= start + escape(s));
        }
        i += 1;
    }
    assert(b@.subrange(0, b@.len() as int) =~= b@);
}

/// A PDF name whose bytes are escaped when written, so delimiters, white space and
/// non-printable bytes survive. It is never empty and never holds NUL.
#[derive(Debug)]
pub struct Identifier {
    inner: Vec<u8>,
}

impl Clone for Identifier {
    fn clone(&self) -> (r: Self)
        ensures
            r@ == self@,
    {
        Identifier { inner: self.inner.clone() }
    }
}

impl Identifier {
    /// The bytes of the identifier, unescaped.
    pub closed spec fn view(&self) -> Seq<u8> {
        self.inner@
    }

    /// The identifier's invariant.
    pub open spec fn wf(&self) -> bool {
        is_valid_identifier(self.view())
    }

    /// An identifier from bytes known to be non-empty and free of NUL.
    pub fn new(inner: Vec<u8>) -> (r: Self)
        requires
            is_valid_identifier(inner@),
        ensures
            r@ == inner@,
            r.wf(),
    {
        Identifier { inner }
    }

    /// An identifier from a constant byte string known to be non-empty and free of NUL.
    pub fn from_static(inner: &'static [u8]) -> (r: Self)
        requires
            is_valid_identifier(inner@),
        ensures
            r@ == inner@,
            r.wf(),
    {
        let mut v: Vec<u8> = Vec::new();
        push_bytes(&mut v, inner);
        Identifier { inner: v }
    }

    /// An identifier from ASCII text known to be non-empty and free of NUL.
    pub fn from_str(s: &str) -> (r: Self)
        requires
            is_valid_identifier(s.spec_bytes()),
        ensures
            r@ == s.spec_bytes(),
            r.wf(),
    {
        let mut v: Vec<u8> = Vec::new();
        push_str(&mut v, s);
        Identifier { inner: v }
    }

    /// Appends `/`, the escaped bytes and a space; returns the number of bytes written.
    pub fn write(&self, out: &mut Vec<u8>) -> (n: usize)
        ensures
            final(out)@ == old(out)@ + identifier_bytes(self@),
            n == identifier_bytes(self@).len(),
    {
        let start = out.len();
        push_str(out, "/");
        push_escaped(out, self.inner.as_slice());
        push_str(out, " ");
        out.len() - start
    }

    /// The number of bytes the identifier occupies when written, without the separating space.
    pub fn len(&self) -> (r: usize)
        ensures
            r == escape(self@).len() + 1,
    {
        let written = self.to_bytes();
        proof {
            reveal_strlit("/");
            reveal_strlit(" ");
            vstd::string::is_ascii_spec_bytes("/");
            vstd::string::is_ascii_spec_bytes(" ");
        }
        written.len() - 1
    }

    /// A copy of this identifier.
    pub fn as_ref(&self) -> (r: Self)
        ensures
            r@ == self@,
    {
        Identifier { inner: self.inner.clone() }
    }

    /// The encoded identifier as a fresh byte vector.
    pub fn to_bytes(&self) -> (r: Vec<u8>)
        ensures
            r@ == identifier_bytes(self@),
    {
        let mut v: Vec<u8> = Vec::new();
        self.write(&mut v);
        v
    }
}

} // verus!
