//! Numbers as the format writes them, and the rectangles built from them.
//!
//! A number is kept as its decimal numeral: an optional minus sign, digits, and at most one
//! decimal point with digits on both sides. Coordinates arrive already resolved to user-space
//! units and already written out in decimal.

use vstd::prelude::*;
use vstd::string::StringSliceAdditionalSpecFns;
use crate::bytes::{dec, push_bytes, push_dec, push_str};

verus! {

/// An ASCII decimal digit.
pub open spec fn is_digit(c: u8) -> bool {
    48 <= c <= 57
}

/// Digits with at most one decimal point, which is neither first nor last.
pub open spec fn is_unsigned_numeral(t: Seq<u8>) -> bool {
    &&& t.len() > 0
    &&& forall|i: int|
        0 <= i < t.len() ==> is_digit(#[trigger] t[i]) || (t[i] == 46u8 && 0 < i < t.len() - 1)
    &&& forall|i: int, j: int|
        0 <= i < t.len() && 0 <= j < t.len() && #[trigger] t[i] == 46u8 && #[trigger] t[j] == 46u8
            ==> i == j
}

/// A decimal numeral, optionally negative.
pub open spec fn is_numeral(s: Seq<u8>) -> bool {
    if s.len() > 0 && s[0] == 45u8 {
        is_unsigned_numeral(s.drop_first())
    } else {
        is_unsigned_numeral(s)
    }
}

/// Every byte of a decimal numeral of a natural number is a digit.
pub proof fn lemma_dec_digits(n: nat)
    ensures
        forall|i: int| 0 <= i < dec(n).len() ==> is_digit(#[trigger] dec(n)[i]),
        dec(n).len() > 0,
    decreases n,
{
    if n >= 10 {
        lemma_dec_digits(n / 10);
    }
}

/// Whether `s[lo..]` is an unsigned numeral.
fn check_unsigned(s: &[u8], lo: usize) -> (r: bool)
    requires
        lo <= s@.len(),
    ensures
        r == is_unsigned_numeral(s@.subrange(lo as int, s@.len() as int)),
{
    let n = s.len();
    let ghost t = s@.subrange(lo as int, n as int);
    if lo >= n {
        return false;
    }
    let mut dot: usize = n;
    let mut i: usize = lo;
    while i < n
        invariant
            lo <= i <= n,
            n == s@.len(),
            t == s@.subrange(lo as int, n as int),
            dot == n || (lo < dot < i && dot + 1 < n && s@[dot as int] == 46u8),
            forall|j: int| lo <= j < i ==> is_digit(#[trigger] s@[j]) || (s@[j] == 46u8 && j == dot),
        decreases n - i,
    {
        let c = s[i];
        if c == 46u8 {
            if dot != n || i == lo || i + 1 >= n {
                proof {
                    let k = i - lo;
                    assert(t[k] == 46u8);
                    if dot != n {
                        assert(t[dot - lo] == 46u8);
                    }
                }
                return false;
            }
            dot = i;
        } else if c < 48u8 || c > 57u8 {
            proof {
                let k = i - lo;
                assert(t[k] == c);
            }
            return false;
        }
        i += 1;
    }
    proof {
        assert forall|k: int| 0 <= k < t.len() implies is_digit(#[trigger] t[k]) || (t[k] == 46u8
            && 0 < k < t.len() - 1) by {
            assert(s@[lo + k] == t[k]);
        }
        assert forall|a: int, b: int|
            0 <= a < t.len() && 0 <= b < t.len() && #[trigger] t[a] == 46u8 && #[trigger] t[b] == 46u8
            implies a == b by {
            assert(s@[lo + a] == t[a]);
            assert(s@[lo + b] == t[b]);
        }
    }
    true
}

/// A number in the format's decimal notation.
#[derive(Debug)]
pub struct Number {
    text: Vec<u8>,
}

impl Clone for Number {
    fn clone(&self) -> (r: Self)
        ensures
            r@ == self@,
    {
        Number { text: self.text.clone() }
    }
}

impl Number {
    /// The numeral.
    pub closed spec fn view(&self) -> Seq<u8> {
        self.text@
    }

    /// The number's invariant: its text is a numeral.
    pub open spec fn wf(&self) -> bool {
        is_numeral(self@)
    }

    /// The number written `text`, if that is a numeral.
    pub fn parse(text: &[u8]) -> (r: Option<Number>)
        ensures
            r is Some <==> is_numeral(text@),
            r is Some ==> r->0@ == text@,
    {
        let ok = if text.len() > 0 && text[0] == 45u8 {
            let r = check_unsigned(text, 1);
            assert(text@.subrange(1, text@.len() as int) =~= text@.drop_first());
            r
        } else {
            let r = check_unsigned(text, 0);
            assert(text@.subrange(0, text@.len() as int) =~= text@);
            r
        };
        if ok {
            let mut v: Vec<u8> = Vec::new();
            push_bytes(&mut v, text);
            Some(Number { text: v })
        } else {
            None
        }
    }

    /// The whole number `v`.
    pub fn from_u32(v: u32) -> (r: Number)
        ensures
            r@ == dec(v as nat),
            r.wf(),
    {
        let mut text: Vec<u8> = Vec::new();
        push_dec(&mut text, v as u64);
        proof {
            lemma_dec_digits(v as nat);
            let t = text@;
            assert(t[0] != 45u8);
            assert forall|a: int, b: int|
                0 <= a < t.len() && 0 <= b < t.len() && #[trigger] t[a] == 46u8 && #[trigger] t[b]
                    == 46u8 implies a == b by {
                assert(is_digit(t[a]));
            }
        }
        Number { text }
    }

    /// Appends the numeral and returns the number of bytes written.
    pub fn write(&self, out: &mut Vec<u8>) -> (n: usize)
        ensures
            final(out)@ == old(out)@ + self@,
            n == self@.len(),
    {
        push_bytes(out, self.text.as_slice());
        self.text.len()
    }
}

/// A point, its coordinates in user-space units.
#[derive(Debug, Clone)]
pub struct Position {
    /// The horizontal coordinate.
    pub x: Number,
    /// The vertical coordinate.
    pub y: Number,
}

impl Position {
    /// The point `(x, y)`.
    pub fn new(x: Number, y: Number) -> (r: Self)
        ensures
            r.x@ == x@,
            r.y@ == y@,
    {
        Position { x, y }
    }

    /// The origin of user space.
    pub fn origin() -> (r: Self)
        ensures
            r.x@ == dec(0),
            r.y@ == dec(0),
    {
        Position { x: Number::from_u32(0), y: Number::from_u32(0) }
    }
}

/// The encoding of a rectangle with corners `(a, b)` and `(c, d)`: `[a b c d]`.
pub open spec fn rect_bytes(a: Seq<u8>, b: Seq<u8>, c: Seq<u8>, d: Seq<u8>) -> Seq<u8> {
    "[".spec_bytes() + a + " ".spec_bytes() + b + " ".spec_bytes() + c + " ".spec_bytes() + d
        + "]".spec_bytes()
}

/// A rectangle given by two diagonally opposite corners, lower left and upper right.
#[derive(Debug, Clone)]
pub struct Rectangle {
    low_left: Position,
    top_right: Position,
}

impl Rectangle {
    /// The encoding of this rectangle.
    pub closed spec fn spec_bytes(&self) -> Seq<u8> {
        rect_bytes(self.low_left.x@, self.low_left.y@, self.top_right.x@, self.top_right.y@)
    }

    /// The rectangle with corners `low_left` and `top_right`.
    pub fn new(low_left: Position, top_right: Position) -> (r: Self)
        ensures
            r.spec_bytes() == rect_bytes(low_left.x@, low_left.y@, top_right.x@, top_right.y@),
    {
        Rectangle { low_left, top_right }
    }

    /// Appends `[llx lly urx ury]` and returns the number of bytes written.
    pub fn write(&self, out: &mut Vec<u8>) -> (n: usize)
        ensures
            final(out)@ == old(out)@ + self.spec_bytes(),
            n == self.spec_bytes().len(),
    {
        let ghost start = out@;
        let first = out.len();
        push_str(out, "[");
        self.low_left.x.write(out);
        push_str(out, " ");
        self.low_left.y.write(out);
        push_str(out, " ");
        self.top_right.x.write(out);
        push_str(out, " ");
        self.top_right.y.write(out);
        push_str(out, "]");
        assert(out@ =~= start + self.spec_bytes());
        out.len() - first
    }
}

} // verus!
