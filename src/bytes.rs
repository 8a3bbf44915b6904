//! Byte-level building blocks shared by every encoder: appending text, decimal numerals and
//! fixed-width fields.

use vstd::prelude::*;
use vstd::string::StringSliceAdditionalSpecFns;

verus! {

/// The ASCII code of the decimal digit `d` (0..=9).
pub open spec fn digit(d: nat) -> u8
    recommends
        d < 10,
{
    (48 + d) as u8
}

/// The shortest decimal numeral of `n`, most significant digit first.
pub open spec fn dec(n: nat) -> Seq<u8>
    decreases n,
{
    if n < 10 {
        seq![digit(n)]
    } else {
        dec(n / 10).push(digit(n % 10))
    }
}

/// `n` as a decimal numeral left-padded with zeros to at least ten digits.
pub open spec fn dec10(n: nat) -> Seq<u8> {
    let d = dec(n);
    if d.len() < 10 {
        Seq::new((10 - d.len()) as nat, |_i: int| 48u8) + d
    } else {
        d
    }
}

/// A decimal numeral never is empty.
pub proof fn lemma_dec_nonempty(n: nat)
    ensures
        dec(n).len() >= 1,
    decreases n,
{
    if n >= 10 {
        lemma_dec_nonempty(n / 10);
    }
}

/// Appends `b` to `out`.
pub fn push_bytes(out: &mut Vec<u8>, b: &[u8])
    ensures
        final(out)@ == old(out)@ + b@,
{
    let mut i: usize = 0;
    while i < b.len()
        invariant
            i <= b@.len(),
            out@ == old(out)@ + b@.subrange(0, i as int),
        decreases b@.len() - i,
    {
        out.push(b[i]);
        assert(b@.subrange(0, i as int + 1) == b@.subrange(0, i as int).push(b@[i as int]));
        i += 1;
    }
    assert(b@.subrange(0, b@.len() as int) == b@);
}

/// Appends the UTF-8 bytes of `s` to `out`.
pub fn push_str(out: &mut Vec<u8>, s: &str)
    ensures
        final(out)@ == old(out)@ + s.spec_bytes(),
{
    push_bytes(out, s.as_bytes());
}

/// Appends the decimal numeral of `n` to `out`.
pub fn push_dec(out: &mut Vec<u8>, n: u64)
    ensures
        final(out)@ == old(out)@ + dec(n as nat),
    decreases n,
{
    if n >= 10 {
        push_dec(out, n / 10);
    }
    out.push(48u8 + (n % 10) as u8);
}

/// Appends the decimal numeral of `n` and returns the number of bytes written.
pub fn write_dec(out: &mut Vec<u8>, n: u64) -> (count: usize)
    ensures
        final(out)@ == old(out)@ + dec(n as nat),
        count == dec(n as nat).len(),
{
    let start = out.len();
    push_dec(out, n);
    out.len() - start
}

/// The decimal numeral of `n` as a fresh byte vector.
pub fn dec_bytes(n: u64) -> (r: Vec<u8>)
    ensures
        r@ == dec(n as nat),
{
    let mut r: Vec<u8> = Vec::new();
    push_dec(&mut r, n);
    r
}

/// Appends the decimal numeral of `n`, left-padded with zeros to ten digits.
pub fn push_dec10(out: &mut Vec<u8>, n: u64)
    ensures
        final(out)@ == old(out)@ + dec10(n as nat),
{
    let ghost start = out@;
    let d = dec_bytes(n);
    if d.len() < 10 {
        let pad: usize = 10 - d.len();
        let mut i: usize = 0;
        while i < pad
            invariant
                i <= pad,
                pad == 10 - d@.len(),
                out@ == start + Seq::new(i as nat, |_j: int| 48u8),
            decreases pad - i,
        {
            out.push(48u8);
            assert(Seq::new((i + 1) as nat, |_j: int| 48u8) =~= Seq::new(i as nat, |_j: int| 48u8).push(48u8));
            i += 1;
        }
    }
    let ghost padded = out@;
    push_bytes(out, d.as_slice());
    proof {
        if d@.len() < 10 {
            assert(out@ =~= start + dec10(n as nat));
        } else {
            assert(out@ =~= start + dec10(n as nat));
        }
    }
}

} // verus!
