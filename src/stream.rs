//! Stream objects: a dictionary holding at least `/Length`, then the raw bytes between the
//! `stream` and `endstream` keywords.

use vstd::prelude::*;
use vstd::string::StringSliceAdditionalSpecFns;
use crate::bytes::{dec, push_bytes, push_dec, push_str};
use crate::identifier::{identifier_bytes, Identifier};

verus! {

/// The part of a stream's dictionary that precedes the length numeral.
pub open spec fn stream_head(dict: Seq<u8>) -> Seq<u8> {
    "<< ".spec_bytes() + dict + identifier_bytes("Length".spec_bytes())
}

/// What follows the length numeral up to the first data byte.
pub open spec fn stream_open() -> Seq<u8> {
    " >>\nstream\n".spec_bytes()
}

/// What follows the last data byte.
pub open spec fn stream_close() -> Seq<u8> {
    "\nendstream".spec_bytes()
}

/// A stream with extra dictionary entries `dict` and data `data`.
pub open spec fn stream_bytes(dict: Seq<u8>, data: Seq<u8>) -> Seq<u8> {
    stream_head(dict) + dec(data.len()) + stream_open() + data + stream_close()
}

/// A sequence of bytes of any length, written with a dictionary that declares its length.
#[derive(Debug)]
pub struct Stream {
    inner: Vec<u8>,
}

impl Stream {
    /// The bytes of the stream.
    pub closed spec fn view(&self) -> Seq<u8> {
        self.inner@
    }

    /// An empty stream.
    pub fn new() -> (r: Self)
        ensures
            r@ == Seq::<u8>::empty(),
    {
        Stream { inner: Vec::new() }
    }

    /// A stream holding `bytes`.
    pub fn with_bytes(bytes: Vec<u8>) -> (r: Self)
        ensures
            r@ == bytes@,
    {
        Stream { inner: bytes }
    }

    /// Appends `bytes` to the stream.
    pub fn push_bytes(&mut self, bytes: &[u8])
        ensures
            final(self)@ == old(self)@ + bytes@,
    {
        push_bytes(&mut self.inner, bytes);
    }

    /// Appends the encoding of `identifier` to the stream.
    pub fn write_identifier(&mut self, identifier: &Identifier)
        ensures
            final(self)@ == old(self)@ + identifier_bytes(identifier@),
    {
        identifier.write(&mut self.inner);
    }

    /// Appends the stream object with a dictionary holding only `/Length`; returns the number
    /// of bytes written.
    pub fn write(&self, out: &mut Vec<u8>) -> (n: usize)
        ensures
            final(out)@ == old(out)@ + stream_bytes(Seq::empty(), self@),
            n == stream_bytes(Seq::empty(), self@).len(),
    {
        let empty: Vec<u8> = Vec::new();
        self.write_with_dict(out, empty.as_slice())
    }

    /// Appends the stream object whose dictionary holds the entries `dict` before `/Length`;
    /// returns the number of bytes written.
    pub fn write_with_dict(&self, out: &mut Vec<u8>, dict: &[u8]) -> (n: usize)
        ensures
            final(out)@ == old(out)@ + stream_bytes(dict@, self@),
            n == stream_bytes(dict@, self@).len(),
    {
        let ghost start = out@;
        let first = out.len();
        push_str(out, "<< ");
        push_bytes(out, dict);
        proof {
            reveal_strlit("Length");
            vstd::string::is_ascii_spec_bytes("Length");
        }
        let length = Identifier::from_str("Length");
        length.write(out);
        push_dec(out, self.inner.len() as u64);
        push_str(out, " >>\nstream\n");
        push_bytes(out, self.inner.as_slice());
        push_str(out, "\nendstream");
        assert(out@ =~= start + stream_bytes(dict@, self@));
        out.len() - first
    }

    /// Whether the stream holds no byte.
    pub fn is_empty(&self) -> (r: bool)
        ensures
            r == (self@.len() == 0),
    {
        self.inner.len() == 0
    }

    /// The number of bytes in the stream.
    pub fn len(&self) -> (r: usize)
        ensures
            r == self@.len(),
    {
        self.inner.len()
    }
}

/// The `/Length` a stream declares is the numeral of the exact number of bytes between the
/// line after `stream` and the line holding `endstream`, and those bytes are the data.
pub proof fn lemma_stream_length(dict: Seq<u8>, data: Seq<u8>)
    ensures
        ({
            let s = stream_bytes(dict, data);
            let h: int = stream_head(dict).len() as int;
            let d: int = dec(data.len()).len() as int;
            let k: int = h + d + stream_open().len();
            &&& s == stream_head(dict) + dec(data.len()) + stream_open() + data + stream_close()
            &&& s.subrange(h, h + d) == dec(data.len())
            &&& s.subrange(k, k + data.len()) == data
            &&& s.subrange(k + data.len(), s.len() as int) == stream_close()
        }),
{
    let s = stream_bytes(dict, data);
    let h: int = stream_head(dict).len() as int;
    let d: int = dec(data.len()).len() as int;
    let k: int = h + d + stream_open().len();
    assert(s.subrange(h, h + d) =~= dec(data.len()));
    assert(s.subrange(k, k + data.len()) =~= data);
    assert(s.subrange(k + data.len(), s.len() as int) =~= stream_close());
}

} // verus!
