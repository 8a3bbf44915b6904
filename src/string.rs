//! String values: literal strings written in parentheses and text strings with a byte-order
//! mark, plus the markers for the other string kinds of the format.

use vstd::prelude::*;
use vstd::string::StringSliceAdditionalSpecFns;
use crate::bytes::{push_bytes, push_str};

verus! {

/// The encoding of a literal string: its bytes in parentheses.
pub open spec fn literal_bytes(b: Seq<u8>) -> Seq<u8> {
    "(".spec_bytes() + b + ")".spec_bytes()
}

/// A literal string of UTF-8 text.
#[derive(Debug, Clone, PartialEq, Eq)]
pub struct PdfString {
    inner: Vec<u8>,
}

impl PdfString {
    /// The UTF-8 bytes of the string.
    pub closed spec fn view(&self) -> Seq<u8> {
        self.inner@
    }

    /// A string holding `content`.
    pub fn from(content: &str) -> (r: Self)
        ensures
            r@ == content.spec_bytes(),
    {
        let mut inner: Vec<u8> = Vec::new();
        push_str(&mut inner, content);
        PdfString { inner }
    }

    /// Appends `content` to the string.
    pub fn expand(&mut self, content: &str)
        ensures
            final(self)@ == old(self)@ + content.spec_bytes(),
    {
        push_str(&mut self.inner, content);
    }

    /// Appends `(<content>)` and returns the number of bytes written.
    pub fn write_content(&self, out: &mut Vec<u8>) -> (n: usize)
        ensures
            final(out)@ == old(out)@ + literal_bytes(self@),
            n == literal_bytes(self@).len(),
    {
        let start = out.len();
        push_str(out, "(");
        push_bytes(out, self.inner.as_slice());
        push_str(out, ")");
        out.len() - start
    }
}

/// Bytes holding ASCII characters.
pub struct AsciiString {}

/// Bytes that stand for characters in an encoding given by context, or for binary data.
pub struct ByteString {}

/// Bytes of a string in PDFDocEncoding.
pub struct PdfDocEncString {}

/// Any string that is not a text string.
pub enum AnyString {
    /// An ASCII string.
    Ascii(AsciiString),
    /// A byte string.
    Byte(ByteString),
}

/// The UTF-8 byte-order mark that opens a text string.
pub open spec fn utf8_mark() -> Seq<u8> {
    seq![239u8, 187u8, 191u8]
}

/// Human-readable text, encoded as UTF-8 behind a byte-order mark.
pub struct TextString {
    inner: Vec<u8>,
}

impl TextString {
    /// The UTF-8 bytes of the text.
    pub closed spec fn view(&self) -> Seq<u8> {
        self.inner@
    }

    /// A text string holding `text`.
    pub fn new(text: &str) -> (r: Self)
        ensures
            r@ == text.spec_bytes(),
    {
        let mut inner: Vec<u8> = Vec::new();
        push_str(&mut inner, text);
        TextString { inner }
    }

    /// The byte-order mark of UTF-8 text strings.
    pub fn leading_bytes(&self) -> (r: [u8; 3])
        ensures
            r@ == utf8_mark(),
    {
        let r: [u8; 3] = [239u8, 187u8, 191u8];
        assert(r@ =~= utf8_mark());
        r
    }

    /// Appends the byte-order mark and the text.
    pub fn write(&self, out: &mut Vec<u8>)
        ensures
            final(out)@ == old(out)@ + utf8_mark() + self@,
    {
        let mark = self.leading_bytes();
        push_bytes(out, mark.as_slice());
        push_bytes(out, self.inner.as_slice());
    }
}

} // verus!
