//! Low-level PDF generation: typed values, content streams and an incremental writer that
//! records the byte offset of every indirect object it emits, so that the cross-reference table
//! and trailer written at the end point at exactly the right places.

pub mod array;
pub mod bytes;
pub mod color;
pub mod content;
pub mod document;
pub mod hierarchy;
pub mod identifier;
pub mod name;
pub mod number;
pub mod obj_id;
pub mod object;
pub mod page;
pub mod stream;
pub mod string;
pub mod writer;
pub mod xref;
