//! A verified parser for a small lightweight-markup dialect.
//!
//! The input is a UTF-8 byte buffer; every parsed node holds spans
//! (offset and length) into that buffer, never a copy of its text.
//! The grammar is stated once as specification functions over the
//! buffer's byte sequence, and every executable parser is proved to
//! return exactly what the specification says.

pub mod text;
pub mod markdown;
pub mod frontmatter;
pub mod laws;
