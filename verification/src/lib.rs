//! Cleansing of delimited-text records.
//!
//! The crate repairs fields whose raw bytes would corrupt a delimited-text
//! format: delimiter bytes and record-terminator bytes inside a field are
//! replaced by spaces, and byte sequences that are not valid UTF-8 are
//! repaired by substituting the Unicode replacement character.  A streaming
//! pipeline applies the sanitizer to every field of every record while
//! preserving record and field structure.

pub mod pipeline;
pub mod records;
pub mod sanitize;
