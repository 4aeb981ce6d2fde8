//! Typed model and verified codecs for dictionary-exchange documents:
//! term, kanji, tag and meta banks, and the recursive structured-content
//! format embedded in term glosses.

pub mod text;
pub mod json;
pub mod error;
pub mod keys;
pub mod wire;
pub mod members;
pub mod style;
pub mod content;
pub mod definition;
pub mod records;
pub mod meta;
