//! Decoder core for a binary FBX document: typed attribute values, a flat
//! attribute store with exact text rendering, a tree-building walker over the
//! event stream, and a diagnostic log with cause-chain expansion.
//!
//! The byte-level tokenizer and any presentation of the decoded tree stay
//! outside this crate; the walker consumes already-classified events and
//! hands back plain values.
pub mod attribute;
pub mod diag;
pub mod store;
pub mod text;
pub mod walker;
