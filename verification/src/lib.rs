//! A verified extraction pipeline for desktop note records.
//!
//! A scripting bridge (run by the surrounding application) returns one flat
//! payload in which every note is a block of seven `|||`-separated fields and
//! blocks are separated by `~~~`. This library frames the payload into
//! blocks, decodes each block into a [`record::NoteRecord`], converts the
//! note body from HTML to wrapped plain text, builds one fixed-schema JSON
//! document per note, and reports every failure as a [`error::NotesError`].

pub mod convert;
pub mod document;
pub mod error;
pub mod laws;
pub mod pipeline;
pub mod record;
pub mod text;
