//! Verified core of an editor-tooling backend for assembly-like sources.
//!
//! The library answers two queries against a single document snapshot:
//! "where is the token under the cursor defined" (go-to-definition) and
//! "what does the token under the cursor mean" (hover documentation).
//! Transport framing, file reading and startup data loading live outside
//! the library; everything here is pure logic over plain values.

pub mod catalog;
pub mod definition;
pub mod dispatch;
pub mod document;
pub mod hover;
pub mod location;
pub mod symbols;
pub mod text;
pub mod tokenizer;
