//! Preparation of documentation code snippets for an external type-analysis
//! engine, and mapping of the engine's hover annotations back onto the
//! original snippet's byte offsets.
//!
//! Many snippets are statement fragments that only parse inside a function
//! body. The classifier finds the boundary between leading complete top-level
//! items (the preamble) and trailing statement-level code (the body); the
//! wrapper encloses a non-empty body in a synthetic entry-point function and
//! records the byte lengths that invert the transform; the offset remapper
//! takes annotations positioned against the transformed program and recovers
//! their positions in the original snippet, dropping the ones that have no
//! meaning there. Snippet text is handled as byte sequences, matching the
//! byte-indexed offsets the annotations carry.

use vstd::prelude::*;

pub mod classify;
pub mod laws;
pub mod remap;
pub mod text;
pub mod wrap;

verus! {

/// Information about a type annotation to render, positioned against the
/// original snippet.
#[derive(Debug, Clone)]
pub struct TypeAnnotation {
    /// Byte offset in the code where the token starts
    pub start: u32,
    /// Length of the token in bytes
    pub length: u32,
    /// The type information to display on hover
    pub type_text: String,
    /// Optional documentation
    pub docs: Option<String>,
}

} // verus!
