//! A small library for producing a one-page PDF with a single text run.
//!
//! The library models the handful of PDF objects such a document needs
//! (Font, Resources, Page, Pages, Catalog) as plain dictionary values,
//! builds the page's content stream from a fluent builder, and leaves
//! encoding, compression and serialization to the `lopdf` crate.

use vstd::prelude::*;

pub mod builder;
pub mod factories;
pub mod objects;
pub mod store;

pub use builder::{BuildError, ContentOps, ContentBuilder, ContentOp};
pub use factories::{catalog, font, page, pages, resources};
pub use objects::{Dict, Entry, Value, ObjectId};
pub use store::{assemble_document, document, AssembleError};

verus! {

/// PDF header version written by `document`.
pub const PDF_VERSION: &'static str = "1.5";

/// Operator opening a text object.
pub const BEGIN_TEXT: &'static str = "BT";

/// Operator closing a text object.
pub const END_TEXT: &'static str = "ET";

/// Operator selecting the font resource and size.
pub const TEXT_FONT: &'static str = "Tf";

/// Operator moving the text position.
pub const TEXT_POSITION: &'static str = "Td";

/// Operator showing one string.
pub const TEXT_ONE: &'static str = "Tj";

/// Operator showing an array of strings with positioning.
pub const TEXT_ANY: &'static str = "TJ";

} // verus!
