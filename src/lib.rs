//! Reads entity-relationship diagram documents into a canonical,
//! version-independent model, and projects that model into a transport shape.
//!
//! The markup is tokenized by quick-xml into an element tree (`reader`,
//! `tree`); the schema mapping from that tree to the canonical model
//! (`decode`) absorbs the format's historical variations; `dtos` holds the
//! renamed mirror of the model and its lossless projection.
use vstd::prelude::*;

pub mod decode;
pub mod dtos;
pub mod entities;
pub mod error;
pub mod ersflute_io;
pub mod laws;
pub mod reader;
pub mod scalar;
pub mod tree;
pub mod xml;

use crate::decode::{decode_diagram, decodes_as, diagram_spec};
use crate::entities::Diagram;
use crate::error::DecodeError;
use crate::reader::{document_tree, parse_document};

verus! {

/// What reading `document` may give: the outcome of the schema mapping on
/// its element tree, or a `Syntax` error where it has none.
pub open spec fn open_outcome(document: &str, r: Result<Diagram, DecodeError>) -> bool {
    match document_tree(document) {
        Some(root) => decodes_as(r, diagram_spec(root)),
        None => r is Err && !r->Err_0.is_schema(),
    }
}

/// Reads a whole document into a canonical diagram. When the document has
/// an element tree, the result is exactly what the schema mapping gives for
/// it: the diagram it describes, or a schema error. Otherwise the result is
/// a `Syntax` error. No partial diagram is ever returned.
pub fn open(document: &str) -> (r: Result<Diagram, DecodeError>)
    ensures
        open_outcome(document, r),
{
    let root = match parse_document(document) {
        Ok(root) => root,
        Err(e) => return Err(e),
    };
    decode_diagram(&root)
}

} // verus!
