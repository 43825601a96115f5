//! A reader that takes only the settings out of a document.
use vstd::prelude::*;

pub use crate::entities::DiagramSettings;

use crate::decode::{decode_settings, settings_spec};
use crate::entities::diagram_settings::DiagramSettingsModel;
use crate::error::DecodeError;
use crate::reader::{document_tree, parse_document};
use crate::xml::XmlElement;

verus! {

/// The settings of a diagram, without its tables.
#[derive(Debug, Clone, PartialEq, Eq)]
pub struct Diagram {
    pub diagram_settings: DiagramSettings,
}

impl View for Diagram {
    type V = DiagramSettingsModel;

    open spec fn view(&self) -> DiagramSettingsModel {
        self.diagram_settings@
    }
}

/// Reads the settings of a document's root element.
pub fn read_settings(root: &XmlElement) -> (r: Result<Diagram, DecodeError>)
    ensures
        match r {
            Ok(d) => settings_spec(root@) == Some(d@),
            Err(e) => settings_spec(root@) is None && e.is_schema(),
        },
{
    match decode_settings(root) {
        Ok(diagram_settings) => Ok(Diagram { diagram_settings }),
        Err(e) => Err(e),
    }
}

/// Reads the settings of a whole document. When the document has an
/// element tree, the result is exactly the settings it describes, or a
/// schema error where it describes none; otherwise a `Syntax` error.
pub fn open(document: &str) -> (r: Result<Diagram, DecodeError>)
    ensures
        match document_tree(document) {
            Some(root) => match r {
                Ok(d) => settings_spec(root) == Some(d@),
                Err(e) => settings_spec(root) is None && e.is_schema(),
            },
            None => r is Err && !r->Err_0.is_schema(),
        },
{
    let root = match parse_document(document) {
        Ok(root) => root,
        Err(e) => return Err(e),
    };
    read_settings(&root)
}

} // verus!
