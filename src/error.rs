//! Why a document could not be read into a diagram.
use vstd::prelude::*;

use crate::xml::join;

verus! {

/// A decode failure. `Syntax` is raised while reading the markup itself;
/// the other variants are schema errors on well-formed input.
#[derive(Debug, Clone, PartialEq, Eq)]
pub enum DecodeError {
    /// The input is not well-formed markup.
    Syntax(String),
    /// A required element is missing; carries its tag.
    MissingField(String),
    /// An element holds a value outside its type; carries its tag.
    InvalidValue(String),
    /// A table's column list names a column group that does not exist.
    UnknownGroup(String),
}

impl DecodeError {
    pub open spec fn spec_is_schema(&self) -> bool {
        !(self is Syntax)
    }

    /// Whether this is a schema error rather than malformed markup.
    #[verifier::when_used_as_spec(spec_is_schema)]
    pub fn is_schema(&self) -> (r: bool)
        ensures
            r == self.spec_is_schema(),
    {
        match self {
            DecodeError::Syntax(_) => false,
            _ => true,
        }
    }

    /// A human-readable description: what went wrong, then the markup
    /// error, field tag or group name.
    pub fn message(&self) -> (r: String)
        ensures
            r@ == match self {
                DecodeError::Syntax(m) => "malformed document: "@ + m@,
                DecodeError::MissingField(t) => "missing required field: "@ + t@,
                DecodeError::InvalidValue(t) => "invalid value in field: "@ + t@,
                DecodeError::UnknownGroup(g) => "unknown column group: "@ + g@,
            },
    {
        match self {
            DecodeError::Syntax(m) => join("malformed document: ", m.as_str()),
            DecodeError::MissingField(t) => join("missing required field: ", t.as_str()),
            DecodeError::InvalidValue(t) => join("invalid value in field: ", t.as_str()),
            DecodeError::UnknownGroup(g) => join("unknown column group: ", g.as_str()),
        }
    }
}

} // verus!
