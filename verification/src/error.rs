use vstd::prelude::*;
use vstd::string::StringExecFns;

verus! {

/// The error taxonomy of the decoder.
///
/// `MalformedAttributes` reports a required attribute that is missing or fails
/// its coercion; `PrematureEnd` reports a document that ends while an element
/// is still open; `DecodingError` wraps a low-level syntax error of the
/// underlying event reader; `Other` reports precondition failures outside the
/// document itself, such as an unresolvable file location.
#[derive(Debug, Clone, PartialEq)]
pub enum TiledError {
    MalformedAttributes(String),
    PrematureEnd(String),
    DecodingError(String),
    Other(String),
}

/// The mathematical mirror of `TiledError`: each message as a sequence of
/// characters.
pub enum GError {
    MalformedAttributes(Seq<char>),
    PrematureEnd(Seq<char>),
    DecodingError(Seq<char>),
    Other(Seq<char>),
}

/// Builds the malformed-attributes error with the given message.
pub fn malformed_err(msg: &str) -> (e: TiledError)
    ensures
        e@ == GError::MalformedAttributes(msg@),
{
    TiledError::MalformedAttributes(String::from_str(msg))
}

/// Builds the precondition-failure error with the given message.
pub fn other_err(msg: &str) -> (e: TiledError)
    ensures
        e@ == GError::Other(msg@),
{
    TiledError::Other(String::from_str(msg))
}

impl View for TiledError {
    type V = GError;

    open spec fn view(&self) -> GError {
        match self {
            TiledError::MalformedAttributes(m) => GError::MalformedAttributes(m@),
            TiledError::PrematureEnd(m) => GError::PrematureEnd(m@),
            TiledError::DecodingError(m) => GError::DecodingError(m@),
            TiledError::Other(m) => GError::Other(m@),
        }
    }
}

} // verus!
