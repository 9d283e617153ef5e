use vstd::prelude::*;

verus! {

/// The ways an extraction can fail: a required structural element was
/// absent, an element was present but its content did not match the
/// expected format, or the comment sequence could not form a tree.
#[derive(Clone, Copy, Debug, PartialEq, Eq, Structural)]
pub enum ErrorKind {
    MissingField,
    ParseFailure,
    StructuralInconsistency,
}

/// An extraction failure. `field` names the field that failed; `raw` holds
/// the offending content for a `ParseFailure` and is empty otherwise.
#[derive(Clone, Debug, PartialEq, Eq)]
pub struct ParseError {
    pub kind: ErrorKind,
    pub field: String,
    pub raw: String,
}

/// Mathematical image of a `ParseError`: its strings as character sequences.
pub struct ParseErrorView {
    pub kind: ErrorKind,
    pub field: Seq<char>,
    pub raw: Seq<char>,
}

impl View for ParseError {
    type V = ParseErrorView;

    open spec fn view(&self) -> ParseErrorView {
        ParseErrorView { kind: self.kind, field: self.field@, raw: self.raw@ }
    }
}

/// Image of the error reporting a missing `field`.
pub open spec fn missing_view(field: Seq<char>) -> ParseErrorView {
    ParseErrorView { kind: ErrorKind::MissingField, field: field, raw: Seq::empty() }
}

/// Image of the error reporting that `field` was backed by unusable
/// content `raw`.
pub open spec fn malformed_view(field: Seq<char>, raw: Seq<char>) -> ParseErrorView {
    ParseErrorView { kind: ErrorKind::ParseFailure, field: field, raw: raw }
}

impl ParseError {
    pub fn new(kind: ErrorKind, field: &str, raw: &str) -> (r: ParseError)
        ensures
            r@ == (ParseErrorView { kind: kind, field: field@, raw: raw@ }),
    {
        ParseError { kind, field: field.to_owned(), raw: raw.to_owned() }
    }

    /// A required structural element named `field` was absent.
    pub fn missing(field: &str) -> (r: ParseError)
        ensures
            r@ == missing_view(field@),
    {
        let r = ParseError { kind: ErrorKind::MissingField, field: field.to_owned(), raw: String::new() };
        proof {
            assert(r.raw@ =~= Seq::<char>::empty());
        }
        r
    }

    /// The content `raw` of the element backing `field` did not match the
    /// expected format.
    pub fn malformed(field: &str, raw: &str) -> (r: ParseError)
        ensures
            r@ == malformed_view(field@, raw@),
    {
        ParseError { kind: ErrorKind::ParseFailure, field: field.to_owned(), raw: raw.to_owned() }
    }
}

} // verus!
