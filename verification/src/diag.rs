//! Diagnostics: every validation failure is reported as a span-located
//! error, and generation produces no output for an invalid input.

use vstd::prelude::*;

verus! {

/// What rule an invalid input violated.
#[derive(Clone, Copy, Debug, PartialEq, Eq)]
pub enum DiagKind {
    /// The configuration argument list violates the `key = value` grammar.
    SyntaxError,
    /// No integer-width representation attribute was declared.
    MissingAttribute,
    /// The representation attribute names more than one integer width.
    AmbiguousAttribute,
    /// The representation attribute is not a list of plain identifiers.
    MalformedAttribute,
    /// A member of a simple-form enumeration carries a payload field.
    UnsupportedPayload,
    /// A member of a simple-form enumeration has no explicit discriminant.
    MissingDiscriminant,
    /// A configuration key is not one of the recognized keys.
    UnknownArgument,
    /// A configuration key appears more than once.
    DuplicateArgument,
    /// The value of a recognized configuration key has the wrong shape
    /// or an unrecognized content.
    InvalidArgumentValue,
    /// The required `base_type` key was never supplied.
    MissingRequiredArgument,
    /// A member has both a payload field and a discriminant.
    ConflictingShape,
    /// More than one member qualifies as the catch-all.
    MultipleCatchAlls,
    /// A member without a discriminant is not a well-shaped catch-all:
    /// its field count is not one, its field is named, or the field's
    /// type is not the base type.
    InvalidCatchAllShape,
    /// No member qualifies as the catch-all.
    MissingCatchAll,
}

/// A user-facing error: the violated rule together with the source span
/// of the most specific offending construct.
#[derive(Clone, Copy, Debug, PartialEq, Eq)]
pub struct Diag {
    pub kind: DiagKind,
    /// An opaque marker into the host's source map; the engine only
    /// carries it from the offending construct to the report.
    pub span: usize,
}

impl Diag {
    pub open spec fn new_spec(kind: DiagKind, span: usize) -> Diag {
        Diag { kind, span }
    }
}

/// The view of each diagnostic kind's user-facing message.
pub open spec fn spec_message(kind: DiagKind) -> Seq<char> {
    match kind {
        DiagKind::SyntaxError => "malformed key = value argument list"@,
        DiagKind::MissingAttribute => "no integer-width representation attribute was found"@,
        DiagKind::AmbiguousAttribute => "the representation attribute names more than one integer width"@,
        DiagKind::MalformedAttribute => "the representation attribute is not a list of plain identifiers"@,
        DiagKind::UnsupportedPayload => "members must not have payload fields"@,
        DiagKind::MissingDiscriminant => "all members must have explicit discriminants"@,
        DiagKind::UnknownArgument => "unknown argument"@,
        DiagKind::DuplicateArgument => "an argument may not be set more than once"@,
        DiagKind::InvalidArgumentValue => "the argument's value is not acceptable for this key"@,
        DiagKind::MissingRequiredArgument => "the \"base_type\" argument is required"@,
        DiagKind::ConflictingShape => "a member must have either a field or a discriminant, not both"@,
        DiagKind::MultipleCatchAlls => "only one member (the catch-all) may have a field instead of a discriminant"@,
        DiagKind::InvalidCatchAllShape => "the catch-all member must have exactly one unnamed field of the base type"@,
        DiagKind::MissingCatchAll => "the enumeration has no catch-all member for unmatched values"@,
    }
}

impl DiagKind {
    /// The user-facing message attached to a report of this kind.
    pub fn message(&self) -> (s: String)
        ensures
            s@ == spec_message(*self),
    {
        match self {
            DiagKind::SyntaxError => String::from_str("malformed key = value argument list"),
            DiagKind::MissingAttribute => String::from_str("no integer-width representation attribute was found"),
            DiagKind::AmbiguousAttribute => String::from_str("the representation attribute names more than one integer width"),
            DiagKind::MalformedAttribute => String::from_str("the representation attribute is not a list of plain identifiers"),
            DiagKind::UnsupportedPayload => String::from_str("members must not have payload fields"),
            DiagKind::MissingDiscriminant => String::from_str("all members must have explicit discriminants"),
            DiagKind::UnknownArgument => String::from_str("unknown argument"),
            DiagKind::DuplicateArgument => String::from_str("an argument may not be set more than once"),
            DiagKind::InvalidArgumentValue => String::from_str("the argument's value is not acceptable for this key"),
            DiagKind::MissingRequiredArgument => String::from_str("the \"base_type\" argument is required"),
            DiagKind::ConflictingShape => String::from_str("a member must have either a field or a discriminant, not both"),
            DiagKind::MultipleCatchAlls => String::from_str("only one member (the catch-all) may have a field instead of a discriminant"),
            DiagKind::InvalidCatchAllShape => String::from_str("the catch-all member must have exactly one unnamed field of the base type"),
            DiagKind::MissingCatchAll => String::from_str("the enumeration has no catch-all member for unmatched values"),
        }
    }
}

} // verus!
