use vstd::prelude::*;

verus! {

/// The ways in which decoding a document can fail.
///
/// Every failure aborts the decode call that met it; nothing is skipped or
/// recovered.
#[derive(Clone, Copy, Debug, PartialEq, Eq, Structural)]
pub enum Error {
    /// A scalar or a field name was read with no input left.
    UnexpectedEnd,
    /// A line that had to be blank was not.
    DelimiterExpected,
    /// A field name line lacked the `%` marker at its start or its end.
    MalformedFieldName,
    /// A scalar read met a blank line.
    EmptyValueNotAllowed,
    /// A character read met a line of more than one character.
    CharacterOverflow,
    /// An integer read met a line that is not a decimal integer of the
    /// requested width.
    IntegerFormatError,
    /// The requested shape is one that the grammar cannot express.
    UnsupportedValueKind,
    /// A shape other than a record was requested at the document root.
    RootMustBeRecord,
    /// Input remained after the root record was decoded.
    TrailingData,
    /// A field that a package record needs is not in the document.
    MissingField,
    /// A dependency line of a package record is not a valid dependency.
    MalformedDependency,
}

} // verus!
