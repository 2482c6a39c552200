use vstd::prelude::*;

verus! {

/// Every way in which parsing a header or an alignment line can fail.
#[derive(Clone, Copy, Debug, PartialEq, Eq, Structural)]
pub enum ParseError {
    /// A header line does not start with `@`.
    MissingPrefix,
    /// A tab was expected before a field.
    MissingFieldDelimiter,
    /// The two bytes after `@` name no known record kind.
    UnknownRecordCode,
    /// Fewer than two bytes remain where a field tag was expected.
    MissingFieldTag,
    /// A `:` was expected after a field tag.
    MissingKeyValueSeparator,
    /// A field value is empty.
    MissingValue,
    /// A field tag is not one of the record kind's tags.
    UnknownTag,
    /// A tag occurs twice in one record, or a second `@HD` line occurs.
    RepeatTag,
    /// A value is outside the closed set or range its tag allows.
    UnknownValue,
    /// The `VN` value of an `@HD` line is not `<digits>.<digits>`.
    BadVersion,
    /// An `@HD` line has no `VN` field.
    MissingVersion,
    /// An `@SQ` line has no `SN` field.
    MissingRefSeqName,
    /// An `@SQ` line has no `LN` field.
    MissingRefSeqLen,
    /// An `@RG` line has no `ID` field.
    MissingReadGroupId,
    /// An `@PG` line has no `ID` field.
    MissingProgramId,
    /// Two records of one kind share their identifying key.
    DuplicateKey,
    /// A field's bytes are not well-formed UTF-8.
    InvalidEncoding,
    /// An alignment line has fewer than eleven fields.
    MissingAlignmentField,
    /// The byte source failed.
    IOError,
}

/// Finer-grained failures of an `@HD` line.
#[derive(Clone, Copy, Debug, PartialEq, Eq, Structural)]
pub enum MetaParseError {
    MissingVersion,
    BadVersion,
    MissingFieldDelimiter,
    MissingKeyValueSeparator,
    BadSortOrder,
    BadGrouping,
    BadSubSortOrder,
}

} // verus!
