//! Header lines: the record-kind dispatcher, the tag helpers shared by the
//! record parsers, and comments.
use vstd::prelude::*;

use crate::error::ParseError;
use crate::header::{
    HeaderMeta, MetaFields, Program, ProgramFields, ReadGroup, ReadGroupFields, RefSeqFields,
    ReferenceSeq,
};
use crate::text::{at_most, decode_text, parse_unsigned, run_len, text_of, unsigned_text, AT, TAB};
use crate::tokenizer::{eat_field_delimiter, eat_prefix, parse_value, text_at, value_span};
use self::meta::{meta_at, parse_meta};
use self::program::{parse_program, program_at};
use self::read_group::{parse_read_group, read_group_at};
use self::ref_seq::{parse_ref_seq, ref_seq_at};

pub mod meta;
pub mod program;
pub mod read_group;
pub mod ref_seq;

verus! {

/// The two-byte tag written `ab`.
pub open spec fn tag_of(a: char, b: char) -> Seq<u8> {
    seq![a as u8, b as u8]
}

/// How many bytes of `s` remain from `p` on.
pub open spec fn left(s: Seq<u8>, p: int) -> int {
    if p < s.len() {
        s.len() - p
    } else {
        0
    }
}

/// Whether two byte strings are equal.
pub fn same_bytes(v: &[u8], lit: &[u8]) -> (r: bool)
    ensures
        r == (v@ == lit@),
{
    if v.len() != lit.len() {
        return false;
    }
    let mut i: usize = 0;
    while i < v.len()
        invariant
            v@.len() == lit@.len(),
            i <= v@.len(),
            forall|k: int| 0 <= k < i ==> v@[k] == lit@[k],
        decreases v@.len() - i,
    {
        if v[i] != lit[i] {
            return false;
        }
        i = i + 1;
    }
    assert(v@ =~= lit@);
    true
}

/// Whether `t` is the tag written `ab`.
pub fn is_tag(t: &[u8], a: char, b: char) -> (r: bool)
    ensures
        r == (t@ == tag_of(a, b)),
{
    let r = t.len() == 2 && t[0] == a as u8 && t[1] == b as u8;
    proof {
        if r {
            assert(t@ =~= tag_of(a, b));
        }
    }
    r
}

/// A tag's value goes into its slot, unless the slot is already filled.
pub open spec fn fill<T>(slot: Option<T>, v: Result<T, ParseError>) -> Result<T, ParseError> {
    match v {
        Ok(x) => if slot is Some { Err(ParseError::RepeatTag) } else { Ok(x) },
        Err(e) => Err(e),
    }
}

/// Fills an empty slot; a filled one is left as it is and fails `RepeatTag`.
pub fn try_insert_once<T>(opt: &mut Option<T>, value: T) -> (r: Result<(), ParseError>)
    ensures
        *old(opt) is None ==> r is Ok && *final(opt) == Some(value),
        *old(opt) is Some ==> r == Err::<(), ParseError>(ParseError::RepeatTag) && *final(opt) == *old(opt),
{
    if opt.is_some() {
        Err(ParseError::RepeatTag)
    } else {
        *opt = Some(value);
        Ok(())
    }
}

/// An unsigned number no larger than `max` at `p`: the value must be text,
/// and must read as such a number, else `UnknownValue`.
pub open spec fn uint_at(s: Seq<u8>, p: int, max: nat) -> Result<nat, ParseError> {
    match text_at(s, p) {
        Ok(_) => match at_most(unsigned_text(value_span(s, p)), max) {
            Some(n) => Ok(n),
            None => Err(ParseError::UnknownValue),
        },
        Err(e) => Err(e),
    }
}

/// Reads an unsigned number no larger than `max`.
pub fn parse_uint(s: &[u8], pos: &mut usize, max: u64) -> (r: Result<u64, ParseError>)
    requires
        *old(pos) <= s@.len(),
    ensures
        r matches Ok(n) ==> uint_at(s@, *old(pos) as int, max as nat) == Ok::<nat, ParseError>(n as nat),
        r matches Err(e) ==> uint_at(s@, *old(pos) as int, max as nat) == Err::<nat, ParseError>(e),
        *final(pos) == *old(pos) + run_len(s@, *old(pos) as int, TAB),
        *final(pos) <= s@.len(),
{
    let v = parse_value(s, pos)?;
    let _ = decode_text(v)?;
    match parse_unsigned(v, max) {
        Some(n) => Ok(n),
        None => Err(ParseError::UnknownValue),
    }
}

/// The kinds of header line, by the code after `@`.
#[derive(Clone, Copy, Debug, PartialEq, Eq, Structural)]
pub enum HeaderRowKind {
    /// HD
    Meta,
    /// SQ
    RefSeq,
    /// RG
    ReadGroup,
    /// PG
    Program,
    /// CO
    Comment,
}

/// One header line as read.
pub ghost enum RowFields {
    Meta(MetaFields),
    RefSeq(RefSeqFields),
    ReadGroup(ReadGroupFields),
    Program(ProgramFields),
    Comment(Seq<char>),
}

/// One parsed header line.
#[derive(Debug)]
pub enum HeaderRow {
    Meta(HeaderMeta),
    RefSeq(ReferenceSeq),
    ReadGroup(ReadGroup),
    Program(Program),
    Comment(String),
}

impl View for HeaderRow {
    type V = RowFields;

    open spec fn view(&self) -> RowFields {
        match self {
            HeaderRow::Meta(m) => RowFields::Meta(m@),
            HeaderRow::RefSeq(r) => RowFields::RefSeq(r@),
            HeaderRow::ReadGroup(g) => RowFields::ReadGroup(g@),
            HeaderRow::Program(p) => RowFields::Program(p@),
            HeaderRow::Comment(c) => RowFields::Comment(c@),
        }
    }
}

/// The record kind that a two-byte code names.
pub open spec fn row_kind_of(code: Seq<u8>) -> Option<HeaderRowKind> {
    if code == tag_of('H', 'D') {
        Some(HeaderRowKind::Meta)
    } else if code == tag_of('S', 'Q') {
        Some(HeaderRowKind::RefSeq)
    } else if code == tag_of('R', 'G') {
        Some(HeaderRowKind::ReadGroup)
    } else if code == tag_of('P', 'G') {
        Some(HeaderRowKind::Program)
    } else if code == tag_of('C', 'O') {
        Some(HeaderRowKind::Comment)
    } else {
        None
    }
}

/// A comment whose tab is at `p`: the rest of the line, verbatim.
pub open spec fn comment_at(s: Seq<u8>, p: int) -> Result<Seq<char>, ParseError> {
    if p >= s.len() || s[p] != TAB {
        Err(ParseError::MissingFieldDelimiter)
    } else {
        text_of(s.subrange(p + 1, s.len() as int))
    }
}

/// What a line of the header section holds.
pub open spec fn row_at(line: Seq<u8>) -> Result<RowFields, ParseError> {
    if line.len() == 0 || line[0] != AT {
        Err(ParseError::MissingPrefix)
    } else if line.len() < 3 {
        Err(ParseError::UnknownRecordCode)
    } else {
        match row_kind_of(line.subrange(1, 3)) {
            Some(HeaderRowKind::Meta) => match meta_at(line, 3) {
                Ok(f) => Ok(RowFields::Meta(f)),
                Err(e) => Err(e),
            },
            Some(HeaderRowKind::RefSeq) => match ref_seq_at(line, 3) {
                Ok(f) => Ok(RowFields::RefSeq(f)),
                Err(e) => Err(e),
            },
            Some(HeaderRowKind::ReadGroup) => match read_group_at(line, 3) {
                Ok(f) => Ok(RowFields::ReadGroup(f)),
                Err(e) => Err(e),
            },
            Some(HeaderRowKind::Program) => match program_at(line, 3) {
                Ok(f) => Ok(RowFields::Program(f)),
                Err(e) => Err(e),
            },
            Some(HeaderRowKind::Comment) => match comment_at(line, 3) {
                Ok(t) => Ok(RowFields::Comment(t)),
                Err(e) => Err(e),
            },
            None => Err(ParseError::UnknownRecordCode),
        }
    }
}

/// Reads the two-byte record code at the cursor.
pub fn parse_header_row_kind(s: &[u8], pos: &mut usize) -> (r: Result<HeaderRowKind, ParseError>)
    requires
        *old(pos) <= s@.len(),
    ensures
        *old(pos) + 2 > s@.len() ==> r == Err::<HeaderRowKind, ParseError>(ParseError::UnknownRecordCode),
        *old(pos) + 2 <= s@.len() ==> match row_kind_of(s@.subrange(*old(pos) as int, *old(pos) + 2)) {
            Some(k) => r == Ok::<HeaderRowKind, ParseError>(k),
            None => r == Err::<HeaderRowKind, ParseError>(ParseError::UnknownRecordCode),
        },
        r is Ok ==> *final(pos) == *old(pos) + 2,
{
    if s.len() - *pos < 2 {
        return Err(ParseError::UnknownRecordCode);
    }
    let start = *pos;
    let code = &s[start..start + 2];
    *pos = start + 2;
    if is_tag(code, 'H', 'D') {
        Ok(HeaderRowKind::Meta)
    } else if is_tag(code, 'S', 'Q') {
        Ok(HeaderRowKind::RefSeq)
    } else if is_tag(code, 'R', 'G') {
        Ok(HeaderRowKind::ReadGroup)
    } else if is_tag(code, 'P', 'G') {
        Ok(HeaderRowKind::Program)
    } else if is_tag(code, 'C', 'O') {
        Ok(HeaderRowKind::Comment)
    } else {
        Err(ParseError::UnknownRecordCode)
    }
}

/// Takes the rest of a comment line, after its tab, verbatim.
pub fn parse_comment(s: &[u8], pos: &mut usize) -> (r: Result<String, ParseError>)
    requires
        *old(pos) <= s@.len(),
    ensures
        r matches Ok(t) ==> comment_at(s@, *old(pos) as int) == Ok::<Seq<char>, ParseError>(t@),
        r matches Err(e) ==> comment_at(s@, *old(pos) as int) == Err::<Seq<char>, ParseError>(e),
{
    eat_field_delimiter(s, pos)?;
    let start = *pos;
    *pos = s.len();
    decode_text(&s[start..s.len()])
}

/// Parses the fields of a header line of the given kind.
pub fn parse_header_row_value(kind: HeaderRowKind, s: &[u8], pos: &mut usize) -> (r: Result<HeaderRow, ParseError>)
    requires
        *old(pos) <= s@.len(),
    ensures
        r matches Ok(row) ==> match kind {
            HeaderRowKind::Meta => meta_at(s@, *old(pos) as int) == Ok::<MetaFields, ParseError>(row@->Meta_0) && row@ is Meta,
            HeaderRowKind::RefSeq => ref_seq_at(s@, *old(pos) as int) == Ok::<RefSeqFields, ParseError>(row@->RefSeq_0) && row@ is RefSeq,
            HeaderRowKind::ReadGroup => read_group_at(s@, *old(pos) as int) == Ok::<ReadGroupFields, ParseError>(row@->ReadGroup_0) && row@ is ReadGroup,
            HeaderRowKind::Program => program_at(s@, *old(pos) as int) == Ok::<ProgramFields, ParseError>(row@->Program_0) && row@ is Program,
            HeaderRowKind::Comment => comment_at(s@, *old(pos) as int) == Ok::<Seq<char>, ParseError>(row@->Comment_0) && row@ is Comment,
        },
        r matches Err(e) ==> match kind {
            HeaderRowKind::Meta => meta_at(s@, *old(pos) as int) == Err::<MetaFields, ParseError>(e),
            HeaderRowKind::RefSeq => ref_seq_at(s@, *old(pos) as int) == Err::<RefSeqFields, ParseError>(e),
            HeaderRowKind::ReadGroup => read_group_at(s@, *old(pos) as int) == Err::<ReadGroupFields, ParseError>(e),
            HeaderRowKind::Program => program_at(s@, *old(pos) as int) == Err::<ProgramFields, ParseError>(e),
            HeaderRowKind::Comment => comment_at(s@, *old(pos) as int) == Err::<Seq<char>, ParseError>(e),
        },
{
    match kind {
        HeaderRowKind::Meta => match parse_meta(s, pos) {
            Ok(m) => Ok(HeaderRow::Meta(m)),
            Err(e) => Err(e),
        },
        HeaderRowKind::RefSeq => match parse_ref_seq(s, pos) {
            Ok(x) => Ok(HeaderRow::RefSeq(x)),
            Err(e) => Err(e),
        },
        HeaderRowKind::ReadGroup => match parse_read_group(s, pos) {
            Ok(x) => Ok(HeaderRow::ReadGroup(x)),
            Err(e) => Err(e),
        },
        HeaderRowKind::Program => match parse_program(s, pos) {
            Ok(x) => Ok(HeaderRow::Program(x)),
            Err(e) => Err(e),
        },
        HeaderRowKind::Comment => match parse_comment(s, pos) {
            Ok(x) => Ok(HeaderRow::Comment(x)),
            Err(e) => Err(e),
        },
    }
}

/// Parses one line of the header section (without its line ending).
pub fn parse_header_row(line: &[u8]) -> (r: Result<HeaderRow, ParseError>)
    ensures
        r matches Ok(row) ==> row_at(line@) == Ok::<RowFields, ParseError>(row@),
        r matches Err(e) ==> row_at(line@) == Err::<RowFields, ParseError>(e),
{
    let mut pos: usize = 0;
    eat_prefix(line, &mut pos)?;
    let kind = parse_header_row_kind(line, &mut pos)?;
    parse_header_row_value(kind, line, &mut pos)
}

} // verus!
