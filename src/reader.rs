//! Whole header sections: lines are split and read one after another into
//! one header.
use vstd::prelude::*;
use vstd::string::StringSliceAdditionalSpecFns;

use crate::error::ParseError;
use crate::header::{add_row, empty_header, Header, HeaderFields};
use crate::records::{left, parse_header_row, row_at, RowFields};
use crate::text::{run_len, CARRIAGE_RETURN, NEWLINE};
use crate::tokenizer::find_byte;

verus! {

/// Where the line that starts at `p` ends: before its `\n`, or before the
/// `\r` of a `\r\n`; the last line needs no line ending.
pub open spec fn line_end(s: Seq<u8>, p: int) -> int {
    let n = run_len(s, p, NEWLINE);
    if p + n < s.len() && n > 0 && s[p + n - 1] == CARRIAGE_RETURN {
        p + n - 1
    } else {
        p + n
    }
}

/// The header that the lines from `p` on add to `acc`; the first line that
/// fails ends the whole with its error.
pub open spec fn header_from(s: Seq<u8>, p: int, acc: HeaderFields) -> Result<HeaderFields, ParseError>
    decreases left(s, p),
{
    if p < 0 || p >= s.len() {
        Ok(acc)
    } else {
        match row_at(s.subrange(p, line_end(s, p))) {
            Ok(row) => match add_row(acc, row) {
                Ok(h) => header_from(s, p + run_len(s, p, NEWLINE) + 1, h),
                Err(e) => Err(e),
            },
            Err(e) => Err(e),
        }
    }
}

/// The header that a whole header section holds.
pub open spec fn header_of(s: Seq<u8>) -> Result<HeaderFields, ParseError> {
    header_from(s, 0, empty_header())
}

/// Reading depends on the text alone: the same text gives the same header,
/// or the same error, every time.
pub proof fn lemma_header_deterministic(a: Seq<u8>, b: Seq<u8>)
    requires
        a == b,
    ensures
        header_of(a) == header_of(b),
{
}

/// A line that reads as an `@HD` line, met when the header already has one,
/// fails the whole section with `RepeatTag`.
pub proof fn lemma_repeat_meta_line(s: Seq<u8>, p: int, acc: HeaderFields)
    requires
        0 <= p < s.len(),
        acc.meta is Some,
        row_at(s.subrange(p, line_end(s, p))) matches Ok(RowFields::Meta(_)),
    ensures
        header_from(s, p, acc) == Err::<HeaderFields, ParseError>(ParseError::RepeatTag),
{
}

/// Reads a header section from the bytes of its lines.
pub fn read_header(s: &[u8]) -> (r: Result<Header, ParseError>)
    ensures
        r matches Ok(h) ==> header_of(s@) == Ok::<HeaderFields, ParseError>(h@) && h.wf(),
        r matches Err(e) ==> header_of(s@) == Err::<HeaderFields, ParseError>(e),
{
    let mut h = Header::new();
    let mut p: usize = 0;
    while p < s.len()
        invariant
            p <= s@.len(),
            h.wf(),
            header_of(s@) == header_from(s@, p as int, h@),
        decreases s@.len() - p,
    {
        let nl = find_byte(s, p, NEWLINE);
        let end = if nl < s.len() && nl > p && s[nl - 1] == CARRIAGE_RETURN {
            nl - 1
        } else {
            nl
        };
        let row = parse_header_row(&s[p..end])?;
        h.insert_row(row)?;
        if nl >= s.len() {
            return Ok(h);
        }
        p = nl + 1;
    }
    Ok(h)
}

/// Reads a header section from its text.
pub fn parse_header(text: &str) -> (r: Result<Header, ParseError>)
    ensures
        r matches Ok(h) ==> header_of(text.spec_bytes()) == Ok::<HeaderFields, ParseError>(h@) && h.wf(),
        r matches Err(e) ==> header_of(text.spec_bytes()) == Err::<HeaderFields, ParseError>(e),
{
    read_header(text.as_bytes())
}

} // verus!
