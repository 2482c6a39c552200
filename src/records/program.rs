//! `@PG` lines: the programs that produced or processed the file.
use vstd::prelude::*;

use crate::error::ParseError;
use crate::header::{opt_text, Program, ProgramFields};
use crate::records::{fill, is_tag, left, tag_of, try_insert_once};
use crate::text::{run_len, TAB};
use crate::tokenizer::{field_head, parse_field_head, parse_str, text_at};

verus! {

/// One field of an `@PG` line whose value starts at `q`: the slots after
/// it, and the number of value bytes it took.
pub open spec fn program_field(s: Seq<u8>, q: int, tag: Seq<u8>, acc: ProgramFields) -> Result<(ProgramFields, nat), ParseError> {
    if tag == tag_of('I', 'D') {
        match fill(acc.id, text_at(s, q)) {
            Ok(v) => Ok((ProgramFields { id: Some(v), ..acc }, run_len(s, q, TAB))),
            Err(e) => Err(e),
        }
    } else if tag == tag_of('P', 'N') {
        match fill(acc.name, text_at(s, q)) {
            Ok(v) => Ok((ProgramFields { name: Some(v), ..acc }, run_len(s, q, TAB))),
            Err(e) => Err(e),
        }
    } else if tag == tag_of('C', 'L') {
        match fill(acc.command_line, text_at(s, q)) {
            Ok(v) => Ok((ProgramFields { command_line: Some(v), ..acc }, run_len(s, q, TAB))),
            Err(e) => Err(e),
        }
    } else if tag == tag_of('P', 'P') {
        match fill(acc.previous, text_at(s, q)) {
            Ok(v) => Ok((ProgramFields { previous: Some(v), ..acc }, run_len(s, q, TAB))),
            Err(e) => Err(e),
        }
    } else if tag == tag_of('D', 'S') {
        match fill(acc.description, text_at(s, q)) {
            Ok(v) => Ok((ProgramFields { description: Some(v), ..acc }, run_len(s, q, TAB))),
            Err(e) => Err(e),
        }
    } else if tag == tag_of('V', 'N') {
        match fill(acc.version, text_at(s, q)) {
            Ok(v) => Ok((ProgramFields { version: Some(v), ..acc }, run_len(s, q, TAB))),
            Err(e) => Err(e),
        }
    } else {
        Err(ParseError::UnknownTag)
    }
}

/// The fields of an `@PG` line from `p` to its end, read into `acc`.
pub open spec fn program_fields(s: Seq<u8>, p: int, acc: ProgramFields) -> Result<ProgramFields, ParseError>
    decreases left(s, p),
{
    if p >= s.len() {
        Ok(acc)
    } else {
        match field_head(s, p) {
            Ok(tag) => match program_field(s, p + 4, tag, acc) {
                Ok((next, n)) => program_fields(s, p + 4 + n, next),
                Err(e) => Err(e),
            },
            Err(e) => Err(e),
        }
    }
}

pub open spec fn no_program_fields() -> ProgramFields {
    ProgramFields { id: None, name: None, command_line: None, previous: None, description: None, version: None }
}

/// An `@PG` line whose fields start at `p`; `ID` is mandatory.
pub open spec fn program_at(s: Seq<u8>, p: int) -> Result<ProgramFields, ParseError> {
    match program_fields(s, p, no_program_fields()) {
        Ok(f) => if f.id is None {
            Err(ParseError::MissingProgramId)
        } else {
            Ok(f)
        },
        Err(e) => Err(e),
    }
}

/// Parses the fields of an `@PG` line, from the cursor to the line's end.
pub fn parse_program(s: &[u8], pos: &mut usize) -> (r: Result<Program, ParseError>)
    requires
        *old(pos) <= s@.len(),
    ensures
        r matches Ok(x) ==> program_at(s@, *old(pos) as int) == Ok::<ProgramFields, ParseError>(x@),
        r matches Err(e) ==> program_at(s@, *old(pos) as int) == Err::<ProgramFields, ParseError>(e),
{
    let ghost start = *pos;
    let mut id: Option<String> = None;
    let mut name: Option<String> = None;
    let mut command_line: Option<String> = None;
    let mut previous: Option<String> = None;
    let mut description: Option<String> = None;
    let mut version: Option<String> = None;
    while *pos < s.len()
        invariant
            *pos <= s@.len(),
            start == *old(pos),
            program_fields(s@, start as int, no_program_fields()) == program_fields(
                s@,
                *pos as int,
                (ProgramFields { id: opt_text(id), name: opt_text(name), command_line: opt_text(command_line), previous: opt_text(previous), description: opt_text(description), version: opt_text(version) }),
            ),
        decreases s@.len() - *pos,
    {
        let tag = parse_field_head(s, pos)?;
        if is_tag(tag, 'I', 'D') {
            let v = parse_str(s, pos)?;
            try_insert_once(&mut id, v)?;
        } else if is_tag(tag, 'P', 'N') {
            let v = parse_str(s, pos)?;
            try_insert_once(&mut name, v)?;
        } else if is_tag(tag, 'C', 'L') {
            let v = parse_str(s, pos)?;
            try_insert_once(&mut command_line, v)?;
        } else if is_tag(tag, 'P', 'P') {
            let v = parse_str(s, pos)?;
            try_insert_once(&mut previous, v)?;
        } else if is_tag(tag, 'D', 'S') {
            let v = parse_str(s, pos)?;
            try_insert_once(&mut description, v)?;
        } else if is_tag(tag, 'V', 'N') {
            let v = parse_str(s, pos)?;
            try_insert_once(&mut version, v)?;
        } else {
            return Err(ParseError::UnknownTag);
        }
    }
    match id {
        Some(id) => Ok(Program { id, name, command_line, previous, description, version }),
        None => Err(ParseError::MissingProgramId),
    }
}

} // verus!
