//! `@RG` lines: read groups.
use vstd::prelude::*;

use crate::error::ParseError;
use crate::header::{opt_text, Platform, ReadGroup, ReadGroupFields};
use crate::records::{parse_uint, same_bytes, uint_at};
use crate::tokenizer::{parse_value, value_at};
use crate::records::{fill, is_tag, left, tag_of, try_insert_once};
use crate::text::{run_len, TAB};
use crate::tokenizer::{field_head, parse_field_head, parse_str, text_at};

verus! {

/// The platform that a `PL` value names.
pub open spec fn platform_of(v: Seq<u8>) -> Option<Platform> {
    if v == seq!['C' as u8, 'A' as u8, 'P' as u8, 'I' as u8, 'L' as u8, 'L' as u8, 'A' as u8, 'R' as u8, 'Y' as u8] {
        Some(Platform::Capillary)
    } else if v == seq!['D' as u8, 'N' as u8, 'B' as u8, 'S' as u8, 'E' as u8, 'Q' as u8] {
        Some(Platform::Dnbseq)
    } else if v == seq!['E' as u8, 'L' as u8, 'E' as u8, 'M' as u8, 'E' as u8, 'N' as u8, 'T' as u8] {
        Some(Platform::Element)
    } else if v == seq!['H' as u8, 'E' as u8, 'L' as u8, 'I' as u8, 'C' as u8, 'O' as u8, 'S' as u8] {
        Some(Platform::Helicos)
    } else if v == seq!['I' as u8, 'L' as u8, 'L' as u8, 'U' as u8, 'M' as u8, 'I' as u8, 'N' as u8, 'A' as u8] {
        Some(Platform::Illumina)
    } else if v == seq!['I' as u8, 'O' as u8, 'N' as u8, 'T' as u8, 'O' as u8, 'R' as u8, 'R' as u8, 'E' as u8, 'N' as u8, 'T' as u8] {
        Some(Platform::IonTorrent)
    } else if v == seq!['L' as u8, 'S' as u8, '4' as u8, '5' as u8, '4' as u8] {
        Some(Platform::Ls454)
    } else if v == seq!['O' as u8, 'N' as u8, 'T' as u8] {
        Some(Platform::Ont)
    } else if v == seq!['P' as u8, 'A' as u8, 'C' as u8, 'B' as u8, 'I' as u8, 'O' as u8] {
        Some(Platform::PacBio)
    } else if v == seq!['S' as u8, 'I' as u8, 'N' as u8, 'G' as u8, 'U' as u8, 'L' as u8, 'A' as u8, 'R' as u8] {
        Some(Platform::Singular)
    } else if v == seq!['S' as u8, 'O' as u8, 'L' as u8, 'I' as u8, 'D' as u8] {
        Some(Platform::Solid)
    } else if v == seq!['U' as u8, 'L' as u8, 'T' as u8, 'I' as u8, 'M' as u8, 'A' as u8] {
        Some(Platform::Ultima)
    } else {
        None
    }
}

/// A platform value at `p`.
pub open spec fn platform_at(s: Seq<u8>, p: int) -> Result<Platform, ParseError> {
    match value_at(s, p) {
        Ok(w) => match platform_of(w) {
            Some(x) => Ok(x),
            None => Err(ParseError::UnknownValue),
        },
        Err(e) => Err(e),
    }
}

/// An insert size at `p`: an unsigned 32-bit number.
pub open spec fn insert_size_at(s: Seq<u8>, p: int) -> Result<u32, ParseError> {
    match uint_at(s, p, u32::MAX as nat) {
        Ok(n) => Ok(n as u32),
        Err(e) => Err(e),
    }
}

/// Reads a platform name, in upper case.
pub fn parse_platform(s: &[u8], pos: &mut usize) -> (r: Result<Platform, ParseError>)
    requires
        *old(pos) <= s@.len(),
    ensures
        r == platform_at(s@, *old(pos) as int),
        *final(pos) == *old(pos) + run_len(s@, *old(pos) as int, TAB),
        *final(pos) <= s@.len(),
{
    let v = parse_value(s, pos)?;
    if same_bytes(v, &['C' as u8, 'A' as u8, 'P' as u8, 'I' as u8, 'L' as u8, 'L' as u8, 'A' as u8, 'R' as u8, 'Y' as u8]) {
        Ok(Platform::Capillary)
    } else if same_bytes(v, &['D' as u8, 'N' as u8, 'B' as u8, 'S' as u8, 'E' as u8, 'Q' as u8]) {
        Ok(Platform::Dnbseq)
    } else if same_bytes(v, &['E' as u8, 'L' as u8, 'E' as u8, 'M' as u8, 'E' as u8, 'N' as u8, 'T' as u8]) {
        Ok(Platform::Element)
    } else if same_bytes(v, &['H' as u8, 'E' as u8, 'L' as u8, 'I' as u8, 'C' as u8, 'O' as u8, 'S' as u8]) {
        Ok(Platform::Helicos)
    } else if same_bytes(v, &['I' as u8, 'L' as u8, 'L' as u8, 'U' as u8, 'M' as u8, 'I' as u8, 'N' as u8, 'A' as u8]) {
        Ok(Platform::Illumina)
    } else if same_bytes(v, &['I' as u8, 'O' as u8, 'N' as u8, 'T' as u8, 'O' as u8, 'R' as u8, 'R' as u8, 'E' as u8, 'N' as u8, 'T' as u8]) {
        Ok(Platform::IonTorrent)
    } else if same_bytes(v, &['L' as u8, 'S' as u8, '4' as u8, '5' as u8, '4' as u8]) {
        Ok(Platform::Ls454)
    } else if same_bytes(v, &['O' as u8, 'N' as u8, 'T' as u8]) {
        Ok(Platform::Ont)
    } else if same_bytes(v, &['P' as u8, 'A' as u8, 'C' as u8, 'B' as u8, 'I' as u8, 'O' as u8]) {
        Ok(Platform::PacBio)
    } else if same_bytes(v, &['S' as u8, 'I' as u8, 'N' as u8, 'G' as u8, 'U' as u8, 'L' as u8, 'A' as u8, 'R' as u8]) {
        Ok(Platform::Singular)
    } else if same_bytes(v, &['S' as u8, 'O' as u8, 'L' as u8, 'I' as u8, 'D' as u8]) {
        Ok(Platform::Solid)
    } else if same_bytes(v, &['U' as u8, 'L' as u8, 'T' as u8, 'I' as u8, 'M' as u8, 'A' as u8]) {
        Ok(Platform::Ultima)
    } else {
        Err(ParseError::UnknownValue)
    }
}

/// Reads an insert size.
pub fn parse_insert_size(s: &[u8], pos: &mut usize) -> (r: Result<u32, ParseError>)
    requires
        *old(pos) <= s@.len(),
    ensures
        r == insert_size_at(s@, *old(pos) as int),
        *final(pos) == *old(pos) + run_len(s@, *old(pos) as int, TAB),
        *final(pos) <= s@.len(),
{
    let n = parse_uint(s, pos, u32::MAX as u64)?;
    Ok(n as u32)
}

/// One field of an `@RG` line whose value starts at `q`: the slots after
/// it, and the number of value bytes it took.
pub open spec fn read_group_field(s: Seq<u8>, q: int, tag: Seq<u8>, acc: ReadGroupFields) -> Result<(ReadGroupFields, nat), ParseError> {
    if tag == tag_of('I', 'D') {
        match fill(acc.id, text_at(s, q)) {
            Ok(v) => Ok((ReadGroupFields { id: Some(v), ..acc }, run_len(s, q, TAB))),
            Err(e) => Err(e),
        }
    } else if tag == tag_of('B', 'C') {
        match fill(acc.barcode, text_at(s, q)) {
            Ok(v) => Ok((ReadGroupFields { barcode: Some(v), ..acc }, run_len(s, q, TAB))),
            Err(e) => Err(e),
        }
    } else if tag == tag_of('C', 'N') {
        match fill(acc.center, text_at(s, q)) {
            Ok(v) => Ok((ReadGroupFields { center: Some(v), ..acc }, run_len(s, q, TAB))),
            Err(e) => Err(e),
        }
    } else if tag == tag_of('D', 'S') {
        match fill(acc.description, text_at(s, q)) {
            Ok(v) => Ok((ReadGroupFields { description: Some(v), ..acc }, run_len(s, q, TAB))),
            Err(e) => Err(e),
        }
    } else if tag == tag_of('D', 'T') {
        match fill(acc.date, text_at(s, q)) {
            Ok(v) => Ok((ReadGroupFields { date: Some(v), ..acc }, run_len(s, q, TAB))),
            Err(e) => Err(e),
        }
    } else if tag == tag_of('F', 'O') {
        match fill(acc.flow_order, text_at(s, q)) {
            Ok(v) => Ok((ReadGroupFields { flow_order: Some(v), ..acc }, run_len(s, q, TAB))),
            Err(e) => Err(e),
        }
    } else if tag == tag_of('K', 'S') {
        match fill(acc.key_sequence, text_at(s, q)) {
            Ok(v) => Ok((ReadGroupFields { key_sequence: Some(v), ..acc }, run_len(s, q, TAB))),
            Err(e) => Err(e),
        }
    } else if tag == tag_of('L', 'B') {
        match fill(acc.library, text_at(s, q)) {
            Ok(v) => Ok((ReadGroupFields { library: Some(v), ..acc }, run_len(s, q, TAB))),
            Err(e) => Err(e),
        }
    } else if tag == tag_of('P', 'G') {
        match fill(acc.programs, text_at(s, q)) {
            Ok(v) => Ok((ReadGroupFields { programs: Some(v), ..acc }, run_len(s, q, TAB))),
            Err(e) => Err(e),
        }
    } else if tag == tag_of('P', 'I') {
        match fill(acc.insert_size, insert_size_at(s, q)) {
            Ok(v) => Ok((ReadGroupFields { insert_size: Some(v), ..acc }, run_len(s, q, TAB))),
            Err(e) => Err(e),
        }
    } else if tag == tag_of('P', 'L') {
        match fill(acc.platform, platform_at(s, q)) {
            Ok(v) => Ok((ReadGroupFields { platform: Some(v), ..acc }, run_len(s, q, TAB))),
            Err(e) => Err(e),
        }
    } else if tag == tag_of('P', 'M') {
        match fill(acc.platform_model, text_at(s, q)) {
            Ok(v) => Ok((ReadGroupFields { platform_model: Some(v), ..acc }, run_len(s, q, TAB))),
            Err(e) => Err(e),
        }
    } else if tag == tag_of('P', 'U') {
        match fill(acc.platform_unit, text_at(s, q)) {
            Ok(v) => Ok((ReadGroupFields { platform_unit: Some(v), ..acc }, run_len(s, q, TAB))),
            Err(e) => Err(e),
        }
    } else if tag == tag_of('S', 'M') {
        match fill(acc.sample, text_at(s, q)) {
            Ok(v) => Ok((ReadGroupFields { sample: Some(v), ..acc }, run_len(s, q, TAB))),
            Err(e) => Err(e),
        }
    } else {
        Err(ParseError::UnknownTag)
    }
}

/// The fields of an `@RG` line from `p` to its end, read into `acc`.
pub open spec fn read_group_fields(s: Seq<u8>, p: int, acc: ReadGroupFields) -> Result<ReadGroupFields, ParseError>
    decreases left(s, p),
{
    if p >= s.len() {
        Ok(acc)
    } else {
        match field_head(s, p) {
            Ok(tag) => match read_group_field(s, p + 4, tag, acc) {
                Ok((next, n)) => read_group_fields(s, p + 4 + n, next),
                Err(e) => Err(e),
            },
            Err(e) => Err(e),
        }
    }
}

pub open spec fn no_read_group_fields() -> ReadGroupFields {
    ReadGroupFields { id: None, barcode: None, center: None, description: None, date: None, flow_order: None, key_sequence: None, library: None, programs: None, insert_size: None, platform: None, platform_model: None, platform_unit: None, sample: None }
}

/// An `@RG` line whose fields start at `p`; `ID` is mandatory.
pub open spec fn read_group_at(s: Seq<u8>, p: int) -> Result<ReadGroupFields, ParseError> {
    match read_group_fields(s, p, no_read_group_fields()) {
        Ok(f) => if f.id is None {
            Err(ParseError::MissingReadGroupId)
        } else {
            Ok(f)
        },
        Err(e) => Err(e),
    }
}

/// Parses the fields of an `@RG` line, from the cursor to the line's end.
pub fn parse_read_group(s: &[u8], pos: &mut usize) -> (r: Result<ReadGroup, ParseError>)
    requires
        *old(pos) <= s@.len(),
    ensures
        r matches Ok(x) ==> read_group_at(s@, *old(pos) as int) == Ok::<ReadGroupFields, ParseError>(x@),
        r matches Err(e) ==> read_group_at(s@, *old(pos) as int) == Err::<ReadGroupFields, ParseError>(e),
{
    let ghost start = *pos;
    let mut id: Option<String> = None;
    let mut barcode: Option<String> = None;
    let mut center: Option<String> = None;
    let mut description: Option<String> = None;
    let mut date: Option<String> = None;
    let mut flow_order: Option<String> = None;
    let mut key_sequence: Option<String> = None;
    let mut library: Option<String> = None;
    let mut programs: Option<String> = None;
    let mut insert_size: Option<u32> = None;
    let mut platform: Option<Platform> = None;
    let mut platform_model: Option<String> = None;
    let mut platform_unit: Option<String> = None;
    let mut sample: Option<String> = None;
    while *pos < s.len()
        invariant
            *pos <= s@.len(),
            start == *old(pos),
            read_group_fields(s@, start as int, no_read_group_fields()) == read_group_fields(
                s@,
                *pos as int,
                (ReadGroupFields { id: opt_text(id), barcode: opt_text(barcode), center: opt_text(center), description: opt_text(description), date: opt_text(date), flow_order: opt_text(flow_order), key_sequence: opt_text(key_sequence), library: opt_text(library), programs: opt_text(programs), insert_size: insert_size, platform: platform, platform_model: opt_text(platform_model), platform_unit: opt_text(platform_unit), sample: opt_text(sample) }),
            ),
        decreases s@.len() - *pos,
    {
        let tag = parse_field_head(s, pos)?;
        if is_tag(tag, 'I', 'D') {
            let v = parse_str(s, pos)?;
            try_insert_once(&mut id, v)?;
        } else if is_tag(tag, 'B', 'C') {
            let v = parse_str(s, pos)?;
            try_insert_once(&mut barcode, v)?;
        } else if is_tag(tag, 'C', 'N') {
            let v = parse_str(s, pos)?;
            try_insert_once(&mut center, v)?;
        } else if is_tag(tag, 'D', 'S') {
            let v = parse_str(s, pos)?;
            try_insert_once(&mut description, v)?;
        } else if is_tag(tag, 'D', 'T') {
            let v = parse_str(s, pos)?;
            try_insert_once(&mut date, v)?;
        } else if is_tag(tag, 'F', 'O') {
            let v = parse_str(s, pos)?;
            try_insert_once(&mut flow_order, v)?;
        } else if is_tag(tag, 'K', 'S') {
            let v = parse_str(s, pos)?;
            try_insert_once(&mut key_sequence, v)?;
        } else if is_tag(tag, 'L', 'B') {
            let v = parse_str(s, pos)?;
            try_insert_once(&mut library, v)?;
        } else if is_tag(tag, 'P', 'G') {
            let v = parse_str(s, pos)?;
            try_insert_once(&mut programs, v)?;
        } else if is_tag(tag, 'P', 'I') {
            let v = parse_insert_size(s, pos)?;
            try_insert_once(&mut insert_size, v)?;
        } else if is_tag(tag, 'P', 'L') {
            let v = parse_platform(s, pos)?;
            try_insert_once(&mut platform, v)?;
        } else if is_tag(tag, 'P', 'M') {
            let v = parse_str(s, pos)?;
            try_insert_once(&mut platform_model, v)?;
        } else if is_tag(tag, 'P', 'U') {
            let v = parse_str(s, pos)?;
            try_insert_once(&mut platform_unit, v)?;
        } else if is_tag(tag, 'S', 'M') {
            let v = parse_str(s, pos)?;
            try_insert_once(&mut sample, v)?;
        } else {
            return Err(ParseError::UnknownTag);
        }
    }
    match id {
        Some(id) => Ok(ReadGroup {
            id,
            barcode,
            center,
            description,
            date,
            flow_order,
            key_sequence,
            library,
            programs,
            insert_size,
            platform,
            platform_model,
            platform_unit,
            sample,
        }),
        None => Err(ParseError::MissingReadGroupId),
    }
}

} // verus!
