//! `@SQ` lines: reference sequences.
use vstd::prelude::*;

use crate::error::ParseError;
use vstd::utf8::{decode_utf8, valid_utf8};

use crate::header::{opt_text, opt_texts, texts, RefSeqFields, ReferenceSeq, Topology};
use crate::records::{parse_uint, same_bytes, uint_at};
use crate::text::{decode_text, COMMA};
use crate::tokenizer::{find_byte, parse_value, value_at, value_span};
use crate::records::{fill, is_tag, left, tag_of, try_insert_once};
use crate::text::{run_len, TAB};
use crate::tokenizer::{field_head, parse_field_head, parse_str, text_at};

verus! {

/// A reference length at `p`: an unsigned 64-bit number.
pub open spec fn len_at(s: Seq<u8>, p: int) -> Result<u64, ParseError> {
    match uint_at(s, p, u64::MAX as nat) {
        Ok(n) => Ok(n as u64),
        Err(e) => Err(e),
    }
}

pub open spec fn topology_of(v: Seq<u8>) -> Option<Topology> {
    if v == seq!['l' as u8, 'i' as u8, 'n' as u8, 'e' as u8, 'a' as u8, 'r' as u8] {
        Some(Topology::Linear)
    } else if v == seq!['c' as u8, 'i' as u8, 'r' as u8, 'c' as u8, 'u' as u8, 'l' as u8, 'a' as u8, 'r' as u8] {
        Some(Topology::Circular)
    } else {
        None
    }
}

/// A topology value at `p`.
pub open spec fn topology_at(s: Seq<u8>, p: int) -> Result<Topology, ParseError> {
    match value_at(s, p) {
        Ok(w) => match topology_of(w) {
            Some(x) => Ok(x),
            None => Err(ParseError::UnknownValue),
        },
        Err(e) => Err(e),
    }
}

/// The pieces of `v[p..]` between commas; there is always at least one.
pub open spec fn pieces(v: Seq<u8>, p: int) -> Seq<Seq<u8>>
    decreases left(v, p),
{
    let n = run_len(v, p, COMMA);
    if p + n < v.len() {
        seq![v.subrange(p, p + n)] + pieces(v, p + n + 1)
    } else {
        seq![v.subrange(p, p + n)]
    }
}

/// The alternate names at `p`: the value, which must be text, split at commas.
pub open spec fn alt_names_at(s: Seq<u8>, p: int) -> Result<Seq<Seq<char>>, ParseError> {
    match text_at(s, p) {
        Ok(_) => {
            let ps = pieces(value_span(s, p), 0);
            if forall|i: int| 0 <= i < ps.len() ==> valid_utf8(#[trigger] ps[i]) {
                Ok(ps.map_values(|b: Seq<u8>| decode_utf8(b)))
            } else {
                Err(ParseError::InvalidEncoding)
            }
        },
        Err(e) => Err(e),
    }
}

/// Reads a reference length.
pub fn parse_len(s: &[u8], pos: &mut usize) -> (r: Result<u64, ParseError>)
    requires
        *old(pos) <= s@.len(),
    ensures
        r == len_at(s@, *old(pos) as int),
        *final(pos) == *old(pos) + run_len(s@, *old(pos) as int, TAB),
        *final(pos) <= s@.len(),
{
    parse_uint(s, pos, u64::MAX)
}

/// Reads a topology: `linear` or `circular`.
pub fn parse_topology(s: &[u8], pos: &mut usize) -> (r: Result<Topology, ParseError>)
    requires
        *old(pos) <= s@.len(),
    ensures
        r == topology_at(s@, *old(pos) as int),
        *final(pos) == *old(pos) + run_len(s@, *old(pos) as int, TAB),
        *final(pos) <= s@.len(),
{
    let v = parse_value(s, pos)?;
    if same_bytes(v, &['l' as u8, 'i' as u8, 'n' as u8, 'e' as u8, 'a' as u8, 'r' as u8]) {
        Ok(Topology::Linear)
    } else if same_bytes(v, &['c' as u8, 'i' as u8, 'r' as u8, 'c' as u8, 'u' as u8, 'l' as u8, 'a' as u8, 'r' as u8]) {
        Ok(Topology::Circular)
    } else {
        Err(ParseError::UnknownValue)
    }
}

/// Reads a comma-separated list of alternate names.
pub fn parse_alt_names(s: &[u8], pos: &mut usize) -> (r: Result<Vec<String>, ParseError>)
    requires
        *old(pos) <= s@.len(),
    ensures
        r matches Ok(ns) ==> alt_names_at(s@, *old(pos) as int) == Ok::<Seq<Seq<char>>, ParseError>(texts(ns)),
        r matches Err(e) ==> alt_names_at(s@, *old(pos) as int) == Err::<Seq<Seq<char>>, ParseError>(e),
        *final(pos) == *old(pos) + run_len(s@, *old(pos) as int, TAB),
        *final(pos) <= s@.len(),
{
    let whole = parse_value(s, pos)?;
    let _ = decode_text(whole)?;
    let mut names: Vec<String> = Vec::new();
    let mut p: usize = 0;
    let ghost mut done: Seq<Seq<u8>> = seq![];
    loop
        invariant_except_break
            pieces(whole@, 0) == done + pieces(whole@, p as int),
        invariant
            p <= whole@.len(),
            whole@ == value_span(s@, *old(pos) as int),
            text_at(s@, *old(pos) as int) is Ok,
            *pos == *old(pos) + run_len(s@, *old(pos) as int, TAB),
            *pos <= s@.len(),
            names@.len() == done.len(),
            forall|i: int| 0 <= i < done.len() ==> valid_utf8(#[trigger] done[i]) && names@[i]@ == decode_utf8(done[i]),
        ensures
            pieces(whole@, 0) == done,
        decreases whole@.len() - p,
    {
        let e = find_byte(whole, p, COMMA);
        let piece = &whole[p..e];
        assert(pieces(whole@, 0)[done.len() as int] == piece@);
        let t = match decode_text(piece) {
            Ok(t) => t,
            Err(e) => {
                assert(!valid_utf8(pieces(whole@, 0)[done.len() as int]));
                return Err(e);
            },
        };
        names.push(t);
        proof {
            if e < whole@.len() {
                assert(done + pieces(whole@, p as int) =~= done.push(piece@) + pieces(whole@, e + 1));
            } else {
                assert(done + pieces(whole@, p as int) =~= done.push(piece@));
            }
            done = done.push(piece@);
        }
        if e == whole.len() {
            break;
        }
        p = e + 1;
    }
    assert(texts(names) =~= pieces(whole@, 0).map_values(|b: Seq<u8>| decode_utf8(b)));
    Ok(names)
}

/// One field of an `@SQ` line whose value starts at `q`: the slots after
/// it, and the number of value bytes it took.
pub open spec fn ref_seq_field(s: Seq<u8>, q: int, tag: Seq<u8>, acc: RefSeqFields) -> Result<(RefSeqFields, nat), ParseError> {
    if tag == tag_of('S', 'N') {
        match fill(acc.name, text_at(s, q)) {
            Ok(v) => Ok((RefSeqFields { name: Some(v), ..acc }, run_len(s, q, TAB))),
            Err(e) => Err(e),
        }
    } else if tag == tag_of('L', 'N') {
        match fill(acc.length, len_at(s, q)) {
            Ok(v) => Ok((RefSeqFields { length: Some(v), ..acc }, run_len(s, q, TAB))),
            Err(e) => Err(e),
        }
    } else if tag == tag_of('A', 'H') {
        match fill(acc.alternate_locus, text_at(s, q)) {
            Ok(v) => Ok((RefSeqFields { alternate_locus: Some(v), ..acc }, run_len(s, q, TAB))),
            Err(e) => Err(e),
        }
    } else if tag == tag_of('A', 'N') {
        match fill(acc.alternate_names, alt_names_at(s, q)) {
            Ok(v) => Ok((RefSeqFields { alternate_names: Some(v), ..acc }, run_len(s, q, TAB))),
            Err(e) => Err(e),
        }
    } else if tag == tag_of('A', 'S') {
        match fill(acc.assembly_id, text_at(s, q)) {
            Ok(v) => Ok((RefSeqFields { assembly_id: Some(v), ..acc }, run_len(s, q, TAB))),
            Err(e) => Err(e),
        }
    } else if tag == tag_of('D', 'S') {
        match fill(acc.description, text_at(s, q)) {
            Ok(v) => Ok((RefSeqFields { description: Some(v), ..acc }, run_len(s, q, TAB))),
            Err(e) => Err(e),
        }
    } else if tag == tag_of('M', '5') {
        match fill(acc.checksum, text_at(s, q)) {
            Ok(v) => Ok((RefSeqFields { checksum: Some(v), ..acc }, run_len(s, q, TAB))),
            Err(e) => Err(e),
        }
    } else if tag == tag_of('S', 'P') {
        match fill(acc.species, text_at(s, q)) {
            Ok(v) => Ok((RefSeqFields { species: Some(v), ..acc }, run_len(s, q, TAB))),
            Err(e) => Err(e),
        }
    } else if tag == tag_of('T', 'P') {
        match fill(acc.topology, topology_at(s, q)) {
            Ok(v) => Ok((RefSeqFields { topology: Some(v), ..acc }, run_len(s, q, TAB))),
            Err(e) => Err(e),
        }
    } else if tag == tag_of('U', 'R') {
        match fill(acc.uri, text_at(s, q)) {
            Ok(v) => Ok((RefSeqFields { uri: Some(v), ..acc }, run_len(s, q, TAB))),
            Err(e) => Err(e),
        }
    } else {
        Err(ParseError::UnknownTag)
    }
}

/// The fields of an `@SQ` line from `p` to its end, read into `acc`.
pub open spec fn ref_seq_fields(s: Seq<u8>, p: int, acc: RefSeqFields) -> Result<RefSeqFields, ParseError>
    decreases left(s, p),
{
    if p >= s.len() {
        Ok(acc)
    } else {
        match field_head(s, p) {
            Ok(tag) => match ref_seq_field(s, p + 4, tag, acc) {
                Ok((next, n)) => ref_seq_fields(s, p + 4 + n, next),
                Err(e) => Err(e),
            },
            Err(e) => Err(e),
        }
    }
}

pub open spec fn no_ref_seq_fields() -> RefSeqFields {
    RefSeqFields { name: None, length: None, alternate_locus: None, alternate_names: None, assembly_id: None, description: None, checksum: None, species: None, topology: None, uri: None }
}

/// An `@SQ` line whose fields start at `p`; `SN` and `LN` are mandatory.
pub open spec fn ref_seq_at(s: Seq<u8>, p: int) -> Result<RefSeqFields, ParseError> {
    match ref_seq_fields(s, p, no_ref_seq_fields()) {
        Ok(f) => if f.name is None {
            Err(ParseError::MissingRefSeqName)
        } else if f.length is None {
            Err(ParseError::MissingRefSeqLen)
        } else {
            Ok(f)
        },
        Err(e) => Err(e),
    }
}

/// Parses the fields of an `@SQ` line, from the cursor to the line's end.
pub fn parse_ref_seq(s: &[u8], pos: &mut usize) -> (r: Result<ReferenceSeq, ParseError>)
    requires
        *old(pos) <= s@.len(),
    ensures
        r matches Ok(x) ==> ref_seq_at(s@, *old(pos) as int) == Ok::<RefSeqFields, ParseError>(x@),
        r matches Err(e) ==> ref_seq_at(s@, *old(pos) as int) == Err::<RefSeqFields, ParseError>(e),
{
    let ghost start = *pos;
    let mut name: Option<String> = None;
    let mut length: Option<u64> = None;
    let mut alternate_locus: Option<String> = None;
    let mut alternate_names: Option<Vec<String>> = None;
    let mut assembly_id: Option<String> = None;
    let mut description: Option<String> = None;
    let mut checksum: Option<String> = None;
    let mut species: Option<String> = None;
    let mut topology: Option<Topology> = None;
    let mut uri: Option<String> = None;
    while *pos < s.len()
        invariant
            *pos <= s@.len(),
            start == *old(pos),
            ref_seq_fields(s@, start as int, no_ref_seq_fields()) == ref_seq_fields(
                s@,
                *pos as int,
                (RefSeqFields { name: opt_text(name), length: length, alternate_locus: opt_text(alternate_locus), alternate_names: opt_texts(alternate_names), assembly_id: opt_text(assembly_id), description: opt_text(description), checksum: opt_text(checksum), species: opt_text(species), topology: topology, uri: opt_text(uri) }),
            ),
        decreases s@.len() - *pos,
    {
        let tag = parse_field_head(s, pos)?;
        if is_tag(tag, 'S', 'N') {
            let v = parse_str(s, pos)?;
            try_insert_once(&mut name, v)?;
        } else if is_tag(tag, 'L', 'N') {
            let v = parse_len(s, pos)?;
            try_insert_once(&mut length, v)?;
        } else if is_tag(tag, 'A', 'H') {
            let v = parse_str(s, pos)?;
            try_insert_once(&mut alternate_locus, v)?;
        } else if is_tag(tag, 'A', 'N') {
            let v = parse_alt_names(s, pos)?;
            try_insert_once(&mut alternate_names, v)?;
        } else if is_tag(tag, 'A', 'S') {
            let v = parse_str(s, pos)?;
            try_insert_once(&mut assembly_id, v)?;
        } else if is_tag(tag, 'D', 'S') {
            let v = parse_str(s, pos)?;
            try_insert_once(&mut description, v)?;
        } else if is_tag(tag, 'M', '5') {
            let v = parse_str(s, pos)?;
            try_insert_once(&mut checksum, v)?;
        } else if is_tag(tag, 'S', 'P') {
            let v = parse_str(s, pos)?;
            try_insert_once(&mut species, v)?;
        } else if is_tag(tag, 'T', 'P') {
            let v = parse_topology(s, pos)?;
            try_insert_once(&mut topology, v)?;
        } else if is_tag(tag, 'U', 'R') {
            let v = parse_str(s, pos)?;
            try_insert_once(&mut uri, v)?;
        } else {
            return Err(ParseError::UnknownTag);
        }
    }
    match name {
        Some(name) => match length {
            Some(length) => Ok(ReferenceSeq {
                name,
                length,
                alternate_locus,
                alternate_names,
                assembly_id,
                description,
                checksum,
                species,
                topology,
                uri,
            }),
            None => Err(ParseError::MissingRefSeqLen),
        },
        None => Err(ParseError::MissingRefSeqName),
    }
}

} // verus!
