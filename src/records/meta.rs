//! `@HD` lines: the format version and how the file is sorted and grouped.
use vstd::prelude::*;

use crate::error::ParseError;
use crate::header::{opt_text, AlignmentGrouping, HeaderMeta, MetaFields, SortOrder, Version};
use crate::records::{fill, left, is_tag, same_bytes, tag_of, try_insert_once};
use crate::text::{
    all_digits, digit_run, digits_at_most, digits_value, is_digit, lemma_digit_run, run_len, DOT,
    TAB,
};
use crate::tokenizer::{field_head, parse_field_head, parse_str, parse_value, text_at, value_at};

verus! {

/// A version `<digits>.<digits>` at the start of `s[p..]`, and how many bytes
/// it takes. The digit runs are as long as possible.
pub open spec fn version_at(s: Seq<u8>, p: int) -> Result<(Version, nat), ParseError> {
    let d1 = digit_run(s, p);
    let dot = p + d1;
    let d2 = digit_run(s, dot + 1);
    if d1 == 0 || dot >= s.len() || s[dot] != DOT || d2 == 0 {
        Err(ParseError::BadVersion)
    } else {
        let major = digits_value(s, p, dot);
        let minor = digits_value(s, dot + 1, dot + 1 + d2);
        if major > u64::MAX || minor > u64::MAX {
            Err(ParseError::BadVersion)
        } else {
            Ok((Version { major: major as u64, minor: minor as u64 }, d1 + 1 + d2))
        }
    }
}

pub open spec fn sort_order_of(v: Seq<u8>) -> Option<SortOrder> {
    if v == seq!['u' as u8, 'n' as u8, 'k' as u8, 'n' as u8, 'o' as u8, 'w' as u8, 'n' as u8] {
        Some(SortOrder::Unknown)
    } else if v == seq!['u' as u8, 'n' as u8, 's' as u8, 'o' as u8, 'r' as u8, 't' as u8, 'e' as u8, 'd' as u8] {
        Some(SortOrder::Unsorted)
    } else if v == seq!['q' as u8, 'u' as u8, 'e' as u8, 'r' as u8, 'y' as u8, 'n' as u8, 'a' as u8, 'm' as u8, 'e' as u8] {
        Some(SortOrder::QueryName)
    } else if v == seq!['c' as u8, 'o' as u8, 'o' as u8, 'r' as u8, 'd' as u8, 'i' as u8, 'n' as u8, 'a' as u8, 't' as u8, 'e' as u8] {
        Some(SortOrder::Coordinate)
    } else {
        None
    }
}

pub open spec fn grouping_of(v: Seq<u8>) -> Option<AlignmentGrouping> {
    if v == seq!['n' as u8, 'o' as u8, 'n' as u8, 'e' as u8] {
        Some(AlignmentGrouping::NoGrouping)
    } else if v == seq!['q' as u8, 'u' as u8, 'e' as u8, 'r' as u8, 'y' as u8] {
        Some(AlignmentGrouping::Query)
    } else if v == seq!['r' as u8, 'e' as u8, 'f' as u8, 'e' as u8, 'r' as u8, 'e' as u8, 'n' as u8, 'c' as u8, 'e' as u8] {
        Some(AlignmentGrouping::Reference)
    } else {
        None
    }
}

/// A sort order value at `p`.
pub open spec fn sort_order_at(s: Seq<u8>, p: int) -> Result<SortOrder, ParseError> {
    match value_at(s, p) {
        Ok(w) => match sort_order_of(w) {
            Some(x) => Ok(x),
            None => Err(ParseError::UnknownValue),
        },
        Err(e) => Err(e),
    }
}

/// A grouping value at `p`.
pub open spec fn grouping_at(s: Seq<u8>, p: int) -> Result<AlignmentGrouping, ParseError> {
    match value_at(s, p) {
        Ok(w) => match grouping_of(w) {
            Some(x) => Ok(x),
            None => Err(ParseError::UnknownValue),
        },
        Err(e) => Err(e),
    }
}

/// One field of an `@HD` line whose value starts at `q`: the slots after it,
/// and the number of value bytes it took.
pub open spec fn meta_field(s: Seq<u8>, q: int, tag: Seq<u8>, acc: MetaFields) -> Result<(MetaFields, nat), ParseError> {
    if tag == tag_of('V', 'N') {
        match version_at(s, q) {
            Ok((v, n)) => if acc.version is Some {
                Err(ParseError::RepeatTag)
            } else {
                Ok((MetaFields { version: Some(v), ..acc }, n))
            },
            Err(e) => Err(e),
        }
    } else if tag == tag_of('S', 'O') {
        match fill(acc.sort_order, sort_order_at(s, q)) {
            Ok(o) => Ok((MetaFields { sort_order: Some(o), ..acc }, run_len(s, q, TAB))),
            Err(e) => Err(e),
        }
    } else if tag == tag_of('G', 'O') {
        match fill(acc.grouping, grouping_at(s, q)) {
            Ok(g) => Ok((MetaFields { grouping: Some(g), ..acc }, run_len(s, q, TAB))),
            Err(e) => Err(e),
        }
    } else if tag == tag_of('S', 'S') {
        match fill(acc.sub_sorting, text_at(s, q)) {
            Ok(t) => Ok((MetaFields { sub_sorting: Some(t), ..acc }, run_len(s, q, TAB))),
            Err(e) => Err(e),
        }
    } else {
        Err(ParseError::UnknownTag)
    }
}

/// The fields of an `@HD` line from `p` to its end, read into `acc`.
pub open spec fn meta_fields(s: Seq<u8>, p: int, acc: MetaFields) -> Result<MetaFields, ParseError>
    decreases left(s, p),
{
    if p >= s.len() {
        Ok(acc)
    } else {
        match field_head(s, p) {
            Ok(tag) => match meta_field(s, p + 4, tag, acc) {
                Ok((next, n)) => meta_fields(s, p + 4 + n, next),
                Err(e) => Err(e),
            },
            Err(e) => Err(e),
        }
    }
}

pub open spec fn no_meta_fields() -> MetaFields {
    MetaFields { version: None, sort_order: None, grouping: None, sub_sorting: None }
}

/// An `@HD` line whose fields start at `p`; `VN` is mandatory.
pub open spec fn meta_at(s: Seq<u8>, p: int) -> Result<MetaFields, ParseError> {
    match meta_fields(s, p, no_meta_fields()) {
        Ok(f) => if f.version is None { Err(ParseError::MissingVersion) } else { Ok(f) },
        Err(e) => Err(e),
    }
}

/// Digits, a dot and digits read as exactly the numbers that the two digit
/// runs write, whatever non-digit follows.
pub proof fn lemma_version_reads_digits(s: Seq<u8>, p: int, dot: int, end: int)
    requires
        all_digits(s, p, dot),
        s[dot] == DOT,
        all_digits(s, dot + 1, end),
        end == s.len() || !is_digit(s[end]),
        digits_value(s, p, dot) <= u64::MAX,
        digits_value(s, dot + 1, end) <= u64::MAX,
    ensures
        version_at(s, p) == Ok::<(Version, nat), ParseError>((
            Version {
                major: digits_value(s, p, dot) as u64,
                minor: digits_value(s, dot + 1, end) as u64,
            },
            (end - p) as nat,
        )),
{
    lemma_digit_run(s, p, dot);
    lemma_digit_run(s, dot + 1, end);
}

/// A version fails only with `BadVersion`, and does so where it is empty, has
/// no digits before its dot, or no dot.
pub proof fn lemma_version_malformed(s: Seq<u8>, p: int)
    ensures
        version_at(s, p) matches Err(e) ==> e == ParseError::BadVersion,
        p >= s.len() || !is_digit(s[p]) ==> version_at(s, p) == Err::<(Version, nat), ParseError>(ParseError::BadVersion),
        s.len() == p + digit_run(s, p) ==> version_at(s, p) == Err::<(Version, nat), ParseError>(ParseError::BadVersion),
{
}

/// End of the run of digits that starts at `p`.
fn digit_end(s: &[u8], p: usize) -> (r: usize)
    requires
        p <= s@.len(),
    ensures
        r == p + digit_run(s@, p as int),
        r <= s@.len(),
        forall|k: int| p <= k < r ==> is_digit(s@[k]),
{
    let mut i: usize = p;
    while i < s.len() && s[i] >= 48 && s[i] <= 57
        invariant
            p <= i <= s@.len(),
            forall|k: int| p <= k < i ==> is_digit(s@[k]),
        decreases s@.len() - i,
    {
        i = i + 1;
    }
    proof {
        lemma_digit_run(s@, p as int, i as int);
    }
    i
}

/// Reads `<digits>.<digits>` at the cursor, consuming only what matched.
pub fn parse_version(s: &[u8], pos: &mut usize) -> (r: Result<Version, ParseError>)
    requires
        *old(pos) <= s@.len(),
    ensures
        r matches Ok(v) ==> *old(pos) <= *final(pos) && version_at(s@, *old(pos) as int) == Ok::<(Version, nat), ParseError>((v, (*final(pos) - *old(pos)) as nat)),
        r matches Err(e) ==> version_at(s@, *old(pos) as int) == Err::<(Version, nat), ParseError>(e),
        *final(pos) <= s@.len(),
{
    let start = *pos;
    let dot = digit_end(s, start);
    if dot == start || dot >= s.len() || s[dot] != DOT {
        return Err(ParseError::BadVersion);
    }
    let end = digit_end(s, dot + 1);
    if end == dot + 1 {
        return Err(ParseError::BadVersion);
    }
    assert(all_digits(s@, start as int, dot as int));
    assert(all_digits(s@, dot + 1, end as int));
    let major = match digits_at_most(s, start, dot, u64::MAX) {
        Some(n) => n,
        None => return Err(ParseError::BadVersion),
    };
    let minor = match digits_at_most(s, dot + 1, end, u64::MAX) {
        Some(n) => n,
        None => return Err(ParseError::BadVersion),
    };
    *pos = end;
    Ok(Version { major, minor })
}

/// Reads a sort order: `unknown`, `unsorted`, `queryname` or `coordinate`.
pub fn parse_sort_order(s: &[u8], pos: &mut usize) -> (r: Result<SortOrder, ParseError>)
    requires
        *old(pos) <= s@.len(),
    ensures
        r == sort_order_at(s@, *old(pos) as int),
        *final(pos) == *old(pos) + run_len(s@, *old(pos) as int, TAB),
        *final(pos) <= s@.len(),
{
    let v = parse_value(s, pos)?;
    if same_bytes(v, &['u' as u8, 'n' as u8, 'k' as u8, 'n' as u8, 'o' as u8, 'w' as u8, 'n' as u8]) {
        Ok(SortOrder::Unknown)
    } else if same_bytes(v, &['u' as u8, 'n' as u8, 's' as u8, 'o' as u8, 'r' as u8, 't' as u8, 'e' as u8, 'd' as u8]) {
        Ok(SortOrder::Unsorted)
    } else if same_bytes(v, &['q' as u8, 'u' as u8, 'e' as u8, 'r' as u8, 'y' as u8, 'n' as u8, 'a' as u8, 'm' as u8, 'e' as u8]) {
        Ok(SortOrder::QueryName)
    } else if same_bytes(v, &['c' as u8, 'o' as u8, 'o' as u8, 'r' as u8, 'd' as u8, 'i' as u8, 'n' as u8, 'a' as u8, 't' as u8, 'e' as u8]) {
        Ok(SortOrder::Coordinate)
    } else {
        Err(ParseError::UnknownValue)
    }
}

/// Reads a grouping: `none`, `query` or `reference`.
pub fn parse_grouping(s: &[u8], pos: &mut usize) -> (r: Result<AlignmentGrouping, ParseError>)
    requires
        *old(pos) <= s@.len(),
    ensures
        r == grouping_at(s@, *old(pos) as int),
        *final(pos) == *old(pos) + run_len(s@, *old(pos) as int, TAB),
        *final(pos) <= s@.len(),
{
    let v = parse_value(s, pos)?;
    if same_bytes(v, &['n' as u8, 'o' as u8, 'n' as u8, 'e' as u8]) {
        Ok(AlignmentGrouping::NoGrouping)
    } else if same_bytes(v, &['q' as u8, 'u' as u8, 'e' as u8, 'r' as u8, 'y' as u8]) {
        Ok(AlignmentGrouping::Query)
    } else if same_bytes(v, &['r' as u8, 'e' as u8, 'f' as u8, 'e' as u8, 'r' as u8, 'e' as u8, 'n' as u8, 'c' as u8, 'e' as u8]) {
        Ok(AlignmentGrouping::Reference)
    } else {
        Err(ParseError::UnknownValue)
    }
}

/// Reads the sub-sorting token, kept as text.
pub fn parse_sub_sorting(s: &[u8], pos: &mut usize) -> (r: Result<String, ParseError>)
    requires
        *old(pos) <= s@.len(),
    ensures
        r matches Ok(t) ==> text_at(s@, *old(pos) as int) == Ok::<Seq<char>, ParseError>(t@),
        r matches Err(e) ==> text_at(s@, *old(pos) as int) == Err::<Seq<char>, ParseError>(e),
        *final(pos) == *old(pos) + run_len(s@, *old(pos) as int, TAB),
        *final(pos) <= s@.len(),
{
    parse_str(s, pos)
}

/// Parses the fields of an `@HD` line, from the cursor to the line's end.
pub fn parse_meta(s: &[u8], pos: &mut usize) -> (r: Result<HeaderMeta, ParseError>)
    requires
        *old(pos) <= s@.len(),
    ensures
        r matches Ok(m) ==> meta_at(s@, *old(pos) as int) == Ok::<MetaFields, ParseError>(m@),
        r matches Err(e) ==> meta_at(s@, *old(pos) as int) == Err::<MetaFields, ParseError>(e),
{
    let ghost start = *pos;
    let mut version: Option<Version> = None;
    let mut sort_order: Option<SortOrder> = None;
    let mut grouping: Option<AlignmentGrouping> = None;
    let mut sub_sorting: Option<String> = None;
    while *pos < s.len()
        invariant
            *pos <= s@.len(),
            start == *old(pos),
            meta_fields(s@, start as int, no_meta_fields()) == meta_fields(
                s@,
                *pos as int,
                (MetaFields { version, sort_order, grouping, sub_sorting: opt_text(sub_sorting) }),
            ),
        decreases s@.len() - *pos,
    {
        let tag = parse_field_head(s, pos)?;
        if is_tag(tag, 'V', 'N') {
            let v = parse_version(s, pos)?;
            try_insert_once(&mut version, v)?;
        } else if is_tag(tag, 'S', 'O') {
            let o = parse_sort_order(s, pos)?;
            try_insert_once(&mut sort_order, o)?;
        } else if is_tag(tag, 'G', 'O') {
            let g = parse_grouping(s, pos)?;
            try_insert_once(&mut grouping, g)?;
        } else if is_tag(tag, 'S', 'S') {
            let t = parse_sub_sorting(s, pos)?;
            try_insert_once(&mut sub_sorting, t)?;
        } else {
            return Err(ParseError::UnknownTag);
        }
    }
    match version {
        Some(format_version) => Ok(HeaderMeta {
            format_version,
            alignment_sort_order: sort_order,
            alignment_grouping: grouping,
            alignment_sub_sorting: sub_sorting,
        }),
        None => Err(ParseError::MissingVersion),
    }
}

} // verus!
