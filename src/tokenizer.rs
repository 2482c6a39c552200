//! A cursor over one line's bytes: prefixes, delimiters, tags, separators and values.
use vstd::prelude::*;

use crate::error::ParseError;
use crate::text::{decode_text, lemma_run_len, run_len, text_of, COLON, AT, TAB};

verus! {

/// The bytes of the value that starts at `p`: up to the next tab or the end.
pub open spec fn value_span(s: Seq<u8>, p: int) -> Seq<u8> {
    s.subrange(p, p + run_len(s, p, TAB))
}

/// A value starting at `p`, which must not be empty.
pub open spec fn value_at(s: Seq<u8>, p: int) -> Result<Seq<u8>, ParseError> {
    if run_len(s, p, TAB) == 0 {
        Err(ParseError::MissingValue)
    } else {
        Ok(value_span(s, p))
    }
}

/// A non-empty value starting at `p`, read as text.
pub open spec fn text_at(s: Seq<u8>, p: int) -> Result<Seq<char>, ParseError> {
    match value_at(s, p) {
        Ok(v) => text_of(v),
        Err(e) => Err(e),
    }
}

/// The start of a field at `p`: a tab, a two-byte tag and a `:`. On success
/// the tag is returned, and the value starts at `p + 4`.
pub open spec fn field_head(s: Seq<u8>, p: int) -> Result<Seq<u8>, ParseError> {
    if p >= s.len() || s[p] != TAB {
        Err(ParseError::MissingFieldDelimiter)
    } else if p + 3 > s.len() {
        Err(ParseError::MissingFieldTag)
    } else if p + 3 >= s.len() || s[p + 3] != COLON {
        Err(ParseError::MissingKeyValueSeparator)
    } else {
        Ok(s.subrange(p + 1, p + 3))
    }
}

/// Consumes the `@` that opens a header line.
pub fn eat_prefix(s: &[u8], pos: &mut usize) -> (r: Result<(), ParseError>)
    requires
        *old(pos) <= s@.len(),
    ensures
        r is Ok <==> *old(pos) < s@.len() && s@[*old(pos) as int] == AT,
        r is Ok ==> *final(pos) == *old(pos) + 1,
        r is Err ==> r == Err::<(), ParseError>(ParseError::MissingPrefix) && *final(pos) == *old(pos),
{
    if *pos < s.len() && s[*pos] == AT {
        *pos = *pos + 1;
        Ok(())
    } else {
        Err(ParseError::MissingPrefix)
    }
}

/// Consumes the tab that opens a field.
pub fn eat_field_delimiter(s: &[u8], pos: &mut usize) -> (r: Result<(), ParseError>)
    requires
        *old(pos) <= s@.len(),
    ensures
        r is Ok <==> *old(pos) < s@.len() && s@[*old(pos) as int] == TAB,
        r is Ok ==> *final(pos) == *old(pos) + 1,
        r is Err ==> r == Err::<(), ParseError>(ParseError::MissingFieldDelimiter) && *final(pos) == *old(pos),
{
    if *pos < s.len() && s[*pos] == TAB {
        *pos = *pos + 1;
        Ok(())
    } else {
        Err(ParseError::MissingFieldDelimiter)
    }
}

/// Consumes the `:` between a tag and its value.
pub fn eat_kv_separator(s: &[u8], pos: &mut usize) -> (r: Result<(), ParseError>)
    requires
        *old(pos) <= s@.len(),
    ensures
        r is Ok <==> *old(pos) < s@.len() && s@[*old(pos) as int] == COLON,
        r is Ok ==> *final(pos) == *old(pos) + 1,
        r is Err ==> r == Err::<(), ParseError>(ParseError::MissingKeyValueSeparator) && *final(pos) == *old(pos),
{
    if *pos < s.len() && s[*pos] == COLON {
        *pos = *pos + 1;
        Ok(())
    } else {
        Err(ParseError::MissingKeyValueSeparator)
    }
}

/// Takes the next two bytes as a tag.
pub fn parse_tag<'a>(s: &'a [u8], pos: &mut usize) -> (r: Result<&'a [u8], ParseError>)
    requires
        *old(pos) <= s@.len(),
    ensures
        r is Ok <==> *old(pos) + 2 <= s@.len(),
        r matches Ok(t) ==> t@ == s@.subrange(*old(pos) as int, *old(pos) + 2) && *final(pos) == *old(pos) + 2,
        r is Err ==> r == Err::<&[u8], ParseError>(ParseError::MissingFieldTag) && *final(pos) == *old(pos),
{
    if s.len() - *pos < 2 {
        return Err(ParseError::MissingFieldTag);
    }
    let start = *pos;
    *pos = start + 2;
    Ok(&s[start..start + 2])
}

/// Consumes a field's start (tab, tag, `:`) and returns the tag.
pub fn parse_field_head<'a>(s: &'a [u8], pos: &mut usize) -> (r: Result<&'a [u8], ParseError>)
    requires
        *old(pos) <= s@.len(),
    ensures
        r matches Ok(t) ==> field_head(s@, *old(pos) as int) == Ok::<Seq<u8>, ParseError>(t@)
            && *final(pos) == *old(pos) + 4 && *final(pos) <= s@.len(),
        r matches Err(e) ==> field_head(s@, *old(pos) as int) == Err::<Seq<u8>, ParseError>(e),
{
    eat_field_delimiter(s, pos)?;
    let tag = parse_tag(s, pos)?;
    eat_kv_separator(s, pos)?;
    Ok(tag)
}

/// Position of the first `b` at or after `p`, or the end of `s`.
pub fn find_byte(s: &[u8], p: usize, b: u8) -> (r: usize)
    requires
        p <= s@.len(),
    ensures
        r == p + run_len(s@, p as int, b),
        r <= s@.len(),
{
    let mut i: usize = p;
    while i < s.len() && s[i] != b
        invariant
            p <= i <= s@.len(),
            forall|k: int| p <= k < i ==> s@[k] != b,
        decreases s@.len() - i,
    {
        i = i + 1;
    }
    proof {
        lemma_run_len(s@, p as int, i as int, b);
    }
    i
}

/// Takes the value that starts at the cursor, up to the next tab or the end.
pub fn parse_value<'a>(s: &'a [u8], pos: &mut usize) -> (r: Result<&'a [u8], ParseError>)
    requires
        *old(pos) <= s@.len(),
    ensures
        r matches Ok(v) ==> value_at(s@, *old(pos) as int) == Ok::<Seq<u8>, ParseError>(v@),
        r matches Err(e) ==> value_at(s@, *old(pos) as int) == Err::<Seq<u8>, ParseError>(e),
        *final(pos) == *old(pos) + run_len(s@, *old(pos) as int, TAB),
        *final(pos) <= s@.len(),
{
    let start = *pos;
    let end = find_byte(s, start, TAB);
    *pos = end;
    if end == start {
        Err(ParseError::MissingValue)
    } else {
        Ok(&s[start..end])
    }
}

/// Takes the value that starts at the cursor and decodes it as text.
pub fn parse_str(s: &[u8], pos: &mut usize) -> (r: Result<String, ParseError>)
    requires
        *old(pos) <= s@.len(),
    ensures
        r matches Ok(t) ==> text_at(s@, *old(pos) as int) == Ok::<Seq<char>, ParseError>(t@),
        r matches Err(e) ==> text_at(s@, *old(pos) as int) == Err::<Seq<char>, ParseError>(e),
        *final(pos) == *old(pos) + run_len(s@, *old(pos) as int, TAB),
        *final(pos) <= s@.len(),
{
    let value = parse_value(s, pos)?;
    decode_text(value)
}

} // verus!
