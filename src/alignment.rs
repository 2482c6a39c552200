//! Alignment lines: eleven positional fields, and the flag's bits.
use vstd::prelude::*;
use vstd::string::StringSliceAdditionalSpecFns;
use vstd::utf8::{decode_utf8, decode_utf8_encode_utf8, encode_utf8, valid_utf8};

use crate::error::ParseError;
use crate::records::left;
use crate::text::{
    at_most, decode_text, lemma_run_len, parse_i32, parse_unsigned, run_len, signed_text, unsigned_text,
    CARRIAGE_RETURN, NEWLINE, TAB,
};
use crate::reader::line_end;
use crate::tokenizer::find_byte;

verus! {

broadcast use decode_utf8_encode_utf8;

/// The flag of an alignment: sixteen independent bits.
#[derive(Clone, Copy, Debug, PartialEq, Eq, Structural)]
pub struct Flag(pub u16);

/// Whether any bit of `mask` is set in `flag`.
pub open spec fn has_bits(flag: u16, mask: u16) -> bool {
    flag & mask != 0
}

impl Flag {
    /// The template has several segments.
    pub fn has_multiple_segments(&self) -> (r: bool)
        ensures
            r == has_bits(self.0, 0x1),
    {
        self.0 & 0x1 != 0
    }

    /// Each segment is properly aligned.
    pub fn each_seg_aligned(&self) -> (r: bool)
        ensures
            r == has_bits(self.0, 0x2),
    {
        self.0 & 0x2 != 0
    }

    /// This segment is unmapped.
    pub fn is_unmapped(&self) -> (r: bool)
        ensures
            r == has_bits(self.0, 0x4),
    {
        self.0 & 0x4 != 0
    }

    /// The next segment is unmapped.
    pub fn next_is_unmapped(&self) -> (r: bool)
        ensures
            r == has_bits(self.0, 0x8),
    {
        self.0 & 0x8 != 0
    }

    /// The sequence is reverse complemented.
    pub fn is_reverse_complement(&self) -> (r: bool)
        ensures
            r == has_bits(self.0, 0x10),
    {
        self.0 & 0x10 != 0
    }

    /// The next segment's sequence is reverse complemented.
    pub fn next_is_reverse_complement(&self) -> (r: bool)
        ensures
            r == has_bits(self.0, 0x20),
    {
        self.0 & 0x20 != 0
    }

    /// This is the first segment of the template.
    pub fn is_first_segment(&self) -> (r: bool)
        ensures
            r == has_bits(self.0, 0x40),
    {
        self.0 & 0x40 != 0
    }

    /// This is the last segment of the template.
    pub fn is_last_segment(&self) -> (r: bool)
        ensures
            r == has_bits(self.0, 0x80),
    {
        self.0 & 0x80 != 0
    }

    /// This is a secondary alignment.
    pub fn is_secondary_alignment(&self) -> (r: bool)
        ensures
            r == has_bits(self.0, 0x100),
    {
        self.0 & 0x100 != 0
    }

    /// The read fails quality or vendor checks.
    pub fn not_passing_filters(&self) -> (r: bool)
        ensures
            r == has_bits(self.0, 0x200),
    {
        self.0 & 0x200 != 0
    }

    /// The read is a PCR or optical duplicate.
    pub fn is_duplicate(&self) -> (r: bool)
        ensures
            r == has_bits(self.0, 0x400),
    {
        self.0 & 0x400 != 0
    }

    /// This is a supplementary alignment.
    pub fn is_supplementary_alignment(&self) -> (r: bool)
        ensures
            r == has_bits(self.0, 0x800),
    {
        self.0 & 0x800 != 0
    }

    /// Neither secondary nor supplementary.
    pub fn is_primary_line(&self) -> (r: bool)
        ensures
            r == !has_bits(self.0, 0x900),
    {
        self.0 & 0x900 == 0
    }
}

/// An alignment line as read.
pub ghost struct AlignmentFields {
    pub query_name: Seq<char>,
    pub flag: Flag,
    pub ref_seq_name: Seq<char>,
    pub pos: u32,
    pub map_quality: u8,
    pub cigar: Seq<char>,
    pub rnext: Seq<char>,
    pub pnext: u32,
    pub template_len: i32,
    pub sequence: Seq<char>,
    pub phred_quality: Seq<char>,
}

/// One alignment line.
#[derive(Debug)]
pub struct Alignment {
    pub query_name: String,
    pub flag: Flag,
    pub ref_seq_name: String,
    pub pos: u32,
    pub map_quality: u8,
    pub cigar: String,
    pub rnext: String,
    pub pnext: u32,
    pub template_len: i32,
    pub sequence: String,
    pub phred_quality: String,
}

impl View for Alignment {
    type V = AlignmentFields;

    open spec fn view(&self) -> AlignmentFields {
        AlignmentFields {
            query_name: self.query_name@,
            flag: self.flag,
            ref_seq_name: self.ref_seq_name@,
            pos: self.pos,
            map_quality: self.map_quality,
            cigar: self.cigar@,
            rnext: self.rnext@,
            pnext: self.pnext,
            template_len: self.template_len,
            sequence: self.sequence@,
            phred_quality: self.phred_quality@,
        }
    }
}

/// Where the field after the one that starts at `p` starts, if there is one.
pub open spec fn next_start(s: Seq<u8>, p: int) -> Option<int> {
    let e = p + run_len(s, p, TAB);
    if e < s.len() {
        Some(e + 1)
    } else {
        None
    }
}

/// Where the `k`-th tab-separated field of a line starts, if the line has it.
pub open spec fn field_start(s: Seq<u8>, k: nat) -> Option<int>
    decreases k,
{
    if k == 0 {
        Some(0)
    } else {
        match field_start(s, (k - 1) as nat) {
            Some(p) => next_start(s, p),
            None => None,
        }
    }
}

/// The bytes of the field that starts at `p`.
pub open spec fn field_bytes(s: Seq<u8>, p: int) -> Seq<u8> {
    s.subrange(p, p + run_len(s, p, TAB))
}

/// The bytes of the `k`-th field (empty where the line has no such field).
pub open spec fn field(s: Seq<u8>, k: nat) -> Seq<u8> {
    match field_start(s, k) {
        Some(p) => field_bytes(s, p),
        None => seq![],
    }
}

/// How a positional field is typed.
pub ghost enum FieldKind {
    Text,
    Unsigned(nat),
    SignedI32,
}

pub open spec fn field_kind(k: nat) -> FieldKind {
    if k == 1 {
        FieldKind::Unsigned(0xffff)
    } else if k == 3 {
        FieldKind::Unsigned(0xffff_ffff)
    } else if k == 4 {
        FieldKind::Unsigned(0xff)
    } else if k == 7 {
        FieldKind::Unsigned(0xffff_ffff)
    } else if k == 8 {
        FieldKind::SignedI32
    } else {
        FieldKind::Text
    }
}

/// Whether text `b` reads as a value of the given kind.
pub open spec fn kind_ok(b: Seq<u8>, kind: FieldKind) -> bool {
    match kind {
        FieldKind::Text => true,
        FieldKind::Unsigned(max) => at_most(unsigned_text(b), max) is Some,
        FieldKind::SignedI32 => signed_text(b) matches Some(n) && i32::MIN <= n <= i32::MAX,
    }
}

/// What is wrong with a field that starts at `c`, if anything: it is
/// missing, it is not text, or it does not read as its kind of number.
pub open spec fn field_check(s: Seq<u8>, c: Option<int>, kind: FieldKind) -> Option<ParseError> {
    match c {
        None => Some(ParseError::MissingAlignmentField),
        Some(p) => if !valid_utf8(field_bytes(s, p)) {
            Some(ParseError::InvalidEncoding)
        } else if !kind_ok(field_bytes(s, p), kind) {
            Some(ParseError::UnknownValue)
        } else {
            None
        },
    }
}

/// The first thing wrong with positional fields `k` to the eleventh.
pub open spec fn first_error(s: Seq<u8>, k: nat) -> Option<ParseError>
    decreases 11 - k,
{
    if k >= 11 {
        None
    } else {
        match field_check(s, field_start(s, k), field_kind(k)) {
            Some(e) => Some(e),
            None => first_error(s, k + 1),
        }
    }
}

/// The fields from `p` on, past the eleventh, are all text.
pub open spec fn tail_ok(s: Seq<u8>, p: int) -> bool
    decreases left(s, p),
{
    let e = p + run_len(s, p, TAB);
    valid_utf8(s.subrange(p, e)) && (e < s.len() ==> tail_ok(s, e + 1))
}

pub open spec fn unsigned_value(b: Seq<u8>) -> nat {
    match unsigned_text(b) {
        Some(n) => n,
        None => 0,
    }
}

pub open spec fn signed_value(b: Seq<u8>) -> int {
    match signed_text(b) {
        Some(n) => n,
        None => 0,
    }
}

/// What an alignment line holds. Fields past the eleventh must be text and
/// are not kept.
pub open spec fn alignment_at(s: Seq<u8>) -> Result<AlignmentFields, ParseError> {
    match first_error(s, 0) {
        Some(e) => Err(e),
        None => if field_start(s, 11) matches Some(p) && !tail_ok(s, p) {
            Err(ParseError::InvalidEncoding)
        } else {
            Ok(AlignmentFields {
            query_name: decode_utf8(field(s, 0)),
            flag: Flag(unsigned_value(field(s, 1)) as u16),
            ref_seq_name: decode_utf8(field(s, 2)),
            pos: unsigned_value(field(s, 3)) as u32,
            map_quality: unsigned_value(field(s, 4)) as u8,
            cigar: decode_utf8(field(s, 5)),
            rnext: decode_utf8(field(s, 6)),
            pnext: unsigned_value(field(s, 7)) as u32,
            template_len: signed_value(field(s, 8)) as i32,
            sequence: decode_utf8(field(s, 9)),
            phred_quality: decode_utf8(field(s, 10)),
            })
        },
    }
}

/// Takes the bytes of the field at the cursor, and moves the cursor to the
/// next field, if any.
fn next_field<'a>(s: &'a [u8], cur: &mut Option<usize>) -> (r: Result<&'a [u8], ParseError>)
    requires
        *old(cur) matches Some(p) ==> p <= s@.len(),
    ensures
        *old(cur) is None ==> r == Err::<&[u8], ParseError>(ParseError::MissingAlignmentField),
        *old(cur) matches Some(p) ==> r matches Ok(b) && b@ == field_bytes(s@, p as int)
            && opt_int(*final(cur)) == next_start(s@, p as int),
        *final(cur) matches Some(q) ==> q <= s@.len(),
{
    match *cur {
        None => Err(ParseError::MissingAlignmentField),
        Some(p) => {
            let e = find_byte(s, p, TAB);
            *cur = if e < s.len() {
                Some(e + 1)
            } else {
                None
            };
            Ok(&s[p..e])
        },
    }
}

pub open spec fn opt_int(c: Option<usize>) -> Option<int> {
    match c {
        Some(p) => Some(p as int),
        None => None,
    }
}

/// Takes a text field.
fn take_text(s: &[u8], cur: &mut Option<usize>) -> (r: Result<String, ParseError>)
    requires
        *old(cur) matches Some(p) ==> p <= s@.len(),
    ensures
        r matches Err(e) ==> field_check(s@, opt_int(*old(cur)), FieldKind::Text) == Some(e),
        r matches Ok(t) ==> field_check(s@, opt_int(*old(cur)), FieldKind::Text) is None
            && *old(cur) is Some
            && t@ == decode_utf8(field_bytes(s@, opt_int(*old(cur))->Some_0))
            && opt_int(*final(cur)) == next_start(s@, opt_int(*old(cur))->Some_0),
        *final(cur) matches Some(q) ==> q <= s@.len(),
{
    let b = next_field(s, cur)?;
    decode_text(b)
}

/// Takes an unsigned field no larger than `max`.
fn take_unsigned(s: &[u8], cur: &mut Option<usize>, max: u64) -> (r: Result<u64, ParseError>)
    requires
        *old(cur) matches Some(p) ==> p <= s@.len(),
    ensures
        r matches Err(e) ==> field_check(s@, opt_int(*old(cur)), FieldKind::Unsigned(max as nat)) == Some(e),
        r matches Ok(n) ==> field_check(s@, opt_int(*old(cur)), FieldKind::Unsigned(max as nat)) is None
            && *old(cur) is Some
            && n == unsigned_value(field_bytes(s@, opt_int(*old(cur))->Some_0))
            && opt_int(*final(cur)) == next_start(s@, opt_int(*old(cur))->Some_0),
        *final(cur) matches Some(q) ==> q <= s@.len(),
{
    let b = next_field(s, cur)?;
    let _ = decode_text(b)?;
    match parse_unsigned(b, max) {
        Some(n) => Ok(n),
        None => Err(ParseError::UnknownValue),
    }
}

/// Takes a signed 32-bit field.
fn take_i32(s: &[u8], cur: &mut Option<usize>) -> (r: Result<i32, ParseError>)
    requires
        *old(cur) matches Some(p) ==> p <= s@.len(),
    ensures
        r matches Err(e) ==> field_check(s@, opt_int(*old(cur)), FieldKind::SignedI32) == Some(e),
        r matches Ok(n) ==> field_check(s@, opt_int(*old(cur)), FieldKind::SignedI32) is None
            && *old(cur) is Some
            && n == signed_value(field_bytes(s@, opt_int(*old(cur))->Some_0))
            && opt_int(*final(cur)) == next_start(s@, opt_int(*old(cur))->Some_0),
        *final(cur) matches Some(q) ==> q <= s@.len(),
{
    let b = next_field(s, cur)?;
    let _ = decode_text(b)?;
    match parse_i32(b) {
        Some(n) => Ok(n),
        None => Err(ParseError::UnknownValue),
    }
}

/// Parses one alignment line (without its line ending).
pub fn parse_alignment(s: &[u8]) -> (r: Result<Alignment, ParseError>)
    ensures
        r matches Ok(a) ==> alignment_at(s@) == Ok::<AlignmentFields, ParseError>(a@),
        r matches Err(e) ==> alignment_at(s@) == Err::<AlignmentFields, ParseError>(e),
{
    let mut cur: Option<usize> = Some(0);
    assert(opt_int(cur) == field_start(s@, 0));
    let query_name = take_text(s, &mut cur)?;
    assert(opt_int(cur) == field_start(s@, 1) && first_error(s@, 0) == first_error(s@, 1));
    let flag = Flag(take_unsigned(s, &mut cur, 0xffff)? as u16);
    assert(opt_int(cur) == field_start(s@, 2) && first_error(s@, 0) == first_error(s@, 2));
    let ref_seq_name = take_text(s, &mut cur)?;
    assert(opt_int(cur) == field_start(s@, 3) && first_error(s@, 0) == first_error(s@, 3));
    let pos = take_unsigned(s, &mut cur, 0xffff_ffff)? as u32;
    assert(opt_int(cur) == field_start(s@, 4) && first_error(s@, 0) == first_error(s@, 4));
    let map_quality = take_unsigned(s, &mut cur, 0xff)? as u8;
    assert(opt_int(cur) == field_start(s@, 5) && first_error(s@, 0) == first_error(s@, 5));
    let cigar = take_text(s, &mut cur)?;
    assert(opt_int(cur) == field_start(s@, 6) && first_error(s@, 0) == first_error(s@, 6));
    let rnext = take_text(s, &mut cur)?;
    assert(opt_int(cur) == field_start(s@, 7) && first_error(s@, 0) == first_error(s@, 7));
    let pnext = take_unsigned(s, &mut cur, 0xffff_ffff)? as u32;
    assert(opt_int(cur) == field_start(s@, 8) && first_error(s@, 0) == first_error(s@, 8));
    let template_len = take_i32(s, &mut cur)?;
    assert(opt_int(cur) == field_start(s@, 9) && first_error(s@, 0) == first_error(s@, 9));
    let sequence = take_text(s, &mut cur)?;
    assert(opt_int(cur) == field_start(s@, 10) && first_error(s@, 0) == first_error(s@, 10));
    let phred_quality = take_text(s, &mut cur)?;
    assert(opt_int(cur) == field_start(s@, 11) && first_error(s@, 0) == first_error(s@, 11));
    let ghost tail_start = opt_int(cur);
    while cur.is_some()
        invariant
            cur matches Some(q) ==> q <= s@.len(),
            tail_start matches Some(p0) ==> (tail_ok(s@, p0) <==> (opt_int(cur) matches Some(q) ==> tail_ok(s@, q))),
            tail_start == field_start(s@, 11),
            tail_start is None ==> cur is None,
            first_error(s@, 0) is None,
        decreases (match cur { Some(q) => s@.len() + 1 - q, None => 0 }),
    {
        let ghost q = opt_int(cur)->Some_0;
        let b = next_field(s, &mut cur)?;
        if let Err(e) = decode_text(b) {
            assert(!tail_ok(s@, q));
            return Err(e);
        }
    }
    Ok(Alignment {
        query_name,
        flag,
        ref_seq_name,
        pos,
        map_quality,
        cigar,
        rnext,
        pnext,
        template_len,
        sequence,
        phred_quality,
    })
}

/// The fields `f` written one after another, with a tab between each two.
pub open spec fn join_fields(f: Seq<Seq<u8>>) -> Seq<u8>
    decreases f.len(),
{
    if f.len() == 0 {
        seq![]
    } else if f.len() == 1 {
        f[0]
    } else {
        f[0] + seq![TAB] + join_fields(f.drop_first())
    }
}

/// Where field `k` starts in `join_fields(f)`.
pub open spec fn field_offset(f: Seq<Seq<u8>>, k: nat) -> int
    decreases k,
{
    if k == 0 || f.len() == 0 {
        0
    } else {
        f[0].len() + 1 + field_offset(f.drop_first(), (k - 1) as nat)
    }
}

pub open spec fn tab_free(f: Seq<Seq<u8>>) -> bool {
    forall|i: int, j: int| 0 <= i < f.len() && 0 <= j < f[i].len() ==> f[i][j] != TAB
}

proof fn lemma_join_layout(f: Seq<Seq<u8>>, k: nat)
    requires
        k < f.len(),
    ensures
        field_offset(f, k) >= 0,
        field_offset(f, k) + f[k as int].len() <= join_fields(f).len(),
        forall|j: int| 0 <= j < f[k as int].len() ==> join_fields(f)[field_offset(f, k) + j] == f[k as int][j],
        k + 1 < f.len() ==> field_offset(f, k) + f[k as int].len() < join_fields(f).len()
            && join_fields(f)[field_offset(f, k) + f[k as int].len()] == TAB
            && field_offset(f, k + 1) == field_offset(f, k) + f[k as int].len() + 1,
        k + 1 == f.len() ==> field_offset(f, k) + f[k as int].len() == join_fields(f).len(),
    decreases k,
{
    if f.len() > 1 {
        let rest = f.drop_first();
        let head = f[0] + seq![TAB];
        assert(join_fields(f) == head + join_fields(rest));
        if k == 0 {
            assert(field_offset(rest, 0) == 0);
            assert(head[f[0].len() as int] == TAB);
        } else {
            lemma_join_layout(rest, (k - 1) as nat);
            assert(rest[k - 1] == f[k as int]);
            if k + 1 < f.len() {
                assert(field_offset(f, k + 1) == f[0].len() + 1 + field_offset(rest, k as nat));
            }
        }
    }
}

proof fn lemma_field_at(f: Seq<Seq<u8>>, k: nat)
    requires
        k < f.len(),
        tab_free(f),
    ensures
        field_start(join_fields(f), k) == Some(field_offset(f, k)),
        field_bytes(join_fields(f), field_offset(f, k)) == f[k as int],
        field(join_fields(f), k) == f[k as int],
        next_start(join_fields(f), field_offset(f, k)) == (if k + 1 < f.len() {
            Some(field_offset(f, k + 1))
        } else {
            None::<int>
        }),
    decreases k,
{
    let s = join_fields(f);
    let off = field_offset(f, k);
    let n = f[k as int].len() as int;
    lemma_join_layout(f, k);
    assert forall|q: int| off <= q < off + n implies s[q] != TAB by {
        assert(s[off + (q - off)] == f[k as int][q - off]);
    }
    lemma_run_len(s, off, off + n, TAB);
    assert(field_bytes(s, off) =~= f[k as int]);
    if k > 0 {
        lemma_field_at(f, (k - 1) as nat);
        lemma_join_layout(f, (k - 1) as nat);
    }
}

proof fn lemma_no_error_from(f: Seq<Seq<u8>>, k: nat)
    requires
        f.len() == 11,
        tab_free(f),
        forall|i: int| 0 <= i < 11 ==> valid_utf8(#[trigger] f[i]) && kind_ok(f[i], field_kind(i as nat)),
    ensures
        first_error(join_fields(f), k) is None,
    decreases 11 - k,
{
    if k < 11 {
        lemma_field_at(f, k);
        assert(valid_utf8(f[k as int]));
        lemma_no_error_from(f, k + 1);
    }
}

/// Eleven tab-free fields, each text and each numeric one well formed,
/// joined by tabs, read back as exactly those fields: text byte for byte
/// and numbers by value.
pub proof fn lemma_eleven_fields_round_trip(f: Seq<Seq<u8>>)
    requires
        f.len() == 11,
        tab_free(f),
        forall|i: int| 0 <= i < 11 ==> valid_utf8(#[trigger] f[i]) && kind_ok(f[i], field_kind(i as nat)),
    ensures
        alignment_at(join_fields(f)) matches Ok(a) && encode_utf8(a.query_name) == f[0]
            && a.flag == Flag(unsigned_value(f[1]) as u16)
            && encode_utf8(a.ref_seq_name) == f[2]
            && a.pos == unsigned_value(f[3]) as u32
            && a.map_quality == unsigned_value(f[4]) as u8
            && encode_utf8(a.cigar) == f[5]
            && encode_utf8(a.rnext) == f[6]
            && a.pnext == unsigned_value(f[7]) as u32
            && a.template_len == signed_value(f[8]) as i32
            && encode_utf8(a.sequence) == f[9]
            && encode_utf8(a.phred_quality) == f[10],
{
    let s = join_fields(f);
    lemma_no_error_from(f, 0);
    lemma_field_at(f, 10);
    assert(field_start(s, 11) is None);
    lemma_field_at(f, 0);
    lemma_field_at(f, 1);
    lemma_field_at(f, 2);
    lemma_field_at(f, 3);
    lemma_field_at(f, 4);
    lemma_field_at(f, 5);
    lemma_field_at(f, 6);
    lemma_field_at(f, 7);
    lemma_field_at(f, 8);
    lemma_field_at(f, 9);
    assert(valid_utf8(f[0]) && valid_utf8(f[2]) && valid_utf8(f[5]) && valid_utf8(f[6]));
    assert(valid_utf8(f[9]) && valid_utf8(f[10]));
}

/// A line with fewer than eleven fields, whose fields that are there are
/// well formed, fails `MissingAlignmentField`.
pub proof fn lemma_too_few_fields(f: Seq<Seq<u8>>)
    requires
        1 <= f.len() < 11,
        tab_free(f),
        forall|i: int| 0 <= i < f.len() ==> valid_utf8(#[trigger] f[i]) && kind_ok(f[i], field_kind(i as nat)),
    ensures
        alignment_at(join_fields(f)) == Err::<AlignmentFields, ParseError>(ParseError::MissingAlignmentField),
{
    lemma_missing_from(f, 0);
}

proof fn lemma_missing_from(f: Seq<Seq<u8>>, k: nat)
    requires
        1 <= f.len() < 11,
        k <= f.len(),
        tab_free(f),
        forall|i: int| 0 <= i < f.len() ==> valid_utf8(#[trigger] f[i]) && kind_ok(f[i], field_kind(i as nat)),
    ensures
        first_error(join_fields(f), k) == Some(ParseError::MissingAlignmentField),
    decreases f.len() - k,
{
    let s = join_fields(f);
    if k < f.len() {
        lemma_field_at(f, k);
        assert(valid_utf8(f[k as int]));
        lemma_missing_from(f, k + 1);
    } else {
        lemma_field_at(f, (k - 1) as nat);
    }
}

/// The alignments that the lines from `p` on add to `acc`; the first line
/// that fails ends the whole with its error.
pub open spec fn alignments_from(s: Seq<u8>, p: int, acc: Seq<AlignmentFields>) -> Result<Seq<AlignmentFields>, ParseError>
    decreases left(s, p),
{
    if p < 0 || p >= s.len() {
        Ok(acc)
    } else {
        match alignment_at(s.subrange(p, line_end(s, p))) {
            Ok(a) => alignments_from(s, p + run_len(s, p, NEWLINE) + 1, acc.push(a)),
            Err(e) => Err(e),
        }
    }
}

/// The alignments that a whole alignment section holds, one per line.
pub open spec fn alignments_of(s: Seq<u8>) -> Result<Seq<AlignmentFields>, ParseError> {
    alignments_from(s, 0, seq![])
}

pub open spec fn views(v: Vec<Alignment>) -> Seq<AlignmentFields> {
    v@.map_values(|a: Alignment| a@)
}

/// Reads the alignment lines of a section from their bytes.
pub fn read_alignments(s: &[u8]) -> (r: Result<Vec<Alignment>, ParseError>)
    ensures
        r matches Ok(v) ==> alignments_of(s@) == Ok::<Seq<AlignmentFields>, ParseError>(views(v)),
        r matches Err(e) ==> alignments_of(s@) == Err::<Seq<AlignmentFields>, ParseError>(e),
{
    let mut out: Vec<Alignment> = Vec::new();
    let mut p: usize = 0;
    assert(views(out) =~= seq![]);
    while p < s.len()
        invariant
            p <= s@.len(),
            alignments_of(s@) == alignments_from(s@, p as int, views(out)),
        decreases s@.len() - p,
    {
        let nl = find_byte(s, p, NEWLINE);
        let end = if nl < s.len() && nl > p && s[nl - 1] == CARRIAGE_RETURN {
            nl - 1
        } else {
            nl
        };
        let a = parse_alignment(&s[p..end])?;
        let ghost before = views(out);
        out.push(a);
        assert(views(out) =~= before.push(a@));
        if nl >= s.len() {
            return Ok(out);
        }
        p = nl + 1;
    }
    Ok(out)
}

/// Reads the alignment lines of a section from its text.
pub fn parse_alignments(text: &str) -> (r: Result<Vec<Alignment>, ParseError>)
    ensures
        r matches Ok(v) ==> alignments_of(text.spec_bytes()) == Ok::<Seq<AlignmentFields>, ParseError>(views(v)),
        r matches Err(e) ==> alignments_of(text.spec_bytes()) == Err::<Seq<AlignmentFields>, ParseError>(e),
{
    read_alignments(text.as_bytes())
}

} // verus!
