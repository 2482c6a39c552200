//! The typed header: its records, and the whole header with unique keys.
use vstd::prelude::*;

use crate::error::ParseError;
use crate::records::{HeaderRow, RowFields};

verus! {

/// The `VN` value of an `@HD` line: `<major>.<minor>`.
#[derive(Clone, Copy, Debug, PartialEq, Eq, Structural)]
pub struct Version {
    pub major: u64,
    pub minor: u64,
}

/// The `SO` value of an `@HD` line.
#[derive(Clone, Copy, Debug, PartialEq, Eq, Structural)]
pub enum SortOrder {
    Unknown,
    Unsorted,
    QueryName,
    Coordinate,
}

/// The `GO` value of an `@HD` line.
#[derive(Clone, Copy, Debug, PartialEq, Eq, Structural)]
pub enum AlignmentGrouping {
    NoGrouping,
    Query,
    Reference,
}

/// The `TP` value of an `@SQ` line.
#[derive(Clone, Copy, Debug, PartialEq, Eq, Structural)]
pub enum Topology {
    Linear,
    Circular,
}

/// The `PL` value of an `@RG` line.
#[derive(Clone, Copy, Debug, PartialEq, Eq, Structural)]
pub enum Platform {
    Capillary,
    Dnbseq,
    Element,
    Helicos,
    Illumina,
    IonTorrent,
    Ls454,
    Ont,
    PacBio,
    Singular,
    Solid,
    Ultima,
}

pub open spec fn opt_text(o: Option<String>) -> Option<Seq<char>> {
    match o {
        Some(t) => Some(t@),
        None => None,
    }
}

pub open spec fn texts(v: Vec<String>) -> Seq<Seq<char>> {
    v@.map_values(|t: String| t@)
}

pub open spec fn opt_texts(o: Option<Vec<String>>) -> Option<Seq<Seq<char>>> {
    match o {
        Some(v) => Some(texts(v)),
        None => None,
    }
}

/// The tags of an `@HD` line as read: each one's value where it occurs.
pub ghost struct MetaFields {
    pub version: Option<Version>,
    pub sort_order: Option<SortOrder>,
    pub grouping: Option<AlignmentGrouping>,
    pub sub_sorting: Option<Seq<char>>,
}

/// An `@HD` line.
#[derive(Debug)]
pub struct HeaderMeta {
    /// VN
    pub format_version: Version,
    /// SO
    pub alignment_sort_order: Option<SortOrder>,
    /// GO
    pub alignment_grouping: Option<AlignmentGrouping>,
    /// SS
    pub alignment_sub_sorting: Option<String>,
}

impl View for HeaderMeta {
    type V = MetaFields;

    open spec fn view(&self) -> MetaFields {
        MetaFields {
            version: Some(self.format_version),
            sort_order: self.alignment_sort_order,
            grouping: self.alignment_grouping,
            sub_sorting: opt_text(self.alignment_sub_sorting),
        }
    }
}

/// The tags of an `@SQ` line as read.
pub ghost struct RefSeqFields {
    pub name: Option<Seq<char>>,
    pub length: Option<u64>,
    pub alternate_locus: Option<Seq<char>>,
    pub alternate_names: Option<Seq<Seq<char>>>,
    pub assembly_id: Option<Seq<char>>,
    pub description: Option<Seq<char>>,
    pub checksum: Option<Seq<char>>,
    pub species: Option<Seq<char>>,
    pub topology: Option<Topology>,
    pub uri: Option<Seq<char>>,
}

/// An `@SQ` line: a reference sequence.
#[derive(Debug)]
pub struct ReferenceSeq {
    /// SN
    pub name: String,
    /// LN
    pub length: u64,
    /// AH
    pub alternate_locus: Option<String>,
    /// AN
    pub alternate_names: Option<Vec<String>>,
    /// AS
    pub assembly_id: Option<String>,
    /// DS
    pub description: Option<String>,
    /// M5
    pub checksum: Option<String>,
    /// SP
    pub species: Option<String>,
    /// TP
    pub topology: Option<Topology>,
    /// UR
    pub uri: Option<String>,
}

impl View for ReferenceSeq {
    type V = RefSeqFields;

    open spec fn view(&self) -> RefSeqFields {
        RefSeqFields {
            name: Some(self.name@),
            length: Some(self.length),
            alternate_locus: opt_text(self.alternate_locus),
            alternate_names: opt_texts(self.alternate_names),
            assembly_id: opt_text(self.assembly_id),
            description: opt_text(self.description),
            checksum: opt_text(self.checksum),
            species: opt_text(self.species),
            topology: self.topology,
            uri: opt_text(self.uri),
        }
    }
}

/// The tags of an `@RG` line as read.
pub ghost struct ReadGroupFields {
    pub id: Option<Seq<char>>,
    pub barcode: Option<Seq<char>>,
    pub center: Option<Seq<char>>,
    pub description: Option<Seq<char>>,
    pub date: Option<Seq<char>>,
    pub flow_order: Option<Seq<char>>,
    pub key_sequence: Option<Seq<char>>,
    pub library: Option<Seq<char>>,
    pub programs: Option<Seq<char>>,
    pub insert_size: Option<u32>,
    pub platform: Option<Platform>,
    pub platform_model: Option<Seq<char>>,
    pub platform_unit: Option<Seq<char>>,
    pub sample: Option<Seq<char>>,
}

/// An `@RG` line: a read group.
#[derive(Debug)]
pub struct ReadGroup {
    /// ID
    pub id: String,
    /// BC
    pub barcode: Option<String>,
    /// CN
    pub center: Option<String>,
    /// DS
    pub description: Option<String>,
    /// DT
    pub date: Option<String>,
    /// FO
    pub flow_order: Option<String>,
    /// KS
    pub key_sequence: Option<String>,
    /// LB
    pub library: Option<String>,
    /// PG
    pub programs: Option<String>,
    /// PI
    pub insert_size: Option<u32>,
    /// PL
    pub platform: Option<Platform>,
    /// PM
    pub platform_model: Option<String>,
    /// PU
    pub platform_unit: Option<String>,
    /// SM
    pub sample: Option<String>,
}

impl View for ReadGroup {
    type V = ReadGroupFields;

    open spec fn view(&self) -> ReadGroupFields {
        ReadGroupFields {
            id: Some(self.id@),
            barcode: opt_text(self.barcode),
            center: opt_text(self.center),
            description: opt_text(self.description),
            date: opt_text(self.date),
            flow_order: opt_text(self.flow_order),
            key_sequence: opt_text(self.key_sequence),
            library: opt_text(self.library),
            programs: opt_text(self.programs),
            insert_size: self.insert_size,
            platform: self.platform,
            platform_model: opt_text(self.platform_model),
            platform_unit: opt_text(self.platform_unit),
            sample: opt_text(self.sample),
        }
    }
}

/// The tags of an `@PG` line as read.
pub ghost struct ProgramFields {
    pub id: Option<Seq<char>>,
    pub name: Option<Seq<char>>,
    pub command_line: Option<Seq<char>>,
    pub previous: Option<Seq<char>>,
    pub description: Option<Seq<char>>,
    pub version: Option<Seq<char>>,
}

/// An `@PG` line: a program. `previous` holds the id of another program,
/// which nothing checks to exist.
#[derive(Debug)]
pub struct Program {
    /// ID
    pub id: String,
    /// PN
    pub name: Option<String>,
    /// CL
    pub command_line: Option<String>,
    /// PP
    pub previous: Option<String>,
    /// DS
    pub description: Option<String>,
    /// VN
    pub version: Option<String>,
}

impl View for Program {
    type V = ProgramFields;

    open spec fn view(&self) -> ProgramFields {
        ProgramFields {
            id: Some(self.id@),
            name: opt_text(self.name),
            command_line: opt_text(self.command_line),
            previous: opt_text(self.previous),
            description: opt_text(self.description),
            version: opt_text(self.version),
        }
    }
}

/// A header as read so far: keyed records in the order of their lines.
pub ghost struct HeaderFields {
    pub meta: Option<MetaFields>,
    pub reference_seqs: Seq<RefSeqFields>,
    pub read_groups: Seq<ReadGroupFields>,
    pub programs: Seq<ProgramFields>,
    pub comments: Seq<Seq<char>>,
}

pub open spec fn empty_header() -> HeaderFields {
    HeaderFields {
        meta: None,
        reference_seqs: seq![],
        read_groups: seq![],
        programs: seq![],
        comments: seq![],
    }
}

pub open spec fn has_ref_seq(h: HeaderFields, name: Option<Seq<char>>) -> bool {
    exists|i: int| 0 <= i < h.reference_seqs.len() && (#[trigger] h.reference_seqs[i]).name == name
}

pub open spec fn has_read_group(h: HeaderFields, id: Option<Seq<char>>) -> bool {
    exists|i: int| 0 <= i < h.read_groups.len() && (#[trigger] h.read_groups[i]).id == id
}

pub open spec fn has_program(h: HeaderFields, id: Option<Seq<char>>) -> bool {
    exists|i: int| 0 <= i < h.programs.len() && (#[trigger] h.programs[i]).id == id
}

/// Adds one parsed line to a header: a second `@HD` line fails `RepeatTag`,
/// a key already present among the records of its kind fails `DuplicateKey`,
/// and comments are appended in order.
pub open spec fn add_row(h: HeaderFields, row: RowFields) -> Result<HeaderFields, ParseError> {
    match row {
        RowFields::Meta(m) => if h.meta is Some {
            Err(ParseError::RepeatTag)
        } else {
            Ok(HeaderFields { meta: Some(m), ..h })
        },
        RowFields::RefSeq(r) => if has_ref_seq(h, r.name) {
            Err(ParseError::DuplicateKey)
        } else {
            Ok(HeaderFields { reference_seqs: h.reference_seqs.push(r), ..h })
        },
        RowFields::ReadGroup(g) => if has_read_group(h, g.id) {
            Err(ParseError::DuplicateKey)
        } else {
            Ok(HeaderFields { read_groups: h.read_groups.push(g), ..h })
        },
        RowFields::Program(p) => if has_program(h, p.id) {
            Err(ParseError::DuplicateKey)
        } else {
            Ok(HeaderFields { programs: h.programs.push(p), ..h })
        },
        RowFields::Comment(c) => Ok(HeaderFields { comments: h.comments.push(c), ..h }),
    }
}

/// Once a header has its `@HD` line, any further `@HD` line fails
/// `RepeatTag`, whatever it holds.
pub proof fn lemma_second_meta_fails(h: HeaderFields, first: MetaFields, second: MetaFields)
    requires
        add_row(h, RowFields::Meta(first)) is Ok,
    ensures
        add_row(add_row(h, RowFields::Meta(first))->Ok_0, RowFields::Meta(second)) == Err::<HeaderFields, ParseError>(ParseError::RepeatTag),
{
}

/// A reference sequence whose name is already in the header fails
/// `DuplicateKey`.
pub proof fn lemma_shared_name_fails(h: HeaderFields, first: RefSeqFields, second: RefSeqFields)
    requires
        add_row(h, RowFields::RefSeq(first)) is Ok,
        first.name == second.name,
    ensures
        add_row(add_row(h, RowFields::RefSeq(first))->Ok_0, RowFields::RefSeq(second)) == Err::<HeaderFields, ParseError>(ParseError::DuplicateKey),
{
    let h1 = add_row(h, RowFields::RefSeq(first))->Ok_0;
    assert(h1.reference_seqs[h.reference_seqs.len() as int] == first);
}

/// Two reference sequences with distinct names, neither of them in the
/// header yet, are both kept, each under its own name.
pub proof fn lemma_distinct_names_kept(h: HeaderFields, first: RefSeqFields, second: RefSeqFields)
    requires
        !has_ref_seq(h, first.name),
        !has_ref_seq(h, second.name),
        first.name != second.name,
    ensures
        add_row(h, RowFields::RefSeq(first)) matches Ok(h1) && add_row(h1, RowFields::RefSeq(second)) matches Ok(h2)
            && h2.reference_seqs == h.reference_seqs.push(first).push(second)
            && has_ref_seq(h2, first.name) && has_ref_seq(h2, second.name),
{
    let h1 = add_row(h, RowFields::RefSeq(first))->Ok_0;
    assert(!has_ref_seq(h1, second.name)) by {
        if has_ref_seq(h1, second.name) {
            let i = choose|i: int| 0 <= i < h1.reference_seqs.len() && (#[trigger] h1.reference_seqs[i]).name == second.name;
            if i < h.reference_seqs.len() {
                assert(h.reference_seqs[i] == h1.reference_seqs[i]);
            }
        }
    }
    let h2 = add_row(h1, RowFields::RefSeq(second))->Ok_0;
    let n = h.reference_seqs.len() as int;
    assert(h2.reference_seqs[n] == first);
    assert(h2.reference_seqs[n + 1] == second);
}

/// Each keyed record's key is present, and no two records of one kind share it.
pub open spec fn keys_unique(h: HeaderFields) -> bool {
    &&& forall|i: int, j: int|
        0 <= i < j < h.reference_seqs.len() ==> (#[trigger] h.reference_seqs[i]).name != (#[trigger] h.reference_seqs[j]).name
    &&& forall|i: int, j: int|
        0 <= i < j < h.read_groups.len() ==> (#[trigger] h.read_groups[i]).id != (#[trigger] h.read_groups[j]).id
    &&& forall|i: int, j: int|
        0 <= i < j < h.programs.len() ==> (#[trigger] h.programs[i]).id != (#[trigger] h.programs[j]).id
}

/// A whole header: at most one `@HD` line, reference sequences, read groups
/// and programs with unique keys, and the comments in order.
#[derive(Debug)]
pub struct Header {
    meta: Option<HeaderMeta>,
    reference_seqs: Vec<ReferenceSeq>,
    read_groups: Vec<ReadGroup>,
    programs: Vec<Program>,
    comments: Vec<String>,
}

pub open spec fn opt_meta(m: Option<HeaderMeta>) -> Option<MetaFields> {
    match m {
        Some(x) => Some(x@),
        None => None,
    }
}

impl View for Header {
    type V = HeaderFields;

    closed spec fn view(&self) -> HeaderFields {
        HeaderFields {
            meta: opt_meta(self.meta),
            reference_seqs: self.reference_seqs@.map_values(|r: ReferenceSeq| r@),
            read_groups: self.read_groups@.map_values(|g: ReadGroup| g@),
            programs: self.programs@.map_values(|p: Program| p@),
            comments: texts(self.comments),
        }
    }
}

impl Header {
    pub open spec fn wf(&self) -> bool {
        keys_unique(self@)
    }

    /// A header with no lines.
    pub fn new() -> (r: Header)
        ensures
            r@ == empty_header(),
            r.wf(),
    {
        let r = Header {
            meta: None,
            reference_seqs: Vec::new(),
            read_groups: Vec::new(),
            programs: Vec::new(),
            comments: Vec::new(),
        };
        assert(r@.reference_seqs =~= seq![]);
        assert(r@.read_groups =~= seq![]);
        assert(r@.programs =~= seq![]);
        assert(r@.comments =~= seq![]);
        r
    }

    /// The `@HD` line, if there is one.
    pub fn meta(&self) -> (r: Option<&HeaderMeta>)
        ensures
            r matches Some(m) ==> self@.meta == Some(m@),
            r is None ==> self@.meta is None,
    {
        self.meta.as_ref()
    }

    /// The comments, in the order of their lines.
    pub fn comments(&self) -> (r: &[String])
        ensures
            r@.map_values(|t: String| t@) == self@.comments,
    {
        self.comments.as_slice()
    }

    /// The reference sequences, in the order of their lines.
    pub fn reference_seqs(&self) -> (r: &[ReferenceSeq])
        ensures
            r@.map_values(|x: ReferenceSeq| x@) == self@.reference_seqs,
    {
        self.reference_seqs.as_slice()
    }

    /// The reference sequence whose key is `key`, if there is one.
    pub fn reference_seq(&self, key: &str) -> (r: Option<&ReferenceSeq>)
        ensures
            r matches Some(x) ==> x.name@ == key@ && exists|i: int| 0 <= i < self@.reference_seqs.len() && self@.reference_seqs[i] == x@,
            r is None ==> !has_ref_seq(self@, Some(key@)),
    {
        let wanted = key.to_owned();
        let mut i: usize = 0;
        while i < self.reference_seqs.len()
            invariant
                i <= self.reference_seqs@.len(),
                wanted@ == key@,
                forall|k: int| 0 <= k < i ==> self@.reference_seqs[k].name != Some(key@),
            decreases self.reference_seqs@.len() - i,
        {
            if self.reference_seqs[i].name == wanted {
                assert(self@.reference_seqs[i as int] == self.reference_seqs@[i as int]@);
                return Some(&self.reference_seqs[i]);
            }
            i = i + 1;
        }
        None
    }

    /// The read groups, in the order of their lines.
    pub fn read_groups(&self) -> (r: &[ReadGroup])
        ensures
            r@.map_values(|x: ReadGroup| x@) == self@.read_groups,
    {
        self.read_groups.as_slice()
    }

    /// The read group whose key is `key`, if there is one.
    pub fn read_group(&self, key: &str) -> (r: Option<&ReadGroup>)
        ensures
            r matches Some(x) ==> x.id@ == key@ && exists|i: int| 0 <= i < self@.read_groups.len() && self@.read_groups[i] == x@,
            r is None ==> !has_read_group(self@, Some(key@)),
    {
        let wanted = key.to_owned();
        let mut i: usize = 0;
        while i < self.read_groups.len()
            invariant
                i <= self.read_groups@.len(),
                wanted@ == key@,
                forall|k: int| 0 <= k < i ==> self@.read_groups[k].id != Some(key@),
            decreases self.read_groups@.len() - i,
        {
            if self.read_groups[i].id == wanted {
                assert(self@.read_groups[i as int] == self.read_groups@[i as int]@);
                return Some(&self.read_groups[i]);
            }
            i = i + 1;
        }
        None
    }

    /// The programs, in the order of their lines.
    pub fn programs(&self) -> (r: &[Program])
        ensures
            r@.map_values(|x: Program| x@) == self@.programs,
    {
        self.programs.as_slice()
    }

    /// The program whose key is `key`, if there is one.
    pub fn program(&self, key: &str) -> (r: Option<&Program>)
        ensures
            r matches Some(x) ==> x.id@ == key@ && exists|i: int| 0 <= i < self@.programs.len() && self@.programs[i] == x@,
            r is None ==> !has_program(self@, Some(key@)),
    {
        let wanted = key.to_owned();
        let mut i: usize = 0;
        while i < self.programs.len()
            invariant
                i <= self.programs@.len(),
                wanted@ == key@,
                forall|k: int| 0 <= k < i ==> self@.programs[k].id != Some(key@),
            decreases self.programs@.len() - i,
        {
            if self.programs[i].id == wanted {
                assert(self@.programs[i as int] == self.programs@[i as int]@);
                return Some(&self.programs[i]);
            }
            i = i + 1;
        }
        None
    }

    /// Adds one parsed line; on failure the header is not to be used further.
    pub fn insert_row(&mut self, row: HeaderRow) -> (r: Result<(), ParseError>)
        requires
            old(self).wf(),
        ensures
            add_row(old(self)@, row@) matches Ok(h) ==> r is Ok && final(self)@ == h && final(self).wf(),
            add_row(old(self)@, row@) matches Err(e) ==> r == Err::<(), ParseError>(e),
    {
        let ghost rv = row@;
        match row {
            HeaderRow::Meta(m) => {
                if self.meta.is_some() {
                    return Err(ParseError::RepeatTag);
                }
                self.meta = Some(m);
                Ok(())
            },
            HeaderRow::RefSeq(x) => {
                let mut i: usize = 0;
                while i < self.reference_seqs.len()
                    invariant
                        i <= self.reference_seqs@.len(),
                        *self == *old(self),
                        self.wf(),
                        rv == RowFields::RefSeq(x@),
                        rv == row@,
                        forall|k: int| 0 <= k < i ==> self@.reference_seqs[k].name != Some(x.name@),
                    decreases self.reference_seqs@.len() - i,
                {
                    if self.reference_seqs[i].name == x.name {
                        assert(self@.reference_seqs[i as int].name == Some(x.name@));
                        return Err(ParseError::DuplicateKey);
                    }
                    i = i + 1;
                }
                let ghost before = self@;
                self.reference_seqs.push(x);
                assert(self@.reference_seqs =~= before.reference_seqs.push(x@));
                Ok(())
            },
            HeaderRow::ReadGroup(x) => {
                let mut i: usize = 0;
                while i < self.read_groups.len()
                    invariant
                        i <= self.read_groups@.len(),
                        *self == *old(self),
                        self.wf(),
                        rv == RowFields::ReadGroup(x@),
                        rv == row@,
                        forall|k: int| 0 <= k < i ==> self@.read_groups[k].id != Some(x.id@),
                    decreases self.read_groups@.len() - i,
                {
                    if self.read_groups[i].id == x.id {
                        assert(self@.read_groups[i as int].id == Some(x.id@));
                        return Err(ParseError::DuplicateKey);
                    }
                    i = i + 1;
                }
                let ghost before = self@;
                self.read_groups.push(x);
                assert(self@.read_groups =~= before.read_groups.push(x@));
                Ok(())
            },
            HeaderRow::Program(x) => {
                let mut i: usize = 0;
                while i < self.programs.len()
                    invariant
                        i <= self.programs@.len(),
                        *self == *old(self),
                        self.wf(),
                        rv == RowFields::Program(x@),
                        rv == row@,
                        forall|k: int| 0 <= k < i ==> self@.programs[k].id != Some(x.id@),
                    decreases self.programs@.len() - i,
                {
                    if self.programs[i].id == x.id {
                        assert(self@.programs[i as int].id == Some(x.id@));
                        return Err(ParseError::DuplicateKey);
                    }
                    i = i + 1;
                }
                let ghost before = self@;
                self.programs.push(x);
                assert(self@.programs =~= before.programs.push(x@));
                Ok(())
            },
            HeaderRow::Comment(c) => {
                let ghost before = self@;
                self.comments.push(c);
                assert(self@.comments =~= before.comments.push(c@));
                Ok(())
            },
        }
    }
}

} // verus!
