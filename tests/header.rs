use sam_parser::header::{AlignmentGrouping, Platform, SortOrder, Topology, Version};
use sam_parser::{parse_header, read_header, ParseError};

fn err(text: &str) -> ParseError {
    parse_header(text).unwrap_err()
}

#[test]
fn header_with_meta_and_reference() {
    let h = parse_header("@HD\tVN:1.6\tSO:coordinate\n@SQ\tSN:chr1\tLN:248956422\n").unwrap();
    let meta = h.meta().unwrap();
    assert_eq!(meta.format_version, Version { major: 1, minor: 6 });
    assert_eq!(meta.alignment_sort_order, Some(SortOrder::Coordinate));
    assert_eq!(meta.alignment_grouping, None);
    assert_eq!(h.reference_seqs().len(), 1);
    let chr1 = h.reference_seq("chr1").unwrap();
    assert_eq!(chr1.name, "chr1");
    assert_eq!(chr1.length, 248956422);
    assert!(chr1.alternate_names.is_none());
    assert!(h.read_groups().is_empty());
    assert!(h.programs().is_empty());
    assert!(h.comments().is_empty());
}

#[test]
fn version_reads_both_numbers() {
    let h = parse_header("@HD\tVN:10.22").unwrap();
    assert_eq!(h.meta().unwrap().format_version, Version { major: 10, minor: 22 });
    let h = parse_header("@HD\tVN:007.0\tGO:query").unwrap();
    let meta = h.meta().unwrap();
    assert_eq!(meta.format_version, Version { major: 7, minor: 0 });
    assert_eq!(meta.alignment_grouping, Some(AlignmentGrouping::Query));
}

#[test]
fn malformed_versions_fail() {
    assert_eq!(err("@HD\tVN:16"), ParseError::BadVersion);
    assert_eq!(err("@HD\tVN:a.b"), ParseError::BadVersion);
    assert_eq!(err("@HD\tVN:"), ParseError::BadVersion);
    assert_eq!(err("@HD\tVN:1."), ParseError::BadVersion);
    assert_eq!(err("@HD\tVN:.6"), ParseError::BadVersion);
    assert_eq!(err("@HD\tVN:99999999999999999999.1"), ParseError::BadVersion);
    assert_eq!(err("@HD\tVN:1.6x"), ParseError::MissingFieldDelimiter);
    assert_eq!(err("@HD\tSO:unsorted"), ParseError::MissingVersion);
}

#[test]
fn second_meta_line_fails() {
    assert_eq!(err("@HD\tVN:1.6\n@HD\tVN:1.6\n"), ParseError::RepeatTag);
    assert_eq!(err("@HD\tVN:1.6\n@CO\tx\n@HD\tVN:1.4\tSO:unsorted\n"), ParseError::RepeatTag);
}

#[test]
fn shared_reference_name_fails() {
    assert_eq!(
        err("@SQ\tSN:chr1\tLN:10\n@SQ\tSN:chr2\tLN:20\n@SQ\tSN:chr1\tLN:30\n"),
        ParseError::DuplicateKey
    );
}

#[test]
fn distinct_reference_names_kept() {
    let h = parse_header("@SQ\tSN:chr1\tLN:10\n@SQ\tSN:chr2\tLN:20\n").unwrap();
    assert_eq!(h.reference_seqs().len(), 2);
    assert_eq!(h.reference_seq("chr1").unwrap().length, 10);
    assert_eq!(h.reference_seq("chr2").unwrap().length, 20);
    assert!(h.reference_seq("chr3").is_none());
}

#[test]
fn parsing_twice_gives_equal_headers() {
    let text = "@HD\tVN:1.6\tSO:queryname\n@SQ\tSN:c\tLN:5\tTP:circular\n@RG\tID:g\tPL:ILLUMINA\n@CO\thello\n";
    let a = parse_header(text).unwrap();
    let b = parse_header(text).unwrap();
    assert_eq!(format!("{:?}", a), format!("{:?}", b));
}

#[test]
fn reference_attributes() {
    let h = parse_header(
        "@SQ\tSN:chrM\tLN:16569\tAH:*\tAN:MT,M,chrMT\tAS:GRCh38\tDS:mito\tM5:abc123\tSP:human\tTP:circular\tUR:file:x.fa",
    )
    .unwrap();
    let r = h.reference_seq("chrM").unwrap();
    assert_eq!(r.length, 16569);
    assert_eq!(r.alternate_locus.as_deref(), Some("*"));
    assert_eq!(
        r.alternate_names,
        Some(vec!["MT".to_string(), "M".to_string(), "chrMT".to_string()])
    );
    assert_eq!(r.assembly_id.as_deref(), Some("GRCh38"));
    assert_eq!(r.description.as_deref(), Some("mito"));
    assert_eq!(r.checksum.as_deref(), Some("abc123"));
    assert_eq!(r.species.as_deref(), Some("human"));
    assert_eq!(r.topology, Some(Topology::Circular));
    assert_eq!(r.uri.as_deref(), Some("file:x.fa"));
}

#[test]
fn alternate_names_keep_empty_pieces() {
    let h = parse_header("@SQ\tSN:a\tLN:1\tAN:x,,y,").unwrap();
    assert_eq!(
        h.reference_seq("a").unwrap().alternate_names,
        Some(vec!["x".to_string(), String::new(), "y".to_string(), String::new()])
    );
}

#[test]
fn read_group_attributes() {
    let h = parse_header(
        "@RG\tID:rg1\tBC:ACGT\tCN:center\tDS:d\tDT:2020-01-01\tFO:TACG\tKS:TCAG\tLB:lib\tPG:bwa\tPI:350\tPL:PACBIO\tPM:sequel\tPU:unit\tSM:sample1",
    )
    .unwrap();
    let g = h.read_group("rg1").unwrap();
    assert_eq!(g.barcode.as_deref(), Some("ACGT"));
    assert_eq!(g.center.as_deref(), Some("center"));
    assert_eq!(g.date.as_deref(), Some("2020-01-01"));
    assert_eq!(g.flow_order.as_deref(), Some("TACG"));
    assert_eq!(g.key_sequence.as_deref(), Some("TCAG"));
    assert_eq!(g.library.as_deref(), Some("lib"));
    assert_eq!(g.programs.as_deref(), Some("bwa"));
    assert_eq!(g.insert_size, Some(350));
    assert_eq!(g.platform, Some(Platform::PacBio));
    assert_eq!(g.platform_model.as_deref(), Some("sequel"));
    assert_eq!(g.platform_unit.as_deref(), Some("unit"));
    assert_eq!(g.sample.as_deref(), Some("sample1"));
}

#[test]
fn every_platform_is_known() {
    let names = [
        ("CAPILLARY", Platform::Capillary),
        ("DNBSEQ", Platform::Dnbseq),
        ("ELEMENT", Platform::Element),
        ("HELICOS", Platform::Helicos),
        ("ILLUMINA", Platform::Illumina),
        ("IONTORRENT", Platform::IonTorrent),
        ("LS454", Platform::Ls454),
        ("ONT", Platform::Ont),
        ("PACBIO", Platform::PacBio),
        ("SINGULAR", Platform::Singular),
        ("SOLID", Platform::Solid),
        ("ULTIMA", Platform::Ultima),
    ];
    for (name, platform) in names {
        let h = parse_header(&format!("@RG\tID:x\tPL:{}", name)).unwrap();
        assert_eq!(h.read_group("x").unwrap().platform, Some(platform));
    }
    assert_eq!(err("@RG\tID:x\tPL:illumina"), ParseError::UnknownValue);
}

#[test]
fn program_chain() {
    let h = parse_header(
        "@PG\tID:bwa\tPN:bwa\tVN:0.7\tCL:bwa mem\tDS:aligner\n@PG\tID:sort\tPP:bwa\n",
    )
    .unwrap();
    assert_eq!(h.programs().len(), 2);
    let bwa = h.program("bwa").unwrap();
    assert_eq!(bwa.name.as_deref(), Some("bwa"));
    assert_eq!(bwa.version.as_deref(), Some("0.7"));
    assert_eq!(bwa.command_line.as_deref(), Some("bwa mem"));
    assert_eq!(bwa.description.as_deref(), Some("aligner"));
    assert_eq!(h.program("sort").unwrap().previous.as_deref(), Some("bwa"));
}

#[test]
fn comments_verbatim_in_order() {
    let h = parse_header("@CO\tfirst\twith tab\n@CO\tsecond\n@CO\tfirst\twith tab\n@CO\t").unwrap();
    let c: Vec<&str> = h.comments().iter().map(|s| s.as_str()).collect();
    assert_eq!(c, vec!["first\twith tab", "second", "first\twith tab", ""]);
    assert_eq!(err("@CO"), ParseError::MissingFieldDelimiter);
}

#[test]
fn structural_errors() {
    assert_eq!(err("HD\tVN:1.6"), ParseError::MissingPrefix);
    assert_eq!(err("@HD\tVN:1.6\n\n"), ParseError::MissingPrefix);
    assert_eq!(err("@XY\tVN:1.6"), ParseError::UnknownRecordCode);
    assert_eq!(err("@H"), ParseError::UnknownRecordCode);
    assert_eq!(err("@HD VN:1.6"), ParseError::MissingFieldDelimiter);
    assert_eq!(err("@HD\tV"), ParseError::MissingFieldTag);
    assert_eq!(err("@HD\tVN1.6"), ParseError::MissingKeyValueSeparator);
    assert_eq!(err("@SQ\tSN:\tLN:1"), ParseError::MissingValue);
}

#[test]
fn semantic_errors() {
    assert_eq!(err("@HD\tVN:1.6\tXX:1"), ParseError::UnknownTag);
    assert_eq!(err("@SQ\tSN:a\tSN:b\tLN:1"), ParseError::RepeatTag);
    assert_eq!(err("@HD\tVN:1.6\tSO:sorted"), ParseError::UnknownValue);
    assert_eq!(err("@HD\tVN:1.6\tGO:all"), ParseError::UnknownValue);
    assert_eq!(err("@SQ\tSN:a\tLN:ten"), ParseError::UnknownValue);
    assert_eq!(err("@SQ\tSN:a\tLN:-1"), ParseError::UnknownValue);
    assert_eq!(err("@SQ\tSN:a\tLN:18446744073709551616"), ParseError::UnknownValue);
    assert_eq!(err("@SQ\tSN:a\tLN:1\tTP:round"), ParseError::UnknownValue);
    assert_eq!(err("@RG\tID:a\tPI:4294967296"), ParseError::UnknownValue);
}

#[test]
fn identity_errors() {
    assert_eq!(err("@SQ\tLN:1"), ParseError::MissingRefSeqName);
    assert_eq!(err("@SQ\tSN:a"), ParseError::MissingRefSeqLen);
    assert_eq!(err("@RG\tSM:x"), ParseError::MissingReadGroupId);
    assert_eq!(err("@PG\tPN:x"), ParseError::MissingProgramId);
    assert_eq!(err("@RG\tID:a\n@RG\tID:a\n"), ParseError::DuplicateKey);
    assert_eq!(err("@PG\tID:a\n@PG\tID:a\n"), ParseError::DuplicateKey);
}

#[test]
fn largest_length_accepted() {
    let h = parse_header("@SQ\tSN:a\tLN:18446744073709551615").unwrap();
    assert_eq!(h.reference_seq("a").unwrap().length, u64::MAX);
    let h = parse_header("@SQ\tSN:b\tLN:+7").unwrap();
    assert_eq!(h.reference_seq("b").unwrap().length, 7);
}

#[test]
fn invalid_encoding_fails() {
    assert_eq!(read_header(b"@CO\t\xff\xfe").unwrap_err(), ParseError::InvalidEncoding);
    assert_eq!(read_header(b"@SQ\tSN:\xc3\tLN:1").unwrap_err(), ParseError::InvalidEncoding);
    let h = read_header("@SQ\tSN:\u{e9}t\u{e9}\tLN:1\n".as_bytes()).unwrap();
    assert_eq!(h.reference_seqs()[0].name, "\u{e9}t\u{e9}");
}

#[test]
fn crlf_line_endings() {
    let h = read_header(b"@HD\tVN:1.6\r\n@SQ\tSN:a\tLN:3\r\n").unwrap();
    assert_eq!(h.meta().unwrap().format_version, Version { major: 1, minor: 6 });
    assert_eq!(h.reference_seq("a").unwrap().length, 3);
}

#[test]
fn empty_header() {
    let h = parse_header("").unwrap();
    assert!(h.meta().is_none());
    assert!(h.reference_seqs().is_empty());
}
