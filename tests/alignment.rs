use sam_parser::alignment::parse_alignment;
use sam_parser::text::{decode_text, parse_i32, parse_unsigned};
use sam_parser::{parse_alignments, read_alignments, Flag, ParseError};

#[test]
fn alignment_fields() {
    let v = parse_alignments("r001\t99\tchr1\t7\t30\t8M2I4M1D3M\t=\t37\t39\tTTAGATAAAGGATACTG\t*\n").unwrap();
    assert_eq!(v.len(), 1);
    let a = &v[0];
    assert_eq!(a.query_name, "r001");
    assert_eq!(a.flag, Flag(99));
    assert!(a.flag.has_multiple_segments());
    assert!(a.flag.each_seg_aligned());
    assert!(a.flag.is_first_segment());
    assert!(a.flag.next_is_reverse_complement());
    assert!(!a.flag.is_unmapped());
    assert!(!a.flag.is_last_segment());
    assert_eq!(a.ref_seq_name, "chr1");
    assert_eq!(a.pos, 7);
    assert_eq!(a.map_quality, 30);
    assert_eq!(a.cigar, "8M2I4M1D3M");
    assert_eq!(a.rnext, "=");
    assert_eq!(a.pnext, 37);
    assert_eq!(a.template_len, 39);
    assert_eq!(a.sequence, "TTAGATAAAGGATACTG");
    assert_eq!(a.phred_quality, "*");
}

fn flags(f: Flag) -> [bool; 12] {
    [
        f.has_multiple_segments(),
        f.each_seg_aligned(),
        f.is_unmapped(),
        f.next_is_unmapped(),
        f.is_reverse_complement(),
        f.next_is_reverse_complement(),
        f.is_first_segment(),
        f.is_last_segment(),
        f.is_secondary_alignment(),
        f.not_passing_filters(),
        f.is_duplicate(),
        f.is_supplementary_alignment(),
    ]
}

#[test]
fn flag_single_bit() {
    let f = Flag(0x1);
    let mut expected = [false; 12];
    expected[0] = true;
    assert_eq!(flags(f), expected);
    assert!(f.is_primary_line());
}

#[test]
fn flag_secondary_and_supplementary() {
    let f = Flag(0x900);
    assert!(f.is_secondary_alignment());
    assert!(f.is_supplementary_alignment());
    assert!(!f.is_primary_line());
    assert!(!Flag(0x100).is_primary_line());
    assert!(!Flag(0x800).is_primary_line());
}

#[test]
fn flag_zero() {
    let f = Flag(0);
    assert_eq!(flags(f), [false; 12]);
    assert!(f.is_primary_line());
}

#[test]
fn flag_each_bit() {
    for i in 0..12 {
        let f = Flag(1 << i);
        let got = flags(f);
        for j in 0..12 {
            assert_eq!(got[j], i == j);
        }
    }
    let all = Flag(0xffff);
    assert_eq!(flags(all), [true; 12]);
    assert!(!all.is_primary_line());
}

#[test]
fn too_few_fields() {
    assert_eq!(
        parse_alignment(b"r001\t99\tchr1\t7\t30\t8M\t=\t37\t39\tACGT").unwrap_err(),
        ParseError::MissingAlignmentField
    );
    assert_eq!(parse_alignment(b"").unwrap_err(), ParseError::MissingAlignmentField);
}

#[test]
fn eleven_fields_exactly_kept() {
    let a = parse_alignment(b"q\t0\t*\t0\t255\t*\t*\t0\t-12\t\t").unwrap();
    assert_eq!(a.query_name, "q");
    assert_eq!(a.flag, Flag(0));
    assert_eq!(a.ref_seq_name, "*");
    assert_eq!(a.pos, 0);
    assert_eq!(a.map_quality, 255);
    assert_eq!(a.template_len, -12);
    assert_eq!(a.sequence, "");
    assert_eq!(a.phred_quality, "");
}

#[test]
fn bad_numbers_fail() {
    let bad = [
        "q\t65536\tc\t1\t1\t*\t*\t0\t0\tA\t*",
        "q\tx\tc\t1\t1\t*\t*\t0\t0\tA\t*",
        "q\t0\tc\t-1\t1\t*\t*\t0\t0\tA\t*",
        "q\t0\tc\t1\t256\t*\t*\t0\t0\tA\t*",
        "q\t0\tc\t1\t1\t*\t*\t4294967296\t0\tA\t*",
        "q\t0\tc\t1\t1\t*\t*\t0\t2147483648\tA\t*",
        "q\t0\tc\t1\t1\t*\t*\t0\t-\tA\t*",
        "q\t\tc\t1\t1\t*\t*\t0\t0\tA\t*",
    ];
    for line in bad {
        assert_eq!(parse_alignment(line.as_bytes()).unwrap_err(), ParseError::UnknownValue, "{}", line);
    }
    let a = parse_alignment(b"q\t0\tc\t1\t1\t*\t*\t4294967295\t-2147483648\tA\t*").unwrap();
    assert_eq!(a.pnext, u32::MAX);
    assert_eq!(a.template_len, i32::MIN);
}

#[test]
fn optional_fields_checked_and_dropped() {
    let a = parse_alignment(b"q\t0\tc\t1\t1\t*\t*\t0\t0\tA\t*\tNM:i:0\tMD:Z:1").unwrap();
    assert_eq!(a.phred_quality, "*");
    assert_eq!(
        parse_alignment(b"q\t0\tc\t1\t1\t*\t*\t0\t0\tA\t*\tXX:Z:\xff").unwrap_err(),
        ParseError::InvalidEncoding
    );
    assert_eq!(
        parse_alignment(b"\xffq\t0\tc\t1\t1\t*\t*\t0\t0\tA\t*").unwrap_err(),
        ParseError::InvalidEncoding
    );
}

#[test]
fn several_lines() {
    let v = read_alignments(b"a\t0\tc\t1\t1\t*\t*\t0\t0\tA\t*\r\nb\t16\tc\t2\t1\t*\t*\t0\t0\tC\t*").unwrap();
    assert_eq!(v.len(), 2);
    assert_eq!(v[0].query_name, "a");
    assert_eq!(v[0].phred_quality, "*");
    assert!(v[1].flag.is_reverse_complement());
    assert_eq!(
        read_alignments(b"a\t0\tc\t1\t1\t*\t*\t0\t0\tA\t*\nbad\n").unwrap_err(),
        ParseError::MissingAlignmentField
    );
    assert!(parse_alignments("").unwrap().is_empty());
}

#[test]
fn numbers_read_as_std_does() {
    assert_eq!(parse_unsigned(b"+12", 100), Some(12));
    assert_eq!(parse_unsigned(b"101", 100), None);
    assert_eq!(parse_unsigned(b"", 100), None);
    assert_eq!(parse_unsigned(b"+", 100), None);
    assert_eq!(parse_i32(b"-2147483648"), Some(i32::MIN));
    assert_eq!(parse_i32(b"2147483647"), Some(i32::MAX));
    assert_eq!(parse_i32(b"-2147483649"), None);
    assert_eq!(parse_i32(b"-+1"), None);
    for (text, n) in [("0", 0i64), ("-0", 0), ("+42", 42), ("1234567", 1234567)] {
        assert_eq!(parse_i32(text.as_bytes()).map(i64::from), text.parse::<i32>().ok().map(i64::from));
        assert_eq!(parse_i32(text.as_bytes()), Some(n as i32));
    }
}

#[test]
fn text_decoding() {
    assert_eq!(decode_text(b"abc").unwrap(), "abc");
    assert_eq!(decode_text("\u{20ac}".as_bytes()).unwrap(), "\u{20ac}");
    assert_eq!(decode_text(b"\xe2\x82").unwrap_err(), ParseError::InvalidEncoding);
}
