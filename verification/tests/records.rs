//! Tests for the text utilities, the offset translation, the package path
//! parser and the serialisation records.

use typst_highlight::engine::HighlightSpan;
use typst_highlight::offsets::cursor_local_offset;
use typst_highlight::offsets::map_raw_offset;
use typst_highlight::offsets::resolve_editor_pairs;
use typst_highlight::offsets::resolve_editor_spans;
use typst_highlight::offsets::to_editor_offset;
use typst_highlight::package::parse_package_path;
use typst_highlight::package::parse_version_triple;
use typst_highlight::package::version_string;
use typst_highlight::parser::find_bracket_pairs;
use typst_highlight::ser::BracketPairSer;
use typst_highlight::ser::PackageSpecSer;
use typst_highlight::ser::SourceDiagnosticSer;
use typst_highlight::ser::bracket_pairs_ser;
use typst_highlight::text::extract_body;
use typst_highlight::text::find_sub;
use typst_highlight::text::u32_from_dec;
use typst_highlight::text::u32_from_hex;
use typst_highlight::text::u64_to_string;
use typst_highlight::values::CastInfo;
use typst_highlight::values::ColorSer;
use typst_highlight::values::FuncSer;
use typst_highlight::values::ParamRecord;
use typst_highlight::values::VersionSer;
use typst_highlight::values::cast_info_to_types;

#[test]
fn extract_body_returns_inner_html() {
    let html = b"<!doctype html><html><body class=\"page\">Hello <b>there</b></body></html>";
    let body = extract_body(html).expect("document has a body");
    assert_eq!(body, b"Hello <b>there</b>");
}

#[test]
fn extract_body_without_body_tag_is_none() {
    assert!(extract_body(b"<html><div>x</div></html>").is_none());
    assert!(extract_body(b"<body x").is_none());
    assert!(extract_body(b"<body>unterminated").is_none());
}

#[test]
fn find_sub_locates_first_occurrence() {
    assert_eq!(find_sub(b"abcabc", b"bc", 0), Some(1));
    assert_eq!(find_sub(b"abcabc", b"bc", 2), Some(4));
    assert_eq!(find_sub(b"abcabc", b"zz", 0), None);
}

#[test]
fn decimal_formatting() {
    assert_eq!(u64_to_string(0), "0");
    assert_eq!(u64_to_string(7), "7");
    assert_eq!(u64_to_string(1024), "1024");
    assert_eq!(u64_to_string(18446744073709551615), "18446744073709551615");
}

#[test]
fn hex_and_decimal_parsing() {
    assert_eq!(u32_from_hex(b"0"), Some(0));
    assert_eq!(u32_from_hex(b"00391"), Some(0x391));
    assert_eq!(u32_from_hex(b"ffffffff"), Some(u32::MAX));
    assert_eq!(u32_from_hex(b"100000000"), None);
    assert_eq!(u32_from_hex(b""), None);
    assert_eq!(u32_from_hex(b"12g4"), None);
    assert_eq!(u32_from_dec(b"4294967295"), Some(u32::MAX));
    assert_eq!(u32_from_dec(b"4294967296"), None);
    assert_eq!(u32_from_dec(b"12a"), None);
}

#[test]
fn window_mapping_excludes_the_id_prefix() {
    // local_offset 10, id prefix of 3 units, code region of 5 units.
    assert_eq!(map_raw_offset(9, 10, 3, 5), None);
    assert_eq!(map_raw_offset(12, 10, 3, 5), None);
    assert_eq!(map_raw_offset(13, 10, 3, 5), Some(3));
    assert_eq!(map_raw_offset(18, 10, 3, 5), Some(8));
    assert_eq!(map_raw_offset(19, 10, 3, 5), None);
}

#[test]
fn editor_offset_shifts_and_guards() {
    assert_eq!(to_editor_offset(5, 100), Some(105));
    assert_eq!(to_editor_offset(1, usize::MAX), None);
    assert_eq!(cursor_local_offset(120, 100, 4), Some(24));
    assert_eq!(cursor_local_offset(90, 100, 4), None);
}

#[test]
fn pair_resolution_drops_failed_translations() {
    let ends = vec![
        (Some(13), Some(15)),
        (None, Some(14)),
        (Some(13), None),
        (Some(2), Some(15)),
    ];
    // Window: local 10, id 3, code 5; shift by 1000.
    let pairs = resolve_editor_pairs(&ends, 10, 3, 5, 1000);
    assert_eq!(pairs, vec![(1003, 1005)]);
}

#[test]
fn span_resolution_drops_failed_translations() {
    let spans = vec![
        HighlightSpan { start: 100, end: 101, tag: "typ-key".to_string() },
        HighlightSpan { start: 102, end: 103, tag: "typ-str".to_string() },
        HighlightSpan { start: 104, end: 105, tag: "typ-num".to_string() },
    ];
    // The middle span's end does not translate; the last falls outside the
    // window (local 10, id 3, code 5).
    let ends = vec![(Some(13), Some(14)), (Some(14), None), (Some(13), Some(25))];
    let resolved = resolve_editor_spans(&spans, &ends, 10, 3, 5, 1000);
    assert_eq!(resolved.len(), 1);
    assert_eq!(resolved[0].start, 1003);
    assert_eq!(resolved[0].end, 1004);
    assert_eq!(resolved[0].tag, "typ-key");
}

#[test]
fn package_path_parses_into_parts() {
    let parsed = parse_package_path(b"@preview/example/1.2.3/src/lib.typ")
        .expect("well-formed package path");
    assert_eq!(parsed.namespace, b"preview");
    assert_eq!(parsed.name, b"example");
    assert_eq!((parsed.major, parsed.minor, parsed.patch), (1, 2, 3));
    assert_eq!(parsed.vpath, b"src/lib.typ");
}

#[test]
fn malformed_package_paths_are_rejected() {
    assert!(parse_package_path(b"preview/example/1.2.3/lib.typ").is_none());
    assert!(parse_package_path(b"@preview/example/1.2.3").is_none());
    assert!(parse_package_path(b"@preview/example/1.2/lib.typ").is_none());
    assert!(parse_package_path(b"@preview/example/1.x.3/lib.typ").is_none());
    assert!(parse_package_path(b"").is_none());
}

#[test]
fn version_triples() {
    assert_eq!(parse_version_triple(b"0.13.1"), Some((0, 13, 1)));
    assert_eq!(parse_version_triple(b"1.2"), None);
    assert_eq!(version_string(0, 13, 1), "0.13.1");
}

#[test]
fn bracket_pair_records_carry_kind_names() {
    let pairs = find_bracket_pairs(b"{[]}");
    let records = bracket_pairs_ser(&pairs);
    assert_eq!(records.len(), 2);
    assert_eq!(records[0].kind, "bracket");
    assert_eq!(records[0].depth, 1);
    assert_eq!(records[1].kind, "brace");
    assert_eq!(records[1].depth, 0);
    let single = BracketPairSer::from_pair(&pairs[1]);
    assert_eq!(single.open_offset, 0);
    assert_eq!(single.close_offset, 3);
    assert_eq!((single.open_pos.line, single.open_pos.column), (0, 0));
}

#[test]
fn version_record_formats_components() {
    assert_eq!(VersionSer::from_components(1, 2, 3).version, "1.2.3");
    assert_eq!(VersionSer::from_components(0, 13, 1).version, "0.13.1");
    assert_eq!(
        VersionSer::from_components(-1, 2, 3).version,
        "Not valid version"
    );
}

#[test]
fn color_record_formats_hex_channels() {
    assert_eq!(ColorSer::from_rgba8(255, 0, 68, 255).hex, "#ff0044ff");
    assert_eq!(ColorSer::from_rgba8(0, 0, 0, 0).hex, "#00000000");
    assert_eq!(ColorSer::from_rgba8(18, 52, 86, 120).hex, "#12345678");
}

#[test]
fn cast_info_flattens_unions_in_order() {
    let info = CastInfo::Union(vec![
        CastInfo::Any,
        CastInfo::Value("auto".to_string(), "A smart default".to_string()),
        CastInfo::Union(vec![CastInfo::Type("length".to_string())]),
    ]);
    let rows = cast_info_to_types(&info);
    let flat: Vec<(String, String)> = rows
        .into_iter()
        .map(|r| (r.kind, r.docs))
        .collect();
    assert_eq!(
        flat,
        vec![
            ("any".to_string(), "Any value is okay".to_string()),
            ("auto".to_string(), "A smart default".to_string()),
            ("length".to_string(), "Any value of this type".to_string()),
        ]
    );
}

#[test]
fn func_record_flattens_parameters() {
    let record = FuncSer::from_parts(
        "rect".to_string(),
        Some(vec![ParamRecord {
            name: "width".to_string(),
            docs: "The width".to_string(),
            input: CastInfo::Union(vec![
                CastInfo::Any,
                CastInfo::Type("length".to_string()),
            ]),
        }]),
    );
    assert_eq!(record.repr, "rect");
    let params = record.params.expect("has a parameter list");
    assert_eq!(params.len(), 1);
    assert_eq!(params[0].name, "width");
    assert_eq!(params[0].params.len(), 2);
    assert_eq!(params[0].params[1].kind, "length");

    let bare = FuncSer::from_parts("min".to_string(), None);
    assert!(bare.params.is_none());
}

#[test]
fn diagnostic_record_renders_severity() {
    let d = SourceDiagnosticSer::from_parts(
        true,
        3,
        9,
        "unknown variable".to_string(),
        Vec::new(),
        vec!["did you mean `x`?".to_string()],
    );
    assert_eq!(d.severity, "error");
    assert_eq!((d.from, d.to), (3, 9));
    let w = SourceDiagnosticSer::from_parts(false, 0, 0, "deprecated".to_string(), Vec::new(), Vec::new());
    assert_eq!(w.severity, "warning");
}

#[test]
fn package_record_formats_version() {
    let p = PackageSpecSer::from_parts(
        "preview".to_string(),
        "cetz".to_string(),
        0,
        3,
        4,
    );
    assert_eq!(p.namespace, "preview");
    assert_eq!(p.name, "cetz");
    assert_eq!(p.version, "0.3.4");
}
