//! Tests for the symbol catalogue: operator entries, symbol entries built
//! against the real compiler tables and the real Unicode name table, and
//! the unicode-math table parser.

use typst_highlight::symbols::SymbolData;
use typst_highlight::symbols::SymbolVariant;
use typst_highlight::symbols::build_op_entries;
use typst_highlight::symbols::collect_symbols_from_module;
use typst_highlight::symbols::format_math_class;
use typst_highlight::symbols::make_op;
use typst_highlight::symbols::make_symbol_entry;
use typst_highlight::symbols::op_latex_pairs;
use typst_highlight::symbols::parse_unicode_math_table;

fn math_shorthands() -> Vec<(String, char)> {
    typst::syntax::ast::MathShorthand::LIST
        .iter()
        .map(|&(s, c)| (s.to_string(), c))
        .collect()
}

fn markup_shorthands() -> Vec<(String, char)> {
    typst::syntax::ast::Shorthand::LIST
        .iter()
        .map(|&(s, c)| (s.to_string(), c))
        .collect()
}

#[test]
fn make_op_looks_up_latex_commands() {
    let table = op_latex_pairs();
    let sin = make_op("sin", "op", &table);
    assert_eq!(sin.sym, "sin");
    assert_eq!(sin.name, "sin");
    assert_eq!(sin.mathClass, "op");
    assert_eq!(sin.latexName, "sin");
    assert_eq!(sin.shorthand, None);
    assert_eq!(sin.unicName, "");

    let csch = make_op("csch", "op", &table);
    assert_eq!(csch.latexName, "operatorname{csch}");

    let unknown = make_op("nosuchop", "op", &table);
    assert_eq!(unknown.latexName, "");
}

#[test]
fn op_entries_cover_all_operators_once() {
    let table = op_latex_pairs();
    let entries = build_op_entries(&table);
    // 2 differential + 11 limit + 31 remaining operators + 5 spacings.
    assert_eq!(entries.len(), 49);
    assert_eq!(entries[0].sym, "dif");
    assert_eq!(entries[0].latexName, "partial");
    assert_eq!(entries[1].sym, "Dif");
    assert_eq!(entries[2].sym, "det");
    let det_count = entries.iter().filter(|e| e.sym == "det").count();
    assert_eq!(det_count, 1);
    let lim_count = entries.iter().filter(|e| e.sym == "lim").count();
    assert_eq!(lim_count, 1);
}

#[test]
fn op_entries_end_with_spacings() {
    let table = op_latex_pairs();
    let entries = build_op_entries(&table);
    let spacing: Vec<&SymbolData> = entries.iter().filter(|e| e.mathClass == "spacing").collect();
    assert_eq!(spacing.len(), 5);
    assert_eq!(spacing[0].sym, "thin");
    assert_eq!(spacing[0].name, "thin (1/6 em)");
    assert_eq!(spacing[0].latexName, "");
    assert_eq!(entries[entries.len() - 1].sym, "wide");
    assert_eq!(entries[entries.len() - 1].name, "wide (2 em)");
}

#[test]
fn math_class_renders_compiler_classification() {
    // The compiler's table overrides `:` to a relation.
    assert_eq!(format_math_class(':'), "Relation");
    assert_eq!(format_math_class('a'), "Alphabetic");
    assert_eq!(format_math_class('('), "Opening");
}

#[test]
fn symbol_entry_uses_the_unicode_name_table() {
    let latex_by_char: Vec<(char, String)> = vec![('α', "alpha".to_string())];
    let entry = make_symbol_entry(
        &"alpha".to_string(),
        &"".to_string(),
        &"α".to_string(),
        &math_shorthands(),
        &markup_shorthands(),
        &latex_by_char,
    )
    .expect("non-empty symbol text");
    assert_eq!(entry.sym, "α");
    assert_eq!(entry.name, "alpha");
    assert_eq!(entry.unicName, "GREEK SMALL LETTER ALPHA");
    assert_eq!(entry.mathClass, "Alphabetic");
    assert_eq!(entry.latexName, "alpha");
    assert_eq!(entry.shorthand, None);
}

#[test]
fn symbol_entry_finds_shorthands() {
    // `→` is typed `->` in math mode.
    let entry = make_symbol_entry(
        &"arrow".to_string(),
        &"r".to_string(),
        &"→".to_string(),
        &math_shorthands(),
        &markup_shorthands(),
        &Vec::new(),
    )
    .expect("non-empty symbol text");
    assert_eq!(entry.name, "arrow.r");
    assert_eq!(entry.shorthand, Some("->".to_string()));
    // `…` exists in both tables; the math-mode entry wins.
    let entry = make_symbol_entry(
        &"dots".to_string(),
        &"h".to_string(),
        &"…".to_string(),
        &math_shorthands(),
        &markup_shorthands(),
        &Vec::new(),
    )
    .expect("non-empty symbol text");
    assert_eq!(entry.shorthand, Some("...".to_string()));
}

#[test]
fn empty_symbol_text_is_skipped() {
    let entry = make_symbol_entry(
        &"broken".to_string(),
        &"".to_string(),
        &"".to_string(),
        &Vec::new(),
        &Vec::new(),
        &Vec::new(),
    );
    assert!(entry.is_none());
    // A multi-character symbol gets no shorthand.
    let entry = make_symbol_entry(
        &"multi".to_string(),
        &"".to_string(),
        &"ab".to_string(),
        &math_shorthands(),
        &markup_shorthands(),
        &Vec::new(),
    )
    .expect("non-empty symbol text");
    assert_eq!(entry.sym, "a");
    assert_eq!(entry.shorthand, None);
}

#[test]
fn collect_symbols_keeps_variant_order() {
    let entries = vec![
        SymbolVariant {
            base: "lt".to_string(),
            variant: "".to_string(),
            value: "<".to_string(),
        },
        SymbolVariant {
            base: "lt".to_string(),
            variant: "eq".to_string(),
            value: "≤".to_string(),
        },
        SymbolVariant {
            base: "broken".to_string(),
            variant: "".to_string(),
            value: "".to_string(),
        },
    ];
    let catalogue = collect_symbols_from_module(
        &entries,
        &math_shorthands(),
        &markup_shorthands(),
        &Vec::new(),
    );
    assert_eq!(catalogue.len(), 2);
    assert_eq!(catalogue[0].name, "lt");
    assert_eq!(catalogue[1].name, "lt.eq");
    // `≤` is typed `<=` in math mode.
    assert_eq!(catalogue[1].shorthand, Some("<=".to_string()));
}

#[test]
fn math_table_lines_parse_to_rows() {
    let content = b"% unicode-math symbol table\n\
        \\UnicodeMathSymbol{\"00391}{\\mupAlpha }{\\mathalpha}{capital alpha, greek}%\n\
        \\UnicodeMathSymbol{\"00391}{\\ignoredDuplicate }{\\mathalpha}{duplicate}%\n\
        garbage line\n\
        \\UnicodeMathSymbol{\"02192}{\\rightarrow }{\\mathrel}{rightwards arrow}%\n";
    let rows = parse_unicode_math_table(content);
    assert_eq!(rows.len(), 2);
    assert_eq!(rows[0].0, 'Α');
    assert_eq!(rows[0].1, "mupAlpha");
    assert_eq!(rows[1].0, '→');
    assert_eq!(rows[1].1, "rightarrow");
}

#[test]
fn math_table_skips_malformed_lines() {
    let content = b"\\UnicodeMathSymbol{\"ZZZZ}{\\bad }{\\x}{y}%\n\
        \\UnicodeMathSymbol{\"00D800}{\\surrogate }{\\x}{y}%\n\
        \\UnicodeMathSymbol{\"0007E}{\\ascii\n";
    let rows = parse_unicode_math_table(content);
    // The hex field of the first line is not hexadecimal; the second names
    // a surrogate; the third has no closing brace for its command.
    assert_eq!(rows.len(), 0);
}
