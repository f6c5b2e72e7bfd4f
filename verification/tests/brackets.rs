//! Tests for the bracket lexer, the pair resolver, the enclosing-bracket
//! queries, the tree extractor and the diff engine.

use typst_highlight::engine::HighlightDiffEngine;
use typst_highlight::engine::HighlightSpan;
use typst_highlight::lexer::BracketKind;
use typst_highlight::lexer::bracket_lexer;
use typst_highlight::parser::enclosing_bracket;
use typst_highlight::parser::find_bracket_pairs;
use typst_highlight::parser::paren_parse;
use typst_highlight::tree::NodeKind;
use typst_highlight::tree::SyntaxNode;
use typst_highlight::tree::extract_snapshot;

fn span(start: usize, end: usize, tag: &str) -> HighlightSpan {
    HighlightSpan {
        start,
        end,
        tag: tag.to_string(),
    }
}

fn has_span(spans: &[HighlightSpan], start: usize, end: usize, tag: &str) -> bool {
    spans
        .iter()
        .any(|s| s.start == start && s.end == end && s.tag == tag)
}

#[test]
fn lexer_finds_only_brackets() {
    let tokens = bracket_lexer(b"fn f(x) { g[0] }");
    let kinds: Vec<(BracketKind, bool, usize)> =
        tokens.iter().map(|t| (t.kind, t.open, t.offset)).collect();
    assert_eq!(
        kinds,
        vec![
            (BracketKind::Paren, true, 4),
            (BracketKind::Paren, false, 6),
            (BracketKind::Brace, true, 8),
            (BracketKind::Bracket, true, 11),
            (BracketKind::Bracket, false, 13),
            (BracketKind::Brace, false, 15),
        ]
    );
}

#[test]
fn lexer_tracks_lines_and_columns() {
    let tokens = bracket_lexer(b"(\n  )");
    assert_eq!(tokens.len(), 2);
    assert_eq!((tokens[0].pos.line, tokens[0].pos.column), (0, 0));
    assert_eq!((tokens[1].pos.line, tokens[1].pos.column), (1, 2));
}

#[test]
fn lexer_empty_input() {
    assert!(bracket_lexer(b"").is_empty());
}

#[test]
fn resolves_nested_pairs_with_depth() {
    // "(a[b]c)": the bracket pair closes first, at depth 1; the paren pair
    // spans the whole text at depth 0.
    let pairs = find_bracket_pairs(b"(a[b]c)");
    assert_eq!(pairs.len(), 2);
    assert_eq!(pairs[0].kind, BracketKind::Bracket);
    assert_eq!(pairs[0].depth, 1);
    assert_eq!((pairs[0].open.offset, pairs[0].close.offset), (2, 4));
    assert_eq!(pairs[1].kind, BracketKind::Paren);
    assert_eq!(pairs[1].depth, 0);
    assert_eq!((pairs[1].open.offset, pairs[1].close.offset), (0, 6));
}

#[test]
fn mismatched_brackets_yield_no_pairs() {
    // Both the unmatched `(` and the unmatched `]` are dropped.
    let pairs = find_bracket_pairs(b"(a]");
    assert_eq!(pairs.len(), 0);
}

#[test]
fn unmatched_opens_are_dropped() {
    let pairs = find_bracket_pairs(b"((a)");
    assert_eq!(pairs.len(), 1);
    assert_eq!((pairs[0].open.offset, pairs[0].close.offset), (1, 3));
}

#[test]
fn close_on_empty_stack_is_dropped() {
    let pairs = find_bracket_pairs(b")()");
    assert_eq!(pairs.len(), 1);
    assert_eq!((pairs[0].open.offset, pairs[0].close.offset), (1, 2));
}

#[test]
fn mismatch_keeps_stack_intact() {
    // The `]` mismatches the open paren and is dropped without popping,
    // so the paren pair still resolves.
    let pairs = find_bracket_pairs(b"(])");
    assert_eq!(pairs.len(), 1);
    assert_eq!(pairs[0].kind, BracketKind::Paren);
    assert_eq!((pairs[0].open.offset, pairs[0].close.offset), (0, 2));
}

#[test]
fn resolved_pairs_are_well_nested() {
    let pairs = find_bracket_pairs(b"{a(b)c[d{e}f]g}(h)");
    for a in pairs.iter() {
        for b in pairs.iter() {
            let disjoint =
                a.close.offset < b.open.offset || b.close.offset < a.open.offset;
            let a_in_b = b.open.offset < a.open.offset && a.close.offset < b.close.offset;
            let b_in_a = a.open.offset < b.open.offset && b.close.offset < a.close.offset;
            let same = a.open.offset == b.open.offset && a.close.offset == b.close.offset;
            assert!(disjoint || a_in_b || b_in_a || same);
        }
    }
}

#[test]
fn paren_parse_consumes_lexer_stream() {
    let tokens = bracket_lexer(b"[()]");
    let pairs = paren_parse(&tokens);
    assert_eq!(pairs.len(), 2);
    assert_eq!(pairs[0].kind, BracketKind::Paren);
    assert_eq!(pairs[1].kind, BracketKind::Bracket);
}

#[test]
fn innermost_pair_wins() {
    // Nested pairs (0,10) and (3,5); a cursor at 4 resolves to (3,5),
    // the candidate whose opening offset is largest.
    let pairs = find_bracket_pairs(b"(12(4)6789)");
    assert_eq!(pairs.len(), 2);
    assert_eq!((pairs[0].open.offset, pairs[0].close.offset), (3, 5));
    assert_eq!((pairs[1].open.offset, pairs[1].close.offset), (0, 10));
    let hit = enclosing_bracket(&pairs, 4).expect("cursor 4 is inside both pairs");
    assert_eq!((hit.open.offset, hit.close.offset), (3, 5));
}

#[test]
fn enclosing_bracket_is_inclusive_at_both_ends() {
    let pairs = find_bracket_pairs(b"(abc)");
    assert!(enclosing_bracket(&pairs, 0).is_some());
    assert!(enclosing_bracket(&pairs, 4).is_some());
    assert!(enclosing_bracket(&pairs, 5).is_none());
}

#[test]
fn engine_enclosing_query_prefers_largest_open() {
    let mut engine = HighlightDiffEngine::new();
    engine.highlight(Vec::new(), vec![(0, 10), (3, 5)], None);
    assert_eq!(engine.get_cursor_enclosing_bracket(4), Some((3, 5)));
    assert_eq!(engine.get_cursor_enclosing_bracket(8), Some((0, 10)));
    assert_eq!(engine.get_cursor_enclosing_bracket(11), None);
}

#[test]
fn first_diff_adds_everything() {
    // diff(empty -> S): adds == S, removes == empty.
    let mut engine = HighlightDiffEngine::new();
    let current = vec![span(0, 2, "typ-key"), span(3, 7, "typ-str")];
    let changes = engine.highlight(current, Vec::new(), None);
    assert_eq!(changes.adds.len(), 2);
    assert!(has_span(&changes.adds, 0, 2, "typ-key"));
    assert!(has_span(&changes.adds, 3, 7, "typ-str"));
    assert!(changes.removes.is_empty());
}

#[test]
fn unchanged_snapshot_diffs_to_nothing() {
    // diff(S -> S): adds == empty, removes == empty.
    let mut engine = HighlightDiffEngine::new();
    let snapshot = || vec![span(0, 2, "typ-key"), span(3, 7, "typ-str")];
    engine.highlight(snapshot(), Vec::new(), None);
    let changes = engine.highlight(snapshot(), Vec::new(), None);
    assert!(changes.adds.is_empty());
    assert!(changes.removes.is_empty());
}

#[test]
fn diff_is_symmetric_difference_and_rebuilds_mirror() {
    // diff(S -> S'): adds == S' \ S, removes == S \ S'; applying adds then
    // removes to a mirror of S reproduces S'.
    let mut engine = HighlightDiffEngine::new();
    let s = vec![span(0, 2, "typ-key"), span(3, 7, "typ-str"), span(8, 9, "typ-num")];
    let s2 = vec![span(3, 7, "typ-str"), span(8, 9, "typ-op"), span(10, 12, "typ-key")];
    engine.highlight(clone_spans(&s), Vec::new(), None);
    let changes = engine.highlight(clone_spans(&s2), Vec::new(), None);

    assert_eq!(changes.adds.len(), 2);
    assert!(has_span(&changes.adds, 8, 9, "typ-op"));
    assert!(has_span(&changes.adds, 10, 12, "typ-key"));
    assert_eq!(changes.removes.len(), 2);
    assert!(has_span(&changes.removes, 0, 2, "typ-key"));
    assert!(has_span(&changes.removes, 8, 9, "typ-num"));

    // Mirror check.
    let mut mirror: Vec<(usize, usize, String)> =
        s.iter().map(|h| (h.start, h.end, h.tag.clone())).collect();
    for a in changes.adds.iter() {
        if !mirror.iter().any(|m| m.0 == a.start && m.1 == a.end && m.2 == a.tag) {
            mirror.push((a.start, a.end, a.tag.clone()));
        }
    }
    for r in changes.removes.iter() {
        mirror.retain(|m| !(m.0 == r.start && m.1 == r.end && m.2 == r.tag));
    }
    mirror.sort();
    let mut expect: Vec<(usize, usize, String)> =
        s2.iter().map(|h| (h.start, h.end, h.tag.clone())).collect();
    expect.sort();
    assert_eq!(mirror, expect);
}

#[test]
fn reset_makes_next_diff_behave_like_the_first() {
    // After reset(), the next diff call behaves identically to a
    // first-ever call: adds == new snapshot, removes == empty.
    let mut engine = HighlightDiffEngine::new();
    engine.highlight(vec![span(0, 2, "typ-key")], vec![(0, 5)], None);
    engine.reset_highlights();
    assert_eq!(engine.get_cursor_enclosing_bracket(1), None);
    let changes = engine.highlight(vec![span(4, 6, "typ-str")], Vec::new(), None);
    assert_eq!(changes.adds.len(), 1);
    assert!(has_span(&changes.adds, 4, 6, "typ-str"));
    assert!(changes.removes.is_empty());
}

#[test]
fn enclosing_decoration_is_always_added_and_removed() {
    let mut engine = HighlightDiffEngine::new();
    let snapshot = || vec![span(0, 2, "typ-key")];
    let changes = engine.highlight(snapshot(), Vec::new(), Some((3, 5)));
    assert!(has_span(&changes.adds, 2, 3, "typ-enclosing"));
    assert!(has_span(&changes.adds, 5, 6, "typ-enclosing"));
    // Same snapshot, cursor moved: the old decoration is removed, the new
    // one added, even though the text did not change.
    let changes = engine.highlight(snapshot(), Vec::new(), Some((7, 9)));
    assert!(has_span(&changes.adds, 6, 7, "typ-enclosing"));
    assert!(has_span(&changes.adds, 9, 10, "typ-enclosing"));
    assert!(has_span(&changes.removes, 2, 3, "typ-enclosing"));
    assert!(has_span(&changes.removes, 5, 6, "typ-enclosing"));
    // Cursor leaves all brackets: only removes for the decoration.
    let changes = engine.highlight(snapshot(), Vec::new(), None);
    assert!(changes.adds.is_empty());
    assert!(has_span(&changes.removes, 6, 7, "typ-enclosing"));
    assert!(has_span(&changes.removes, 9, 10, "typ-enclosing"));
}

fn leaf(kind: NodeKind, start: usize, end: usize, tag: Option<&str>) -> SyntaxNode {
    SyntaxNode {
        kind,
        start,
        end,
        tag: tag.map(|t| t.to_string()),
        children: Vec::new(),
    }
}

#[test]
fn tree_extraction_matches_nodes_and_tags() {
    // Root spanning "(ab)" with a tagged identifier between delimiters.
    let root = SyntaxNode {
        kind: NodeKind::Other,
        start: 0,
        end: 4,
        tag: None,
        children: vec![
            leaf(NodeKind::LeftParen, 0, 1, None),
            leaf(NodeKind::Other, 1, 3, Some("typ-ident")),
            leaf(NodeKind::RightParen, 3, 4, None),
        ],
    };
    let extraction = extract_snapshot(&root, 2);
    assert_eq!(extraction.pairs, vec![(1, 3)]);
    assert_eq!(extraction.enclosing, Some((1, 3)));
    assert!(has_span(&extraction.spans, 0, 1, "typ-paren"));
    assert!(has_span(&extraction.spans, 3, 4, "typ-paren"));
    assert!(has_span(&extraction.spans, 1, 3, "typ-ident"));
    assert_eq!(extraction.spans.len(), 3);
}

#[test]
fn tree_extraction_picks_innermost_enclosing_pair() {
    // "{a(b)c}" as a tree; cursor inside the parens.
    let root = SyntaxNode {
        kind: NodeKind::Other,
        start: 0,
        end: 7,
        tag: None,
        children: vec![
            leaf(NodeKind::LeftBrace, 0, 1, None),
            leaf(NodeKind::Other, 1, 2, None),
            leaf(NodeKind::LeftParen, 2, 3, None),
            leaf(NodeKind::Other, 3, 4, None),
            leaf(NodeKind::RightParen, 4, 5, None),
            leaf(NodeKind::Other, 5, 6, None),
            leaf(NodeKind::RightBrace, 6, 7, None),
        ],
    };
    let extraction = extract_snapshot(&root, 3);
    assert_eq!(extraction.pairs, vec![(3, 4), (1, 6)]);
    assert_eq!(extraction.enclosing, Some((3, 4)));
}

#[test]
fn tree_extraction_tolerates_mismatched_delimiters() {
    // An unmatched close and an unmatched open yield no pair, and the walk
    // goes on.
    let root = SyntaxNode {
        kind: NodeKind::Other,
        start: 0,
        end: 4,
        tag: None,
        children: vec![
            leaf(NodeKind::RightBrace, 0, 1, None),
            leaf(NodeKind::LeftParen, 1, 2, None),
            leaf(NodeKind::RightBracket, 2, 3, None),
            leaf(NodeKind::Other, 3, 4, Some("typ-num")),
        ],
    };
    let extraction = extract_snapshot(&root, 2);
    assert_eq!(extraction.pairs.len(), 0);
    assert_eq!(extraction.enclosing, None);
    assert!(has_span(&extraction.spans, 3, 4, "typ-num"));
    assert_eq!(extraction.spans.len(), 1);
}

#[test]
fn tree_extraction_descends_into_children() {
    let inner = SyntaxNode {
        kind: NodeKind::Other,
        start: 1,
        end: 3,
        tag: None,
        children: vec![
            leaf(NodeKind::LeftBracket, 1, 2, None),
            leaf(NodeKind::RightBracket, 2, 3, None),
        ],
    };
    let root = SyntaxNode {
        kind: NodeKind::Other,
        start: 0,
        end: 4,
        tag: None,
        children: vec![
            leaf(NodeKind::LeftParen, 0, 1, None),
            inner,
            leaf(NodeKind::RightParen, 3, 4, None),
        ],
    };
    let extraction = extract_snapshot(&root, 0);
    assert_eq!(extraction.pairs, vec![(2, 2), (1, 3)]);
}

#[test]
fn shared_delimiter_decoration_is_not_removed() {
    // Two successive enclosing pairs share their opening delimiter: the
    // shared decoration span stays rendered, so it must not appear in the
    // removes while it is being added again.
    let mut engine = HighlightDiffEngine::new();
    let changes = engine.highlight(Vec::new(), Vec::new(), Some((3, 9)));
    assert!(has_span(&changes.adds, 2, 3, "typ-enclosing"));
    assert!(has_span(&changes.adds, 9, 10, "typ-enclosing"));
    let changes = engine.highlight(Vec::new(), Vec::new(), Some((3, 5)));
    assert!(has_span(&changes.adds, 2, 3, "typ-enclosing"));
    assert!(has_span(&changes.adds, 5, 6, "typ-enclosing"));
    assert!(has_span(&changes.removes, 9, 10, "typ-enclosing"));
    assert!(!has_span(&changes.removes, 2, 3, "typ-enclosing"));
    // No value ever stands in both lists.
    for a in changes.adds.iter() {
        assert!(!has_span(&changes.removes, a.start, a.end, &a.tag));
    }
}

#[test]
fn enclosing_tie_takes_the_first_pair() {
    // Two retained pairs share the maximal opening offset; the query
    // deterministically returns the first of them.
    let mut engine = HighlightDiffEngine::new();
    engine.highlight(Vec::new(), vec![(3, 9), (3, 5)], None);
    assert_eq!(engine.get_cursor_enclosing_bracket(4), Some((3, 9)));
    engine.highlight(Vec::new(), vec![(3, 5), (3, 9)], None);
    assert_eq!(engine.get_cursor_enclosing_bracket(4), Some((3, 5)));
}

fn clone_spans(v: &[HighlightSpan]) -> Vec<HighlightSpan> {
    v.iter()
        .map(|h| HighlightSpan {
            start: h.start,
            end: h.end,
            tag: h.tag.clone(),
        })
        .collect()
}
