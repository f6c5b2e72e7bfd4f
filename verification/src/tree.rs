//! Snapshot extraction from a syntax tree.
//!
//! The extractor walks a syntax tree — supplied by the host as a tree of
//! plain nodes, each carrying its kind class, its byte range, its classifier
//! tag if any, and its ordered children — and derives the authoritative
//! snapshot for the current pass: tagged highlight spans for classified
//! nodes, one-character spans over every matched delimiter, the matched
//! bracket pairs at node granularity, and the innermost pair enclosing the
//! cursor. Because the tree already excludes delimiters inside strings and
//! comments, this pass is authoritative where the raw-text lexer is only
//! approximate.
//!
//! The traversal is iterative depth-first with an explicit work stack,
//! children pushed in reverse so they are visited left to right; deeply
//! nested documents therefore cannot exhaust the call stack. Delimiter nodes
//! run through the same tolerant stack matcher as the raw-text path: a
//! closing delimiter that mismatches the stack top, or arrives on an empty
//! stack, is dropped without touching the stack, and unmatched opens are
//! dropped at the end. Unrecognised nodes contribute nothing and the walk
//! continues.

use vstd::prelude::*;
use vstd::string::StringExecFns;

use crate::engine::HighlightSpan;
use crate::engine::SpanValue;
use crate::lexer::BracketKind;

verus! {

/// The kind class of a syntax node, as far as this crate reads it: one of
/// the six grouping delimiters, or anything else.
#[derive(Clone, Copy, Debug, PartialEq, Eq, Structural)]
pub enum NodeKind {
    LeftParen,
    RightParen,
    LeftBracket,
    RightBracket,
    LeftBrace,
    RightBrace,
    Other,
}

/// A syntax-tree node as the extractor consumes it: kind class, byte range,
/// the classifier's tag for the node if it has one, and the ordered children.
#[derive(Debug)]
pub struct SyntaxNode {
    pub kind: NodeKind,
    pub start: usize,
    pub end: usize,
    pub tag: Option<String>,
    pub children: Vec<SyntaxNode>,
}

/// The data of one node, as a plain value: kind, start, end, tag text.
pub type NodeItem = (NodeKind, usize, usize, Option<Seq<char>>);

/// The plain value of a node, children left aside.
pub open spec fn node_item(n: SyntaxNode) -> NodeItem {
    (
        n.kind,
        n.start,
        n.end,
        match n.tag {
            Option::Some(t) => Option::Some(t@),
            Option::None => Option::None,
        },
    )
}

/// The items of a tree in depth-first preorder: a node first, then its
/// children left to right.
pub open spec fn preorder(n: SyntaxNode) -> Seq<NodeItem>
    decreases n,
{
    seq![node_item(n)] + preorder_seq(n.children@)
}

/// The preorder items of a forest, left to right.
pub open spec fn preorder_seq(s: Seq<SyntaxNode>) -> Seq<NodeItem>
    decreases s,
{
    if s.len() == 0 {
        Seq::empty()
    } else {
        preorder(s[0]) + preorder_seq(s.drop_first())
    }
}

/// The bracket family a left-delimiter node opens, if any.
pub open spec fn left_kind_of(k: NodeKind) -> Option<BracketKind> {
    match k {
        NodeKind::LeftParen => Option::Some(BracketKind::Paren),
        NodeKind::LeftBracket => Option::Some(BracketKind::Bracket),
        NodeKind::LeftBrace => Option::Some(BracketKind::Brace),
        _ => Option::None,
    }
}

/// The bracket family a right-delimiter node closes, if any.
pub open spec fn right_kind_of(k: NodeKind) -> Option<BracketKind> {
    match k {
        NodeKind::RightParen => Option::Some(BracketKind::Paren),
        NodeKind::RightBracket => Option::Some(BracketKind::Bracket),
        NodeKind::RightBrace => Option::Some(BracketKind::Brace),
        _ => Option::None,
    }
}

/// The tag rendered onto the delimiters of a matched pair.
pub open spec fn bracket_class(k: BracketKind) -> Seq<char> {
    match k {
        BracketKind::Paren => "typ-paren"@,
        BracketKind::Bracket => "typ-bracket"@,
        BracketKind::Brace => "typ-brace"@,
    }
}

/// The one-character spans over the delimiters of a matched pair.
/// `left_end` is the offset just right of the opening character and
/// `right_start` the offset just left of the closing one; a span whose range
/// would fall outside the address space is dropped.
pub open spec fn pair_spans(left_end: usize, right_start: usize, k: BracketKind) -> Seq<
    SpanValue,
> {
    (if left_end >= 1 {
        seq![(((left_end - 1) as usize), left_end, bracket_class(k))]
    } else {
        Seq::empty()
    }) + (if right_start < usize::MAX {
        seq![(right_start, ((right_start + 1) as usize), bracket_class(k))]
    } else {
        Seq::empty()
    })
}

/// The extractor's state while folding over the preorder items: the stack of
/// open delimiters (inner offset and family), the highlight spans collected
/// so far, the matched pairs as (inner-left, inner-right) offsets, and the
/// innermost pair enclosing the cursor seen so far.
pub ghost struct ExtractState {
    pub bstack: Seq<(usize, BracketKind)>,
    pub spans: Seq<SpanValue>,
    pub pairs: Seq<(usize, usize)>,
    pub enclosing: Option<(usize, usize)>,
}

/// The empty extractor state.
pub open spec fn extract_init() -> ExtractState {
    ExtractState {
        bstack: Seq::empty(),
        spans: Seq::empty(),
        pairs: Seq::empty(),
        enclosing: Option::None,
    }
}

/// One extractor step over one preorder item.
///
/// An opening delimiter pushes (its end offset, its family). A closing
/// delimiter whose family matches the stack top pops it and emits the pair,
/// its delimiter spans, and — when the pair encloses the cursor inclusively
/// and opens further right than the best so far — the new enclosing
/// candidate. A mismatched or unmatched closing delimiter is dropped without
/// touching the stack. Any other node contributes its classifier span, if
/// the classifier gave it a tag.
pub open spec fn extract_step(st: ExtractState, item: NodeItem, cursor: usize) -> ExtractState {
    let kind = item.0;
    let start = item.1;
    let end = item.2;
    let tag = item.3;
    if left_kind_of(kind) is Some {
        ExtractState {
            bstack: st.bstack.push((end, left_kind_of(kind)->Some_0)),
            spans: st.spans,
            pairs: st.pairs,
            enclosing: st.enclosing,
        }
    } else if right_kind_of(kind) is Some {
        let k = right_kind_of(kind)->Some_0;
        if st.bstack.len() > 0 && st.bstack.last().1 == k {
            let left_end = st.bstack.last().0;
            let right_start = start;
            ExtractState {
                bstack: st.bstack.drop_last(),
                spans: st.spans + pair_spans(left_end, right_start, k),
                pairs: st.pairs.push((left_end, right_start)),
                enclosing: if left_end <= cursor && cursor <= right_start {
                    match st.enclosing {
                        Option::None => Option::Some((left_end, right_start)),
                        Option::Some(e) => if e.0 < left_end {
                            Option::Some((left_end, right_start))
                        } else {
                            st.enclosing
                        },
                    }
                } else {
                    st.enclosing
                },
            }
        } else {
            st
        }
    } else if tag is Some {
        ExtractState {
            bstack: st.bstack,
            spans: st.spans.push((start, end, tag->Some_0)),
            pairs: st.pairs,
            enclosing: st.enclosing,
        }
    } else {
        st
    }
}

/// The extractor state after folding the first `i` items.
pub open spec fn extract_fold(items: Seq<NodeItem>, i: int, cursor: usize) -> ExtractState
    decreases i,
{
    if i <= 0 {
        extract_init()
    } else {
        extract_step(extract_fold(items, i - 1, cursor), items[i - 1], cursor)
    }
}

/// The snapshot a tree extracts to: the fold of the step function over the
/// tree's preorder items.
pub open spec fn extract_spec(root: SyntaxNode, cursor: usize) -> ExtractState {
    extract_fold(preorder(root), preorder(root).len() as int, cursor)
}

/// The span values of a span sequence, in order.
pub open spec fn span_values(s: Seq<HighlightSpan>) -> Seq<SpanValue> {
    s.map_values(|h: HighlightSpan| h@)
}

/// The preorder items still to be visited: the stacked subtrees, topmost
/// first.
pub open spec fn pending(stack: Seq<&SyntaxNode>) -> Seq<NodeItem>
    decreases stack.len(),
{
    if stack.len() == 0 {
        Seq::empty()
    } else {
        preorder(*stack.last()) + pending(stack.drop_last())
    }
}

/// A snapshot extracted from a syntax tree: the highlight spans (classifier
/// spans plus delimiter spans), the matched bracket pairs in byte offsets,
/// and the innermost pair enclosing the cursor, if any.
#[derive(Debug)]
pub struct Extraction {
    pub spans: Vec<HighlightSpan>,
    pub pairs: Vec<(usize, usize)>,
    pub enclosing: Option<(usize, usize)>,
}

/// Walk the tree iteratively in depth-first preorder and extract the
/// authoritative snapshot for this pass. The result is exactly the fold of
/// the extractor step over the tree's preorder items.
pub fn extract_snapshot(root: &SyntaxNode, cursor_offset: usize) -> (r: Extraction)
    ensures
        ({
            let st = extract_spec(*root, cursor_offset);
            &&& span_values(r.spans@) == st.spans
            &&& r.pairs@ == st.pairs
            &&& r.enclosing == st.enclosing
        }),
{
    let ghost root_items = preorder(*root);
    let mut bstack: Vec<(usize, BracketKind)> = Vec::new();
    let mut spans: Vec<HighlightSpan> = Vec::new();
    let mut pairs: Vec<(usize, usize)> = Vec::new();
    let mut enclosing: Option<(usize, usize)> = None;
    let ghost mut done: Seq<NodeItem> = Seq::empty();

    let mut node_stack: Vec<&SyntaxNode> = Vec::new();
    node_stack.push(root);
    proof {
        let s = node_stack@;
        assert(s.last() == root);
        assert(s.drop_last() =~= Seq::<&SyntaxNode>::empty());
        assert(pending(s.drop_last()) =~= Seq::<NodeItem>::empty());
        assert(pending(s) =~= preorder(*root));
        assert(done + pending(s) =~= root_items);
    }

    while node_stack.len() > 0
        invariant
            done + pending(node_stack@) == root_items,
            ({
                let st = extract_fold(root_items, done.len() as int, cursor_offset);
                &&& bstack@ == st.bstack
                &&& span_values(spans@) == st.spans
                &&& pairs@ == st.pairs
                &&& enclosing == st.enclosing
            }),
        decreases pending(node_stack@).len(),
    {
        let ghost stack_before = node_stack@;
        let node = node_stack.pop().unwrap();
        proof {
            assert(stack_before.len() > 0);
            assert(node == *stack_before.last());
            assert(node_stack@ == stack_before.drop_last());
            assert(pending(stack_before) == preorder(*node) + pending(node_stack@));
            assert(preorder(*node) == seq![node_item(*node)] + preorder_seq(node.children@));
            assert(preorder(*node)[0] == node_item(*node));
            assert(pending(stack_before)[0] == node_item(*node));
            assert(root_items == done + pending(stack_before));
            assert(root_items[done.len() as int] == node_item(*node));
            assert(done.len() < root_items.len());
        }

        let ghost st_before = extract_fold(root_items, done.len() as int, cursor_offset);
        let ghost item = node_item(*node);

        // Process this node exactly as the step function says.
        match node.kind {
            NodeKind::LeftParen | NodeKind::LeftBracket | NodeKind::LeftBrace => {
                let k = match node.kind {
                    NodeKind::LeftParen => BracketKind::Paren,
                    NodeKind::LeftBracket => BracketKind::Bracket,
                    _ => BracketKind::Brace,
                };
                bstack.push((node.end, k));
            },
            NodeKind::RightParen | NodeKind::RightBracket | NodeKind::RightBrace => {
                let k = match node.kind {
                    NodeKind::RightParen => BracketKind::Paren,
                    NodeKind::RightBracket => BracketKind::Bracket,
                    _ => BracketKind::Brace,
                };
                if bstack.len() > 0 {
                    let (left_end, top_kind) = bstack[bstack.len() - 1];
                    if top_kind == k {
                        bstack.pop();
                        let right_start = node.start;
                        let ghost spans_before = spans@;
                        if left_end >= 1 {
                            spans.push(
                                HighlightSpan {
                                    start: left_end - 1,
                                    end: left_end,
                                    tag: bracket_class_string(k),
                                },
                            );
                        }
                        if right_start < usize::MAX {
                            spans.push(
                                HighlightSpan {
                                    start: right_start,
                                    end: right_start + 1,
                                    tag: bracket_class_string(k),
                                },
                            );
                        }
                        proof {
                            assert(span_values(spans@) =~= span_values(spans_before) + pair_spans(
                                left_end,
                                right_start,
                                k,
                            ));
                        }
                        pairs.push((left_end, right_start));
                        if left_end <= cursor_offset && cursor_offset <= right_start {
                            match enclosing {
                                Some(e) => {
                                    if e.0 < left_end {
                                        enclosing = Some((left_end, right_start));
                                    }
                                },
                                None => {
                                    enclosing = Some((left_end, right_start));
                                },
                            }
                        }
                    }
                }
            },
            NodeKind::Other => {
                match &node.tag {
                    Some(t) => {
                        let ghost spans_before = spans@;
                        spans.push(
                            HighlightSpan { start: node.start, end: node.end, tag: t.clone() },
                        );
                        proof {
                            assert(span_values(spans@) =~= span_values(spans_before).push(
                                (node.start, node.end, t@),
                            ));
                        }
                    },
                    None => {},
                }
            },
        }
        proof {
            done = done.push(item);
            assert(extract_fold(root_items, done.len() as int, cursor_offset) == extract_step(
                st_before,
                item,
                cursor_offset,
            ));
            let st = extract_fold(root_items, done.len() as int, cursor_offset);
            assert(bstack@ == st.bstack);
            assert(span_values(spans@) == st.spans);
            assert(pairs@ == st.pairs);
            assert(enclosing == st.enclosing);
        }

        // Push the children in reverse so they come off left to right.
        let ghost base = node_stack@;
        let n_children = node.children.len();
        let mut j: usize = n_children;
        proof {
            assert(node.children@.subrange(j as int, n_children as int) =~= Seq::<
                SyntaxNode,
            >::empty());
            assert(pending(node_stack@) =~= preorder_seq(
                node.children@.subrange(j as int, n_children as int),
            ) + pending(base));
        }
        while j > 0
            invariant
                0 <= j <= n_children,
                n_children == node.children@.len(),
                pending(node_stack@) == preorder_seq(
                    node.children@.subrange(j as int, n_children as int),
                ) + pending(base),
            decreases j,
        {
            let ghost stack_mid = node_stack@;
            node_stack.push(&node.children[j - 1]);
            proof {
                assert(node_stack@.drop_last() == stack_mid);
                assert(*node_stack@.last() == node.children@[j - 1]);
                assert(pending(node_stack@) == preorder(node.children@[j - 1]) + pending(
                    stack_mid,
                ));
                let sub = node.children@.subrange(j - 1, n_children as int);
                assert(sub[0] == node.children@[j - 1]);
                assert(sub.drop_first() =~= node.children@.subrange(j as int, n_children as int));
                assert(preorder_seq(sub) == preorder(node.children@[j - 1]) + preorder_seq(
                    sub.drop_first(),
                ));
                assert(pending(node_stack@) =~= preorder_seq(sub) + pending(base));
            }
            j = j - 1;
        }
        proof {
            assert(node.children@.subrange(0, n_children as int) =~= node.children@);
            assert(pending(node_stack@) =~= preorder_seq(node.children@) + pending(base));
            assert(done + pending(node_stack@) =~= root_items);
            assert(pending(stack_before).len() == preorder(*node).len() + pending(base).len());
            assert(preorder(*node).len() == 1 + preorder_seq(node.children@).len());
            assert(pending(node_stack@).len() < pending(stack_before).len());
        }
    }
    proof {
        assert(pending(node_stack@) =~= Seq::<NodeItem>::empty());
        assert(done =~= root_items);
    }
    Extraction { spans, pairs, enclosing }
}

/// The rendering tag of a bracket family, as a string.
pub fn bracket_class_string(k: BracketKind) -> (r: String)
    ensures
        r@ == bracket_class(k),
{
    match k {
        BracketKind::Paren => String::from_str("typ-paren"),
        BracketKind::Bracket => String::from_str("typ-bracket"),
        BracketKind::Brace => String::from_str("typ-brace"),
    }
}

} // verus!
