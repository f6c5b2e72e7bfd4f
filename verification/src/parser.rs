//! Resolution of a bracket token stream into well-nested pairs.
//!
//! The resolver consumes the lexer's ordered token stream with an explicit
//! stack. An opening token is pushed; a closing token pops the top entry when
//! the families match and emits a pair whose depth is the stack size after
//! popping. A closing token that mismatches the top entry, or arrives on an
//! empty stack, is dropped without touching the stack, and opening tokens
//! still on the stack at the end of input are dropped as well: mid-edit text
//! is frequently unbalanced, and unmatched delimiters are tolerated silently
//! rather than reported. The pairs that do come out are always well-nested:
//! any two are either disjoint or one strictly contains the other.

use vstd::prelude::*;

use crate::lexer::BracketKind;
use crate::lexer::BracketToken;
use crate::lexer::CharPos;
use crate::lexer::bracket_lexer;
use crate::lexer::lemma_tokens_of_increasing;
use crate::lexer::offsets_increasing;
use crate::lexer::tokens_of;

verus! {

/// A resolved position: the byte offset of a delimiter character and its
/// line/column position.
#[derive(Clone, Copy, Debug, PartialEq, Eq, Structural)]
pub struct Position {
    pub offset: usize,
    pub pos: CharPos,
}

/// A matched pair of delimiters: the family, the nesting depth (zero for a
/// top-level pair), and the positions of the opening and closing characters.
#[derive(Clone, Copy, Debug, PartialEq, Eq, Structural)]
pub struct BracketPair {
    pub kind: BracketKind,
    pub depth: usize,
    pub open: Position,
    pub close: Position,
}

/// The position carried by a token.
pub open spec fn position_of(t: BracketToken) -> Position {
    Position { offset: t.offset, pos: t.pos }
}

/// The pair emitted when `close` pops `open` with `depth` entries left below.
pub open spec fn pair_of(open: BracketToken, close: BracketToken, depth: int) -> BracketPair {
    BracketPair {
        kind: open.kind,
        depth: depth as usize,
        open: position_of(open),
        close: position_of(close),
    }
}

/// One step of the stack matcher: push an opening token; pop and emit on a
/// matching closing token; drop a mismatched or unmatched closing token.
pub open spec fn parse_step(
    stack: Seq<BracketToken>,
    pairs: Seq<BracketPair>,
    t: BracketToken,
) -> (Seq<BracketToken>, Seq<BracketPair>) {
    if t.open {
        (stack.push(t), pairs)
    } else if stack.len() > 0 && stack.last().kind == t.kind {
        (stack.drop_last(), pairs.push(pair_of(stack.last(), t, stack.len() - 1)))
    } else {
        (stack, pairs)
    }
}

/// The matcher state after consuming the first `i` tokens.
pub open spec fn parse_prefix(tokens: Seq<BracketToken>, i: int) -> (
    Seq<BracketToken>,
    Seq<BracketPair>,
)
    decreases i,
{
    if i <= 0 {
        (Seq::<BracketToken>::empty(), Seq::<BracketPair>::empty())
    } else {
        let st = parse_prefix(tokens, i - 1);
        parse_step(st.0, st.1, tokens[i - 1])
    }
}

/// The pairs resolved from a full token stream.
pub open spec fn pairs_of(tokens: Seq<BracketToken>) -> Seq<BracketPair> {
    parse_prefix(tokens, tokens.len() as int).1
}

/// Whether two pairs cover disjoint stretches of text.
pub open spec fn pair_disjoint(a: BracketPair, b: BracketPair) -> bool {
    a.close.offset < b.open.offset || b.close.offset < a.open.offset
}

/// Whether `outer` strictly contains `inner`.
pub open spec fn pair_contains(outer: BracketPair, inner: BracketPair) -> bool {
    outer.open.offset < inner.open.offset && inner.close.offset < outer.close.offset
}

/// Well-nestedness: any two distinct pairs are either disjoint or one
/// strictly contains the other.
pub open spec fn well_nested(pairs: Seq<BracketPair>) -> bool {
    forall|j: int, k: int|
        #![trigger pairs[j], pairs[k]]
        0 <= j < pairs.len() && 0 <= k < pairs.len() && j != k ==> pair_disjoint(pairs[j], pairs[k])
            || pair_contains(pairs[j], pairs[k]) || pair_contains(pairs[k], pairs[j])
}

/// Every pair opens strictly before it closes.
pub open spec fn pairs_ordered(pairs: Seq<BracketPair>) -> bool {
    forall|j: int| 0 <= j < pairs.len() ==> (#[trigger] pairs[j]).open.offset < pairs[j].close.offset
}

/// Every offset in the matcher state lies strictly below `b`.
pub open spec fn state_below(stack: Seq<BracketToken>, pairs: Seq<BracketPair>, b: int) -> bool {
    &&& forall|j: int| 0 <= j < stack.len() ==> (#[trigger] stack[j]).offset < b
    &&& forall|j: int| 0 <= j < pairs.len() ==> (#[trigger] pairs[j]).close.offset < b
}

/// Every emitted pair lies entirely before or entirely after every entry
/// still on the stack.
pub open spec fn pairs_avoid_stack(stack: Seq<BracketToken>, pairs: Seq<BracketPair>) -> bool {
    forall|j: int, k: int|
        #![trigger pairs[j], stack[k]]
        0 <= j < pairs.len() && 0 <= k < stack.len() ==> pairs[j].close.offset < stack[k].offset
            || stack[k].offset < pairs[j].open.offset
}

/// The invariants the stack matcher maintains while the input offsets are
/// strictly increasing: the stack offsets increase bottom to top, emitted
/// pairs open before they close, no pair straddles a live stack entry, the
/// pairs are well-nested, and everything stays below the next unread offset.
pub proof fn lemma_parse_prefix_invariants(tokens: Seq<BracketToken>, i: int)
    requires
        offsets_increasing(tokens),
        0 <= i <= tokens.len(),
    ensures
        ({
            let st = parse_prefix(tokens, i);
            &&& offsets_increasing(st.0)
            &&& pairs_ordered(st.1)
            &&& pairs_avoid_stack(st.0, st.1)
            &&& well_nested(st.1)
            &&& (i < tokens.len() ==> state_below(st.0, st.1, tokens[i].offset as int))
        }),
    decreases i,
{
    if i > 0 {
        lemma_parse_prefix_invariants(tokens, i - 1);
        let prev = parse_prefix(tokens, i - 1);
        let st = parse_prefix(tokens, i);
        let t = tokens[i - 1];
        assert(state_below(prev.0, prev.1, t.offset as int));
        if t.open {
            let ns = prev.0.push(t);
            assert(st.0 == ns && st.1 == prev.1);
            assert forall|j: int, k: int|
                #![trigger ns[j], ns[k]]
                0 <= j < k < ns.len() implies ns[j].offset < ns[k].offset by {
                if k < prev.0.len() {
                    assert(ns[j] == prev.0[j] && ns[k] == prev.0[k]);
                } else {
                    assert(ns[j] == prev.0[j] && ns[k] == t);
                }
            }
            assert forall|j: int, k: int|
                #![trigger st.1[j], ns[k]]
                0 <= j < st.1.len() && 0 <= k < ns.len() implies st.1[j].close.offset < ns[k].offset
                || ns[k].offset < st.1[j].open.offset by {
                if k < prev.0.len() {
                    assert(ns[k] == prev.0[k]);
                } else {
                    assert(ns[k] == t);
                    assert(st.1[j].close.offset < t.offset);
                }
            }
        } else if prev.0.len() > 0 && prev.0.last().kind == t.kind {
            let o = prev.0.last();
            let q = pair_of(o, t, prev.0.len() - 1);
            let ns = prev.0.drop_last();
            let np = prev.1.push(q);
            assert(st.0 == ns && st.1 == np);
            // The new pair opens at the old stack top and closes at the
            // current token, so it opens before it closes.
            assert(q.open.offset < q.close.offset);
            assert forall|j: int| 0 <= j < np.len() implies (#[trigger] np[j]).open.offset
                < np[j].close.offset by {
                if j < prev.1.len() {
                    assert(np[j] == prev.1[j]);
                } else {
                    assert(np[j] == q);
                }
            }
            // Entries below the old top sit strictly before the new pair.
            assert forall|j: int, k: int|
                #![trigger np[j], ns[k]]
                0 <= j < np.len() && 0 <= k < ns.len() implies np[j].close.offset < ns[k].offset
                || ns[k].offset < np[j].open.offset by {
                assert(ns[k] == prev.0[k]);
                if j < prev.1.len() {
                    assert(np[j] == prev.1[j]);
                } else {
                    assert(np[j] == q);
                    assert(prev.0[k].offset < o.offset);
                }
            }
            // Every old pair is disjoint from the new one or strictly inside
            // it, because no old pair straddles the popped stack top.
            assert forall|j: int, k: int|
                #![trigger np[j], np[k]]
                0 <= j < np.len() && 0 <= k < np.len() && j != k implies pair_disjoint(
                np[j],
                np[k],
            ) || pair_contains(np[j], np[k]) || pair_contains(np[k], np[j]) by {
                if j < prev.1.len() && k < prev.1.len() {
                    assert(np[j] == prev.1[j] && np[k] == prev.1[k]);
                } else if j < prev.1.len() {
                    assert(np[j] == prev.1[j] && np[k] == q);
                    assert(prev.1[j].close.offset < o.offset || o.offset < prev.1[j].open.offset);
                    assert(prev.1[j].close.offset < t.offset);
                } else {
                    assert(np[j] == q && np[k] == prev.1[k]);
                    assert(prev.1[k].close.offset < o.offset || o.offset < prev.1[k].open.offset);
                    assert(prev.1[k].close.offset < t.offset);
                }
            }
        } else {
            assert(st.0 == prev.0 && st.1 == prev.1);
        }
        if i < tokens.len() {
            assert(t.offset < tokens[i].offset);
        }
    }
}

/// The pairs resolved from any stream with strictly increasing offsets are
/// well-nested, and each opens strictly before it closes.
pub proof fn lemma_pairs_well_nested(tokens: Seq<BracketToken>)
    requires
        offsets_increasing(tokens),
    ensures
        well_nested(pairs_of(tokens)),
        pairs_ordered(pairs_of(tokens)),
{
    lemma_parse_prefix_invariants(tokens, tokens.len() as int);
}

/// Resolve a token stream into bracket pairs with the stack matcher.
///
/// The result is exactly the fold of the per-token step over the stream, and
/// when the stream's offsets are strictly increasing — as any lexed stream's
/// are — the resolved pairs are well-nested.
pub fn paren_parse(tokens: &Vec<BracketToken>) -> (pairs: Vec<BracketPair>)
    ensures
        pairs@ == pairs_of(tokens@),
        offsets_increasing(tokens@) ==> well_nested(pairs@) && pairs_ordered(pairs@),
{
    let mut stack: Vec<BracketToken> = Vec::new();
    let mut pairs: Vec<BracketPair> = Vec::new();
    let mut i: usize = 0;
    while i < tokens.len()
        invariant
            0 <= i <= tokens@.len(),
            (stack@, pairs@) == parse_prefix(tokens@, i as int),
        decreases tokens@.len() - i,
    {
        let t = tokens[i];
        if t.open {
            stack.push(t);
        } else if stack.len() > 0 {
            let top = stack[stack.len() - 1];
            if top.kind == t.kind {
                stack.pop();
                pairs.push(
                    BracketPair {
                        kind: top.kind,
                        depth: stack.len(),
                        open: Position { offset: top.offset, pos: top.pos },
                        close: Position { offset: t.offset, pos: t.pos },
                    },
                );
            }
        }
        proof {
            assert((stack@, pairs@) == parse_prefix(tokens@, i + 1));
        }
        i = i + 1;
    }
    proof {
        if offsets_increasing(tokens@) {
            lemma_pairs_well_nested(tokens@);
        }
    }
    pairs
}

/// Lex raw text and resolve its bracket pairs in one pass: the stateless,
/// parser-independent fast path. The resolved pairs are always well-nested.
pub fn find_bracket_pairs(code: &[u8]) -> (pairs: Vec<BracketPair>)
    ensures
        pairs@ == pairs_of(tokens_of(code@)),
        well_nested(pairs@),
        pairs_ordered(pairs@),
{
    let text_len = code.len();
    let tokens = bracket_lexer(code);
    proof {
        assert(code@.len() == text_len);
        lemma_tokens_of_increasing(code@);
    }
    paren_parse(&tokens)
}

/// Whether a pair encloses a cursor offset, inclusive at both ends.
pub open spec fn pair_encloses(p: BracketPair, off: int) -> bool {
    p.open.offset <= off <= p.close.offset
}

/// The innermost pair enclosing a cursor offset: among all pairs whose
/// delimiters enclose the cursor (inclusive at both ends), the first one
/// whose opening delimiter sits furthest right. Returns `None` when no pair
/// encloses the cursor; otherwise the result is the one determined pair, so
/// repeated queries of one pair list always agree. Stateless; usable
/// against either the lexer-derived or the tree-derived pair set.
pub fn enclosing_bracket(pairs: &Vec<BracketPair>, cursor_offset: usize) -> (r: Option<
    BracketPair,
>)
    ensures
        (r is None) <==> (forall|j: int|
            0 <= j < pairs@.len() ==> !pair_encloses(#[trigger] pairs@[j], cursor_offset as int)),
        r matches Some(p) ==> (exists|j: int|
            {
                &&& 0 <= j < pairs@.len()
                &&& pairs@[j] == p
                &&& pair_encloses(p, cursor_offset as int)
                &&& forall|k: int|
                    0 <= k < pairs@.len() && pair_encloses(
                        #[trigger] pairs@[k],
                        cursor_offset as int,
                    ) ==> pairs@[k].open.offset <= p.open.offset
                &&& forall|k: int|
                    0 <= k < j && pair_encloses(#[trigger] pairs@[k], cursor_offset as int)
                        ==> pairs@[k].open.offset < p.open.offset
            }),
{
    let mut best: Option<BracketPair> = None;
    let ghost mut best_j: int = 0;
    let mut i: usize = 0;
    while i < pairs.len()
        invariant
            0 <= i <= pairs@.len(),
            (best is None) <==> (forall|j: int|
                0 <= j < i ==> !pair_encloses(#[trigger] pairs@[j], cursor_offset as int)),
            best matches Some(p) ==> {
                &&& 0 <= best_j < i
                &&& pairs@[best_j] == p
                &&& pair_encloses(p, cursor_offset as int)
                &&& forall|k: int|
                    0 <= k < i && pair_encloses(#[trigger] pairs@[k], cursor_offset as int)
                        ==> pairs@[k].open.offset <= p.open.offset
                &&& forall|k: int|
                    0 <= k < best_j && pair_encloses(#[trigger] pairs@[k], cursor_offset as int)
                        ==> pairs@[k].open.offset < p.open.offset
            },
        decreases pairs@.len() - i,
    {
        let p = pairs[i];
        if p.open.offset <= cursor_offset && cursor_offset <= p.close.offset {
            match best {
                Some(b) => {
                    if b.open.offset < p.open.offset {
                        best = Some(p);
                        proof {
                            best_j = i as int;
                        }
                    }
                },
                None => {
                    best = Some(p);
                    proof {
                        best_j = i as int;
                    }
                },
            }
        }
        i = i + 1;
    }
    best
}

} // verus!
