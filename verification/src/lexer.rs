//! A reduced, bracket-only scan over raw text.
//!
//! The lexer walks the UTF-8 bytes of a source buffer and emits a token for
//! each of the six delimiter characters `(` `)` `[` `]` `{` `}`, carrying its
//! byte offset and its line/column position. Every other byte is skipped:
//! this is a deliberate reduction for per-keystroke latency, not a general
//! tokenizer. All six delimiters are ASCII, so scanning bytes is exact even
//! in multi-byte text. The scan never fails; empty input yields no tokens.

use vstd::prelude::*;

verus! {

/// The three bracket families recognised by the lexer and the tree walk.
#[derive(Clone, Copy, Debug, PartialEq, Eq, Structural)]
pub enum BracketKind {
    Paren,
    Bracket,
    Brace,
}

/// A line/column position, both zero-based; the column counts bytes from the
/// start of the line.
#[derive(Clone, Copy, Debug, PartialEq, Eq, Structural)]
pub struct CharPos {
    pub line: usize,
    pub column: usize,
}

/// One bracket character found in the text: its family, whether it is an
/// opening delimiter, its byte offset, and its line/column position.
#[derive(Clone, Copy, Debug, PartialEq, Eq, Structural)]
pub struct BracketToken {
    pub kind: BracketKind,
    pub open: bool,
    pub offset: usize,
    pub pos: CharPos,
}

/// Whether a byte is one of the six delimiter characters.
pub open spec fn is_bracket_byte(b: u8) -> bool {
    b == 40 || b == 41 || b == 91 || b == 93 || b == 123 || b == 125
}

/// The bracket family of a delimiter byte.
pub open spec fn bracket_kind_of(b: u8) -> BracketKind {
    if b == 40 || b == 41 {
        BracketKind::Paren
    } else if b == 91 || b == 93 {
        BracketKind::Bracket
    } else {
        BracketKind::Brace
    }
}

/// Whether a delimiter byte opens a group.
pub open spec fn is_open_byte(b: u8) -> bool {
    b == 40 || b == 91 || b == 123
}

/// How many newline bytes occur strictly before position `i`.
pub open spec fn newline_count(text: Seq<u8>, i: int) -> int
    decreases i,
{
    if i <= 0 {
        0
    } else {
        newline_count(text, i - 1) + if text[i - 1] == 10 {
            1int
        } else {
            0int
        }
    }
}

/// The byte offset at which the line containing position `i` starts.
pub open spec fn line_start(text: Seq<u8>, i: int) -> int
    decreases i,
{
    if i <= 0 {
        0
    } else if text[i - 1] == 10 {
        i
    } else {
        line_start(text, i - 1)
    }
}

/// The token that position `i` of the text yields, assuming a delimiter byte
/// stands there.
pub open spec fn token_at(text: Seq<u8>, i: int) -> BracketToken
    recommends
        0 <= i < text.len(),
        is_bracket_byte(text[i]),
{
    BracketToken {
        kind: bracket_kind_of(text[i]),
        open: is_open_byte(text[i]),
        offset: i as usize,
        pos: CharPos {
            line: newline_count(text, i) as usize,
            column: (i - line_start(text, i)) as usize,
        },
    }
}

/// The tokens found in the first `i` bytes of the text, in offset order.
pub open spec fn tokens_prefix(text: Seq<u8>, i: int) -> Seq<BracketToken>
    decreases i,
{
    if i <= 0 {
        Seq::empty()
    } else {
        tokens_prefix(text, i - 1) + if is_bracket_byte(text[i - 1]) {
            seq![token_at(text, i - 1)]
        } else {
            Seq::empty()
        }
    }
}

/// The full ordered token stream of a text.
pub open spec fn tokens_of(text: Seq<u8>) -> Seq<BracketToken> {
    tokens_prefix(text, text.len() as int)
}

/// Whether token offsets are strictly increasing and all below `bound`.
pub open spec fn offsets_below(tokens: Seq<BracketToken>, bound: int) -> bool {
    forall|j: int| 0 <= j < tokens.len() ==> #[trigger] tokens[j].offset < bound
}

/// Whether token offsets are strictly increasing.
pub open spec fn offsets_increasing(tokens: Seq<BracketToken>) -> bool {
    forall|j: int, k: int|
        #![trigger tokens[j], tokens[k]]
        0 <= j < k < tokens.len() ==> tokens[j].offset < tokens[k].offset
}

/// Lexed token streams carry strictly increasing byte offsets.
pub proof fn lemma_tokens_prefix_increasing(text: Seq<u8>, i: int)
    requires
        i <= usize::MAX,
    ensures
        offsets_increasing(tokens_prefix(text, i)),
        offsets_below(tokens_prefix(text, i), i),
    decreases i,
{
    if i > 0 {
        lemma_tokens_prefix_increasing(text, i - 1);
        let prev = tokens_prefix(text, i - 1);
        let cur = tokens_prefix(text, i);
        if is_bracket_byte(text[i - 1]) {
            assert(cur == prev + seq![token_at(text, i - 1)]);
            assert forall|j: int| 0 <= j < cur.len() implies #[trigger] cur[j].offset < i by {
                if j < prev.len() {
                    assert(cur[j] == prev[j]);
                } else {
                    assert(cur[j] == token_at(text, i - 1));
                }
            }
            assert forall|j: int, k: int|
                #![trigger cur[j], cur[k]]
                0 <= j < k < cur.len() implies cur[j].offset < cur[k].offset by {
                if k < prev.len() {
                    assert(cur[j] == prev[j] && cur[k] == prev[k]);
                } else {
                    assert(cur[j] == prev[j] && cur[k] == token_at(text, i - 1));
                    assert(prev[j].offset < i - 1);
                }
            }
        } else {
            assert(cur =~= prev);
        }
    }
}

/// The token stream of any text has strictly increasing offsets.
pub proof fn lemma_tokens_of_increasing(text: Seq<u8>)
    requires
        text.len() <= usize::MAX,
    ensures
        offsets_increasing(tokens_of(text)),
{
    lemma_tokens_prefix_increasing(text, text.len() as int);
}

/// Newlines before a position never outnumber the bytes before it.
proof fn lemma_newline_count_le(text: Seq<u8>, i: int)
    requires
        0 <= i,
    ensures
        0 <= newline_count(text, i) <= i,
    decreases i,
{
    if i > 0 {
        lemma_newline_count_le(text, i - 1);
    }
}

/// A line never starts after the position it contains.
proof fn lemma_line_start_le(text: Seq<u8>, i: int)
    requires
        0 <= i,
    ensures
        0 <= line_start(text, i) <= i,
    decreases i,
{
    if i > 0 {
        lemma_line_start_le(text, i - 1);
    }
}

/// Scan raw text (as UTF-8 bytes) and return the ordered stream of bracket
/// tokens, each with its byte offset and line/column position. All other
/// bytes are skipped; the scan never fails.
pub fn bracket_lexer(text: &[u8]) -> (tokens: Vec<BracketToken>)
    ensures
        tokens@ == tokens_of(text@),
{
    let mut tokens: Vec<BracketToken> = Vec::new();
    let mut line: usize = 0;
    let mut column: usize = 0;
    let mut i: usize = 0;
    while i < text.len()
        invariant
            0 <= i <= text@.len(),
            tokens@ == tokens_prefix(text@, i as int),
            line == newline_count(text@, i as int),
            column == i - line_start(text@, i as int),
            decreases text@.len() - i,
    {
        proof {
            lemma_newline_count_le(text@, i as int);
            lemma_line_start_le(text@, i as int);
        }
        let b = text[i];
        if b == 40 || b == 41 || b == 91 || b == 93 || b == 123 || b == 125 {
            let kind = if b == 40 || b == 41 {
                BracketKind::Paren
            } else if b == 91 || b == 93 {
                BracketKind::Bracket
            } else {
                BracketKind::Brace
            };
            let open = b == 40 || b == 91 || b == 123;
            tokens.push(
                BracketToken { kind, open, offset: i, pos: CharPos { line, column } },
            );
            proof {
                assert(tokens@ =~= tokens_prefix(text@, i + 1));
            }
        } else {
            proof {
                assert(tokens@ =~= tokens_prefix(text@, i + 1));
            }
        }
        if b == 10 {
            line = line + 1;
            column = 0;
        } else {
            column = column + 1;
        }
        i = i + 1;
    }
    tokens
}

} // verus!
