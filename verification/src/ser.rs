//! Plain serialisation records for bracket pairs, definitions,
//! diagnostics and packages.
//!
//! These are the records the host renders; each is built from plain values
//! by a constructor whose contract pins every field.

use vstd::prelude::*;
use vstd::string::StringExecFns;

use crate::lexer::BracketKind;
use crate::lexer::CharPos;
use crate::package::version_digits;
use crate::package::version_string;
use crate::parser::BracketPair;

verus! {

/// A resolved bracket pair, flattened for the host: the family name, the
/// nesting depth, and the offset and line/column position of each
/// delimiter.
#[derive(Debug)]
pub struct BracketPairSer {
    pub kind: String,
    pub depth: usize,
    pub open_offset: usize,
    pub open_pos: CharPos,
    pub close_offset: usize,
    pub close_pos: CharPos,
}

/// The family name a pair is rendered under.
pub open spec fn kind_text(k: BracketKind) -> Seq<char> {
    match k {
        BracketKind::Paren => "paren"@,
        BracketKind::Bracket => "bracket"@,
        BracketKind::Brace => "brace"@,
    }
}

impl BracketPairSer {
    /// Flatten a resolved pair.
    pub fn from_pair(pair: &BracketPair) -> (r: BracketPairSer)
        ensures
            r.kind@ == kind_text(pair.kind),
            r.depth == pair.depth,
            r.open_offset == pair.open.offset,
            r.open_pos == pair.open.pos,
            r.close_offset == pair.close.offset,
            r.close_pos == pair.close.pos,
    {
        let kind = match pair.kind {
            BracketKind::Paren => String::from_str("paren"),
            BracketKind::Bracket => String::from_str("bracket"),
            BracketKind::Brace => String::from_str("brace"),
        };
        BracketPairSer {
            kind,
            depth: pair.depth,
            open_offset: pair.open.offset,
            open_pos: pair.open.pos,
            close_offset: pair.close.offset,
            close_pos: pair.close.pos,
        }
    }
}

/// Flatten a whole pair list, in order.
pub fn bracket_pairs_ser(pairs: &Vec<BracketPair>) -> (r: Vec<BracketPairSer>)
    ensures
        r@.len() == pairs@.len(),
        forall|i: int|
            0 <= i < pairs@.len() ==> {
                let s = #[trigger] r@[i];
                &&& s.kind@ == kind_text(pairs@[i].kind)
                &&& s.depth == pairs@[i].depth
                &&& s.open_offset == pairs@[i].open.offset
                &&& s.open_pos == pairs@[i].open.pos
                &&& s.close_offset == pairs@[i].close.offset
                &&& s.close_pos == pairs@[i].close.pos
            },
{
    let mut r: Vec<BracketPairSer> = Vec::new();
    let mut i: usize = 0;
    while i < pairs.len()
        invariant
            0 <= i <= pairs@.len(),
            r@.len() == i,
            forall|j: int|
                0 <= j < i ==> {
                    let s = #[trigger] r@[j];
                    &&& s.kind@ == kind_text(pairs@[j].kind)
                    &&& s.depth == pairs@[j].depth
                    &&& s.open_offset == pairs@[j].open.offset
                    &&& s.open_pos == pairs@[j].open.pos
                    &&& s.close_offset == pairs@[j].close.offset
                    &&& s.close_pos == pairs@[j].close.pos
                },
        decreases pairs@.len() - i,
    {
        r.push(BracketPairSer::from_pair(&pairs[i]));
        i = i + 1;
    }
    r
}

/// A definition that resolves to a span of a source file: the file's full
/// text and the code-unit range of the definition.
#[derive(Debug)]
pub struct SpanSer {
    pub content: String,
    pub start: usize,
    pub end: usize,
}

/// One trace step of a diagnostic: the byte range it points at and its
/// rendered point.
#[derive(Debug)]
pub struct TraceSer {
    pub span: (usize, usize),
    pub point: String,
}

/// A diagnostic, flattened for the host: severity, code-unit range,
/// message, trace and hints.
#[derive(Debug)]
pub struct SourceDiagnosticSer {
    pub severity: String,
    pub from: usize,
    pub to: usize,
    pub message: String,
    pub trace: Vec<TraceSer>,
    pub hints: Vec<String>,
}

impl SourceDiagnosticSer {
    /// Assemble a diagnostic record; the severity renders as `error` or
    /// `warning`.
    pub fn from_parts(
        is_error: bool,
        from: usize,
        to: usize,
        message: String,
        trace: Vec<TraceSer>,
        hints: Vec<String>,
    ) -> (r: SourceDiagnosticSer)
        ensures
            r.severity@ == (if is_error {
                "error"@
            } else {
                "warning"@
            }),
            r.from == from,
            r.to == to,
            r.message@ == message@,
            r.trace == trace,
            r.hints == hints,
    {
        let severity = if is_error {
            String::from_str("error")
        } else {
            String::from_str("warning")
        };
        SourceDiagnosticSer { severity, from, to, message, trace, hints }
    }
}

/// A package identifier, flattened for the host: namespace, name, and the
/// version as `major.minor.patch`.
#[derive(Debug)]
pub struct PackageSpecSer {
    pub namespace: String,
    pub name: String,
    pub version: String,
}

impl PackageSpecSer {
    /// Assemble a package record from its plain parts.
    pub fn from_parts(namespace: String, name: String, major: u32, minor: u32, patch: u32) -> (r:
        PackageSpecSer)
        ensures
            r.namespace@ == namespace@,
            r.name@ == name@,
            r.version@ == version_digits(major as int, minor as int, patch as int),
    {
        PackageSpecSer { namespace, name, version: version_string(major, minor, patch) }
    }
}

} // verus!
