//! Translation between byte-tree positions and editor code-unit offsets.
//!
//! The syntax tree addresses text in bytes; the editor addresses it in its
//! own code units. The host supplies the byte-to-code-unit translation,
//! which is partial; everything downstream of it — the window check that
//! excludes the synthetic id prefix of a source, the shift from local to
//! buffer offsets, and the dropping of entries whose translation failed —
//! is decided here. An entry that cannot be translated is dropped and the
//! rest of the operation proceeds: mid-edit input is the common case.

use vstd::prelude::*;

use crate::engine::HighlightSpan;
use crate::engine::SpanValue;
use crate::tree::span_values;

verus! {

/// Where a translated offset lands inside the highlight window, if it does:
/// offsets must fall between the end of the id prefix and the end of the
/// code region, and come out relative to the region's local origin.
pub open spec fn window_maps(raw: int, local_offset: int, id_length: int, code_length: int) -> Option<
    int,
> {
    if local_offset + id_length <= raw && raw <= local_offset + id_length + code_length {
        Option::Some(raw - local_offset)
    } else {
        Option::None
    }
}

/// Map a translated code-unit offset into the highlight window, dropping
/// offsets that fall outside it (in particular, inside the id prefix, which
/// is highlighted separately).
pub fn map_raw_offset(raw: usize, local_offset: usize, id_length: usize, code_length: usize) -> (r:
    Option<usize>)
    ensures
        match window_maps(raw as int, local_offset as int, id_length as int, code_length as int) {
            Option::Some(v) => r matches Some(u) && u == v,
            Option::None => r is None,
        },
{
    if raw < local_offset {
        return None;
    }
    let rel = raw - local_offset;
    if rel < id_length {
        return None;
    }
    if rel - id_length > code_length {
        return None;
    }
    Some(rel)
}

/// A local offset shifted to buffer coordinates, when the shift fits.
pub open spec fn editor_offset(local: int, start_offset: int) -> Option<int> {
    if local + start_offset <= usize::MAX {
        Option::Some(local + start_offset)
    } else {
        Option::None
    }
}

/// Shift a window-local offset to buffer coordinates; an offset that would
/// overflow the address space is dropped.
pub fn to_editor_offset(local: usize, start_offset: usize) -> (r: Option<usize>)
    ensures
        match editor_offset(local as int, start_offset as int) {
            Option::Some(v) => r matches Some(u) && u == v,
            Option::None => r is None,
        },
{
    if local <= usize::MAX - start_offset {
        Some(local + start_offset)
    } else {
        None
    }
}

/// The cursor's buffer offset expressed in window-local coordinates, when
/// the cursor sits at or after the region start and the shift fits.
pub open spec fn cursor_local(cursor: int, start: int, local: int) -> Option<int> {
    if cursor >= start && cursor - start + local <= usize::MAX {
        Option::Some(cursor - start + local)
    } else {
        Option::None
    }
}

/// Express the cursor's buffer offset in window-local coordinates.
pub fn cursor_local_offset(cursor_offset: usize, start_offset: usize, local_offset: usize) -> (r:
    Option<usize>)
    ensures
        match cursor_local(cursor_offset as int, start_offset as int, local_offset as int) {
            Option::Some(v) => r matches Some(u) && u == v,
            Option::None => r is None,
        },
{
    if cursor_offset < start_offset {
        return None;
    }
    let rel = cursor_offset - start_offset;
    if rel <= usize::MAX - local_offset {
        Some(rel + local_offset)
    } else {
        None
    }
}

/// How one bracket pair resolves to editor coordinates: both ends must have
/// translated (`None` marks a failed translation), both must fall inside the
/// highlight window, and both shifted offsets must fit; otherwise the pair
/// is dropped.
pub open spec fn pair_resolves(
    ends: (Option<usize>, Option<usize>),
    local_offset: int,
    id_length: int,
    code_length: int,
    start_offset: int,
) -> Option<(usize, usize)> {
    match ends {
        (Option::Some(a), Option::Some(b)) => {
            match (
                window_maps(a as int, local_offset, id_length, code_length),
                window_maps(b as int, local_offset, id_length, code_length),
            ) {
                (Option::Some(la), Option::Some(lb)) => {
                    match (
                        editor_offset(la, start_offset),
                        editor_offset(lb, start_offset),
                    ) {
                        (Option::Some(ca), Option::Some(cb)) => Option::Some(
                            (ca as usize, cb as usize),
                        ),
                        _ => Option::None,
                    }
                },
                _ => Option::None,
            }
        },
        _ => Option::None,
    }
}

/// The pairs that survive resolution, in order.
pub open spec fn resolved_pairs(
    ends: Seq<(Option<usize>, Option<usize>)>,
    i: int,
    local_offset: int,
    id_length: int,
    code_length: int,
    start_offset: int,
) -> Seq<(usize, usize)>
    decreases i,
{
    if i <= 0 {
        Seq::empty()
    } else {
        let rest = resolved_pairs(ends, i - 1, local_offset, id_length, code_length, start_offset);
        match pair_resolves(ends[i - 1], local_offset, id_length, code_length, start_offset) {
            Option::Some(p) => rest.push(p),
            Option::None => rest,
        }
    }
}

/// Resolve one pair of translated offsets to editor coordinates.
pub fn resolve_editor_pair(
    ends: (Option<usize>, Option<usize>),
    local_offset: usize,
    id_length: usize,
    code_length: usize,
    start_offset: usize,
) -> (r: Option<(usize, usize)>)
    ensures
        match pair_resolves(
            ends,
            local_offset as int,
            id_length as int,
            code_length as int,
            start_offset as int,
        ) {
            Option::Some(p) => r matches Some(q) && q == p,
            Option::None => r is None,
        },
{
    let (a, b) = ends;
    if let (Some(a), Some(b)) = (a, b) {
        let la = map_raw_offset(a, local_offset, id_length, code_length);
        let lb = map_raw_offset(b, local_offset, id_length, code_length);
        if let (Some(la), Some(lb)) = (la, lb) {
            let ca = to_editor_offset(la, start_offset);
            let cb = to_editor_offset(lb, start_offset);
            if let (Some(ca), Some(cb)) = (ca, cb) {
                return Some((ca, cb));
            }
        }
    }
    None
}

/// Resolve a pass's bracket pairs to editor coordinates. `ends` holds, for
/// each pair, the host-translated code-unit offsets of its two inner ends
/// (`None` where the translation failed). Pairs that fail translation, fall
/// outside the highlight window, or overflow are dropped; the rest come out
/// in order.
pub fn resolve_editor_pairs(
    ends: &Vec<(Option<usize>, Option<usize>)>,
    local_offset: usize,
    id_length: usize,
    code_length: usize,
    start_offset: usize,
) -> (pairs: Vec<(usize, usize)>)
    ensures
        pairs@ == resolved_pairs(
            ends@,
            ends@.len() as int,
            local_offset as int,
            id_length as int,
            code_length as int,
            start_offset as int,
        ),
{
    let mut pairs: Vec<(usize, usize)> = Vec::new();
    let mut i: usize = 0;
    while i < ends.len()
        invariant
            0 <= i <= ends@.len(),
            pairs@ == resolved_pairs(
                ends@,
                i as int,
                local_offset as int,
                id_length as int,
                code_length as int,
                start_offset as int,
            ),
        decreases ends@.len() - i,
    {
        match resolve_editor_pair(ends[i], local_offset, id_length, code_length, start_offset) {
            Some(p) => pairs.push(p),
            None => {},
        }
        i = i + 1;
    }
    pairs
}

/// The spans that survive resolution, in order: a span whose translated
/// range resolves keeps its tag under the resolved range; any other span
/// is dropped.
pub open spec fn resolved_spans(
    vals: Seq<SpanValue>,
    ends: Seq<(Option<usize>, Option<usize>)>,
    i: int,
    local_offset: int,
    id_length: int,
    code_length: int,
    start_offset: int,
) -> Seq<SpanValue>
    decreases i,
{
    if i <= 0 {
        Seq::empty()
    } else {
        let rest = resolved_spans(
            vals,
            ends,
            i - 1,
            local_offset,
            id_length,
            code_length,
            start_offset,
        );
        match pair_resolves(ends[i - 1], local_offset, id_length, code_length, start_offset) {
            Option::Some(p) => rest.push((p.0, p.1, vals[i - 1].2)),
            Option::None => rest,
        }
    }
}

/// Appending a span to a list appends its value.
proof fn lemma_span_values_push(v: Seq<HighlightSpan>, x: HighlightSpan)
    ensures
        span_values(v.push(x)) == span_values(v).push(x@),
{
    assert(span_values(v.push(x)) =~= span_values(v).push(x@));
}

/// Resolve a pass's highlight spans to editor coordinates. `ends` holds,
/// for each span, the host-translated code-unit offsets of its two range
/// ends (`None` where the translation failed). Spans that fail translation,
/// fall outside the highlight window, or overflow are dropped; the rest
/// keep their tags and come out in order.
pub fn resolve_editor_spans(
    spans: &Vec<HighlightSpan>,
    ends: &Vec<(Option<usize>, Option<usize>)>,
    local_offset: usize,
    id_length: usize,
    code_length: usize,
    start_offset: usize,
) -> (r: Vec<HighlightSpan>)
    requires
        spans@.len() == ends@.len(),
    ensures
        span_values(r@) == resolved_spans(
            span_values(spans@),
            ends@,
            ends@.len() as int,
            local_offset as int,
            id_length as int,
            code_length as int,
            start_offset as int,
        ),
{
    let mut r: Vec<HighlightSpan> = Vec::new();
    proof {
        assert(span_values(r@) =~= Seq::<SpanValue>::empty());
    }
    let mut i: usize = 0;
    while i < spans.len()
        invariant
            spans@.len() == ends@.len(),
            0 <= i <= spans@.len(),
            span_values(r@) == resolved_spans(
                span_values(spans@),
                ends@,
                i as int,
                local_offset as int,
                id_length as int,
                code_length as int,
                start_offset as int,
            ),
        decreases spans@.len() - i,
    {
        match resolve_editor_pair(ends[i], local_offset, id_length, code_length, start_offset) {
            Some(p) => {
                let ghost r_before = r@;
                r.push(HighlightSpan { start: p.0, end: p.1, tag: spans[i].tag.clone() });
                proof {
                    lemma_span_values_push(r_before, r@.last());
                    assert(r@ == r_before.push(r@.last()));
                    assert(span_values(spans@)[i as int].2 == spans@[i as int].tag@);
                }
            },
            None => {},
        }
        i = i + 1;
    }
    r
}

} // verus!
