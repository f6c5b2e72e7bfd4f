//! The stateful highlight diff engine.
//!
//! The engine retains the snapshot produced by the previous extraction pass
//! and, given the next snapshot, emits a minimal change set: the spans to add
//! (those in the new snapshot but not the old) and the spans to remove (those
//! in the old snapshot but not the new). Spans are compared by value — a
//! span is its byte range plus its tag — and identical spans collapse to one
//! entry. The cursor-dependent enclosing-bracket decoration is handled
//! specially: because it tracks the cursor rather than the text, the current
//! decoration is always emitted as an add and the previous one as a remove,
//! whether or not the underlying pair changed — except that no value ever
//! stands in both lists: a value being added is never also removed, so a
//! host may apply the adds and the removes in either order. The engine also
//! retains the bracket-pair set of the last pass so the innermost pair
//! enclosing a cursor can be queried between passes. Absence of a previous
//! snapshot is a valid state, not an error: the first call adds everything
//! and removes nothing.

use vstd::prelude::*;
use vstd::string::StringExecFns;

verus! {

/// The value a span is compared by: start offset, end offset, tag text.
pub type SpanValue = (usize, usize, Seq<char>);

/// A tagged highlight span over a half-open byte interval.
#[derive(Debug)]
pub struct HighlightSpan {
    pub start: usize,
    pub end: usize,
    pub tag: String,
}

impl View for HighlightSpan {
    type V = SpanValue;

    open spec fn view(&self) -> SpanValue {
        (self.start, self.end, self.tag@)
    }
}

impl HighlightSpan {
    /// Value equality: same range and same tag text.
    pub fn eq_span(&self, other: &HighlightSpan) -> (r: bool)
        ensures
            r == (self@ == other@),
    {
        self.start == other.start && self.end == other.end && self.tag == other.tag
    }

    /// A copy with the same value.
    pub fn duplicate(&self) -> (r: HighlightSpan)
        ensures
            r@ == self@,
    {
        HighlightSpan { start: self.start, end: self.end, tag: self.tag.clone() }
    }
}

/// Whether some span in the sequence has value `v`.
pub open spec fn spans_contain(s: Seq<HighlightSpan>, v: SpanValue) -> bool {
    exists|i: int| 0 <= i < s.len() && (#[trigger] s[i])@ == v
}

/// The set of span values occurring in a sequence.
pub open spec fn span_set(s: Seq<HighlightSpan>) -> Set<SpanValue> {
    Set::new(|v: SpanValue| spans_contain(s, v))
}

/// No two spans in the sequence share a value.
pub open spec fn spans_distinct(s: Seq<HighlightSpan>) -> bool {
    forall|i: int, j: int|
        #![trigger s[i], s[j]]
        0 <= i < j < s.len() ==> s[i]@ != s[j]@
}

/// The adds of a diff: values of the new snapshot absent from the old.
pub open spec fn diff_adds(prev: Set<SpanValue>, cur: Set<SpanValue>) -> Set<SpanValue> {
    cur.difference(prev)
}

/// The removes of a diff: values of the old snapshot absent from the new.
pub open spec fn diff_removes(prev: Set<SpanValue>, cur: Set<SpanValue>) -> Set<SpanValue> {
    prev.difference(cur)
}

/// The tag carried by the enclosing-bracket decoration spans.
pub open spec fn enclosing_tag() -> Seq<char> {
    "typ-enclosing"@
}

/// The decoration spans for an enclosing pair `(s, e)`, where `s` is the
/// offset just right of the opening delimiter and `e` the offset just left
/// of the closing one: one one-character span over each delimiter. A span
/// whose range would fall outside the address space is dropped.
pub open spec fn deco_values(enc: Option<(usize, usize)>) -> Set<SpanValue> {
    match enc {
        Option::None => Set::empty(),
        Option::Some((s, e)) => {
            let left: Set<SpanValue> = if s >= 1 {
                Set::empty().insert(((s - 1) as usize, s, enclosing_tag()))
            } else {
                Set::empty()
            };
            let right: Set<SpanValue> = if e < usize::MAX {
                Set::empty().insert((e, (e + 1) as usize, enclosing_tag()))
            } else {
                Set::empty()
            };
            left.union(right)
        },
    }
}

/// A value-based change set: the spans the host must start rendering and the
/// spans it must stop rendering.
#[derive(Debug)]
pub struct HighlightChanges {
    pub adds: Vec<HighlightSpan>,
    pub removes: Vec<HighlightSpan>,
}

/// First snapshot ever: everything is added, nothing is removed.
pub proof fn lemma_diff_from_empty(cur: Set<SpanValue>)
    ensures
        diff_adds(Set::empty(), cur) == cur,
        diff_removes(Set::empty(), cur) == Set::<SpanValue>::empty(),
{
    assert(diff_adds(Set::empty(), cur) =~= cur);
    assert(diff_removes(Set::empty(), cur) =~= Set::<SpanValue>::empty());
}

/// An unchanged snapshot diffs to no changes at all.
pub proof fn lemma_diff_no_change(s: Set<SpanValue>)
    ensures
        diff_adds(s, s) == Set::<SpanValue>::empty(),
        diff_removes(s, s) == Set::<SpanValue>::empty(),
{
    assert(diff_adds(s, s) =~= Set::<SpanValue>::empty());
    assert(diff_removes(s, s) =~= Set::<SpanValue>::empty());
}

/// Applying a diff to a mirror of the old snapshot — inserting every add,
/// then deleting every remove — reproduces exactly the new snapshot.
pub proof fn lemma_diff_round_trip(prev: Set<SpanValue>, cur: Set<SpanValue>)
    ensures
        prev.union(diff_adds(prev, cur)).difference(diff_removes(prev, cur)) == cur,
{
    assert(prev.union(diff_adds(prev, cur)).difference(diff_removes(prev, cur)) =~= cur);
}

/// Membership in a span sequence, decided by linear scan.
fn contains_span(v: &Vec<HighlightSpan>, x: &HighlightSpan) -> (r: bool)
    ensures
        r == spans_contain(v@, x@),
{
    let mut i: usize = 0;
    while i < v.len()
        invariant
            0 <= i <= v@.len(),
            forall|j: int| 0 <= j < i ==> (#[trigger] v@[j])@ != x@,
        decreases v@.len() - i,
    {
        if v[i].eq_span(x) {
            assert((v@[i as int])@ == x@);
            return true;
        }
        i = i + 1;
    }
    false
}

/// The stateful diff engine. It exclusively owns the previously retained
/// snapshot: the spans of the last pass, the enclosing-bracket decoration it
/// emitted, and the bracket pairs of the last pass (in editor offsets, for
/// cursor queries between passes).
pub struct HighlightDiffEngine {
    prev_spans: Vec<HighlightSpan>,
    prev_enclosing: Option<(usize, usize)>,
    last_bracket_pairs: Vec<(usize, usize)>,
}

impl HighlightDiffEngine {
    /// The values of the retained snapshot.
    pub closed spec fn prev_values(&self) -> Set<SpanValue> {
        span_set(self.prev_spans@)
    }

    /// The enclosing pair retained from the last pass, if any.
    pub closed spec fn retained_enclosing(&self) -> Option<(usize, usize)> {
        self.prev_enclosing
    }

    /// The bracket pairs retained from the last pass.
    pub closed spec fn retained_pairs(&self) -> Seq<(usize, usize)> {
        self.last_bracket_pairs@
    }

    /// A fresh engine with no retained snapshot.
    pub fn new() -> (engine: HighlightDiffEngine)
        ensures
            engine.prev_values() == Set::<SpanValue>::empty(),
            engine.retained_enclosing() is None,
            engine.retained_pairs() == Seq::<(usize, usize)>::empty(),
    {
        let engine = HighlightDiffEngine {
            prev_spans: Vec::new(),
            prev_enclosing: None,
            last_bracket_pairs: Vec::new(),
        };
        proof {
            assert(engine.prev_values() =~= Set::<SpanValue>::empty());
        }
        engine
    }

    /// Discard all retained state. The next diff then behaves exactly like a
    /// first-ever call: it adds the whole new snapshot and removes nothing.
    pub fn reset_highlights(&mut self)
        ensures
            final(self).prev_values() == Set::<SpanValue>::empty(),
            final(self).retained_enclosing() is None,
            final(self).retained_pairs() == Seq::<(usize, usize)>::empty(),
    {
        self.prev_spans = Vec::new();
        self.prev_enclosing = None;
        self.last_bracket_pairs = Vec::new();
        proof {
            assert(self.prev_values() =~= Set::<SpanValue>::empty());
        }
    }

    /// The innermost retained pair enclosing a cursor offset: among the pairs
    /// of the last pass that enclose the cursor (inclusive at both ends), the
    /// first one whose opening offset is largest. `None` exactly when no
    /// retained pair encloses the cursor; otherwise the result is the one
    /// determined pair, so repeated queries between diffs always agree.
    pub fn get_cursor_enclosing_bracket(&self, cm_offset: usize) -> (r: Option<(usize, usize)>)
        ensures
            (r is None) <==> (forall|j: int|
                0 <= j < self.retained_pairs().len() ==> !{
                    let p = #[trigger] self.retained_pairs()[j];
                    p.0 <= cm_offset <= p.1
                }),
            r matches Some(p) ==> (exists|j: int|
                {
                    &&& 0 <= j < self.retained_pairs().len()
                    &&& self.retained_pairs()[j] == p
                    &&& p.0 <= cm_offset <= p.1
                    &&& forall|k: int|
                        0 <= k < self.retained_pairs().len() && {
                            let q = #[trigger] self.retained_pairs()[k];
                            q.0 <= cm_offset <= q.1
                        } ==> self.retained_pairs()[k].0 <= p.0
                    &&& forall|k: int|
                        0 <= k < j && {
                            let q = #[trigger] self.retained_pairs()[k];
                            q.0 <= cm_offset <= q.1
                        } ==> self.retained_pairs()[k].0 < p.0
                }),
    {
        let mut best: Option<(usize, usize)> = None;
        let ghost mut best_j: int = 0;
        let mut i: usize = 0;
        while i < self.last_bracket_pairs.len()
            invariant
                0 <= i <= self.retained_pairs().len(),
                (best is None) <==> (forall|j: int|
                    0 <= j < i ==> !{
                        let p = #[trigger] self.retained_pairs()[j];
                        p.0 <= cm_offset <= p.1
                    }),
                best matches Some(p) ==> {
                    &&& 0 <= best_j < i
                    &&& self.retained_pairs()[best_j] == p
                    &&& p.0 <= cm_offset <= p.1
                    &&& forall|k: int|
                        0 <= k < i && {
                            let q = #[trigger] self.retained_pairs()[k];
                            q.0 <= cm_offset <= q.1
                        } ==> self.retained_pairs()[k].0 <= p.0
                    &&& forall|k: int|
                        0 <= k < best_j && {
                            let q = #[trigger] self.retained_pairs()[k];
                            q.0 <= cm_offset <= q.1
                        } ==> self.retained_pairs()[k].0 < p.0
                },
            decreases self.retained_pairs().len() - i,
        {
            let (start, end) = self.last_bracket_pairs[i];
            if start <= cm_offset && cm_offset <= end {
                match best {
                    Some(b) => {
                        if b.0 < start {
                            best = Some((start, end));
                            proof {
                                best_j = i as int;
                            }
                        }
                    },
                    None => {
                        best = Some((start, end));
                        proof {
                            best_j = i as int;
                        }
                    },
                }
            }
            i = i + 1;
        }
        best
    }

    /// Diff the new snapshot against the retained one and retain the new one.
    ///
    /// `current` is the span snapshot of this pass, `new_pairs` the bracket
    /// pairs of this pass (both in whatever coordinates the caller resolved
    /// them to), and `enclosing` the enclosing-bracket pair at the current
    /// cursor, if any. The adds are exactly the values of `current` absent
    /// from the retained snapshot, plus the decoration spans of `enclosing`;
    /// the removes are exactly the retained values absent from `current`,
    /// plus the decoration spans retained from the previous call — minus
    /// any value that is being added, so the two lists never share a value.
    /// Neither list repeats a value.
    pub fn highlight(
        &mut self,
        current: Vec<HighlightSpan>,
        new_pairs: Vec<(usize, usize)>,
        enclosing: Option<(usize, usize)>,
    ) -> (changes: HighlightChanges)
        ensures
            span_set(changes.adds@) == diff_adds(
                old(self).prev_values(),
                span_set(current@),
            ).union(deco_values(enclosing)),
            span_set(changes.removes@) == diff_removes(
                old(self).prev_values(),
                span_set(current@),
            ).union(deco_values(old(self).retained_enclosing())).difference(
                span_set(changes.adds@),
            ),
            spans_distinct(changes.adds@),
            spans_distinct(changes.removes@),
            final(self).prev_values() == span_set(current@),
            final(self).retained_enclosing() == enclosing,
            final(self).retained_pairs() == new_pairs@,
    {
        let ghost prev_values = span_set(self.prev_spans@);
        let ghost cur_values = span_set(current@);

        // Adds: values of the new snapshot missing from the old.
        let mut adds: Vec<HighlightSpan> = Vec::new();
        let mut i: usize = 0;
        while i < current.len()
            invariant
                0 <= i <= current@.len(),
                spans_distinct(adds@),
                forall|v: SpanValue|
                    #[trigger] spans_contain(adds@, v) <==> (spans_contain(
                        current@.subrange(0, i as int),
                        v,
                    ) && !prev_values.contains(v)),
                prev_values == span_set(self.prev_spans@),
            decreases current@.len() - i,
        {
            let c = &current[i];
            let in_prev = contains_span(&self.prev_spans, c);
            let in_adds = contains_span(&adds, c);
            let ghost adds_before = adds@;
            if !in_prev && !in_adds {
                adds.push(c.duplicate());
            }
            proof {
                assert(current@.subrange(0, i + 1) =~= current@.subrange(0, i as int).push(
                    current@[i as int],
                ));
                assert forall|v: SpanValue| #[trigger]
                    spans_contain(adds@, v) <==> (spans_contain(current@.subrange(0, i + 1), v)
                    && !prev_values.contains(v)) by {
                    lemma_spans_contain_push(
                        current@.subrange(0, i as int),
                        current@[i as int],
                        v,
                    );
                    if !in_prev && !in_adds {
                        lemma_spans_contain_push(adds_before, adds@.last(), v);
                        assert(adds@ == adds_before.push(adds@.last()));
                    }
                }
            }
            i = i + 1;
        }
        proof {
            assert(current@.subrange(0, current@.len() as int) =~= current@);
        }

        // The decoration over the current enclosing pair is always added.
        push_deco_spans(&mut adds, enclosing);
        proof {
            assert(span_set(adds@) =~= diff_adds(prev_values, cur_values).union(
                deco_values(enclosing),
            ));
        }
        let ghost add_values = span_set(adds@);

        // Removes: values of the old snapshot missing from the new, except
        // those that are being added at the same time.
        let mut removes: Vec<HighlightSpan> = Vec::new();
        let mut k: usize = 0;
        while k < self.prev_spans.len()
            invariant
                0 <= k <= self.prev_spans@.len(),
                spans_distinct(removes@),
                forall|v: SpanValue|
                    #[trigger] spans_contain(removes@, v) <==> (spans_contain(
                        self.prev_spans@.subrange(0, k as int),
                        v,
                    ) && !cur_values.contains(v) && !add_values.contains(v)),
                prev_values == span_set(self.prev_spans@),
                cur_values == span_set(current@),
                add_values == span_set(adds@),
            decreases self.prev_spans@.len() - k,
        {
            let p = &self.prev_spans[k];
            let in_cur = contains_span(&current, p);
            let in_adds = contains_span(&adds, p);
            let in_removes = contains_span(&removes, p);
            let ghost removes_before = removes@;
            if !in_cur && !in_adds && !in_removes {
                removes.push(p.duplicate());
            }
            proof {
                assert(self.prev_spans@.subrange(0, k + 1) =~= self.prev_spans@.subrange(
                    0,
                    k as int,
                ).push(self.prev_spans@[k as int]));
                assert forall|v: SpanValue| #[trigger]
                    spans_contain(removes@, v) <==> (spans_contain(
                    self.prev_spans@.subrange(0, k + 1),
                    v,
                ) && !cur_values.contains(v) && !add_values.contains(v)) by {
                    lemma_spans_contain_push(
                        self.prev_spans@.subrange(0, k as int),
                        self.prev_spans@[k as int],
                        v,
                    );
                    if !in_cur && !in_adds && !in_removes {
                        lemma_spans_contain_push(removes_before, removes@.last(), v);
                        assert(removes@ == removes_before.push(removes@.last()));
                    }
                }
            }
            k = k + 1;
        }
        proof {
            assert(self.prev_spans@.subrange(0, self.prev_spans@.len() as int)
                =~= self.prev_spans@);
        }

        // The decoration of the previous pass is removed, unless its spans
        // are being added again right now.
        push_deco_spans_excluding(&mut removes, self.prev_enclosing, &adds);

        proof {
            assert(span_set(removes@) =~= diff_removes(prev_values, cur_values).union(
                deco_values(self.prev_enclosing),
            ).difference(span_set(adds@)));
        }

        self.prev_spans = current;
        self.prev_enclosing = enclosing;
        self.last_bracket_pairs = new_pairs;
        HighlightChanges { adds, removes }
    }
}

/// A value occurs in a pushed sequence exactly when it occurs in the base or
/// is the pushed span's value.
proof fn lemma_spans_contain_push(s: Seq<HighlightSpan>, x: HighlightSpan, v: SpanValue)
    ensures
        spans_contain(s.push(x), v) <==> (spans_contain(s, v) || x@ == v),
{
    let sp = s.push(x);
    if spans_contain(sp, v) {
        let i = choose|i: int| 0 <= i < sp.len() && (#[trigger] sp[i])@ == v;
        if i < s.len() {
            assert(s[i]@ == v);
        } else {
            assert(sp[i] == x);
        }
    }
    if spans_contain(s, v) {
        let i = choose|i: int| 0 <= i < s.len() && (#[trigger] s[i])@ == v;
        assert(sp[i]@ == v);
    }
    if x@ == v {
        assert(sp[s.len() as int]@ == v);
    }
}

/// Append the decoration spans of an enclosing pair, skipping values already
/// present so the list stays duplicate-free.
fn push_deco_spans(spans: &mut Vec<HighlightSpan>, enc: Option<(usize, usize)>)
    ensures
        span_set(final(spans)@) == span_set(old(spans)@).union(deco_values(enc)),
        spans_distinct(old(spans)@) ==> spans_distinct(final(spans)@),
{
    let ghost base = spans@;
    if let Some((s, e)) = enc {
        if s >= 1 {
            let d = HighlightSpan {
                start: s - 1,
                end: s,
                tag: String::from_str("typ-enclosing"),
            };
            if !contains_span(spans, &d) {
                let ghost before = spans@;
                spans.push(d);
                proof {
                    assert forall|v: SpanValue| #[trigger]
                        spans_contain(spans@, v) <==> (spans_contain(before, v) || spans@.last()@
                        == v) by {
                        lemma_spans_contain_push(before, spans@.last(), v);
                        assert(spans@ == before.push(spans@.last()));
                    }
                }
            }
        }
        if e < usize::MAX {
            let d = HighlightSpan {
                start: e,
                end: e + 1,
                tag: String::from_str("typ-enclosing"),
            };
            if !contains_span(spans, &d) {
                let ghost before = spans@;
                spans.push(d);
                proof {
                    assert forall|v: SpanValue| #[trigger]
                        spans_contain(spans@, v) <==> (spans_contain(before, v) || spans@.last()@
                        == v) by {
                        lemma_spans_contain_push(before, spans@.last(), v);
                        assert(spans@ == before.push(spans@.last()));
                    }
                }
            }
        }
    }
    proof {
        assert(span_set(spans@) =~= span_set(base).union(deco_values(enc)));
    }
}


/// Append the decoration spans of an enclosing pair, skipping values on the
/// exclusion list and values already present, so the list stays
/// duplicate-free and disjoint from the exclusion list's values.
fn push_deco_spans_excluding(
    spans: &mut Vec<HighlightSpan>,
    enc: Option<(usize, usize)>,
    exclude: &Vec<HighlightSpan>,
)
    ensures
        span_set(final(spans)@) == span_set(old(spans)@).union(
            deco_values(enc).difference(span_set(exclude@)),
        ),
        spans_distinct(old(spans)@) ==> spans_distinct(final(spans)@),
{
    let ghost base = spans@;
    if let Some((s, e)) = enc {
        if s >= 1 {
            let d = HighlightSpan {
                start: s - 1,
                end: s,
                tag: String::from_str("typ-enclosing"),
            };
            if !contains_span(exclude, &d) && !contains_span(spans, &d) {
                let ghost before = spans@;
                spans.push(d);
                proof {
                    assert forall|v: SpanValue| #[trigger]
                        spans_contain(spans@, v) <==> (spans_contain(before, v) || spans@.last()@
                        == v) by {
                        lemma_spans_contain_push(before, spans@.last(), v);
                        assert(spans@ == before.push(spans@.last()));
                    }
                }
            }
        }
        if e < usize::MAX {
            let d = HighlightSpan {
                start: e,
                end: e + 1,
                tag: String::from_str("typ-enclosing"),
            };
            if !contains_span(exclude, &d) && !contains_span(spans, &d) {
                let ghost before = spans@;
                spans.push(d);
                proof {
                    assert forall|v: SpanValue| #[trigger]
                        spans_contain(spans@, v) <==> (spans_contain(before, v) || spans@.last()@
                        == v) by {
                        lemma_spans_contain_push(before, spans@.last(), v);
                        assert(spans@ == before.push(spans@.last()));
                    }
                }
            }
        }
    }
    proof {
        assert(span_set(spans@) =~= span_set(base).union(
            deco_values(enc).difference(span_set(exclude@)),
        ));
    }
}

/// Every decoration value carries the decoration tag.
pub proof fn lemma_deco_values_tagged(enc: Option<(usize, usize)>, v: SpanValue)
    requires
        deco_values(enc).contains(v),
    ensures
        v.2 == enclosing_tag(),
{
}

/// Applying a decorated change set to a mirror of the previous pass —
/// inserting every add, then deleting every remove, or the other way
/// around, since the lists share no value — turns the previous snapshot
/// with its decoration into the new snapshot with its decoration. This
/// holds whenever the snapshots themselves carry no span tagged as the
/// decoration; the classifier never emits that tag.
pub proof fn lemma_decorated_round_trip(
    prev: Set<SpanValue>,
    cur: Set<SpanValue>,
    enc_prev: Option<(usize, usize)>,
    enc_new: Option<(usize, usize)>,
)
    requires
        forall|v: SpanValue| prev.contains(v) ==> (#[trigger] v.2) != enclosing_tag(),
        forall|v: SpanValue| cur.contains(v) ==> (#[trigger] v.2) != enclosing_tag(),
    ensures
        ({
            let adds = diff_adds(prev, cur).union(deco_values(enc_new));
            let removes = diff_removes(prev, cur).union(deco_values(enc_prev)).difference(adds);
            prev.union(deco_values(enc_prev)).union(adds).difference(removes) == cur.union(
                deco_values(enc_new),
            )
        }),
{
    let adds = diff_adds(prev, cur).union(deco_values(enc_new));
    let removes = diff_removes(prev, cur).union(deco_values(enc_prev)).difference(adds);
    let mirror = prev.union(deco_values(enc_prev)).union(adds).difference(removes);
    assert forall|v: SpanValue| mirror.contains(v) <==> cur.union(deco_values(enc_new)).contains(
        v,
    ) by {
        if deco_values(enc_prev).contains(v) {
            lemma_deco_values_tagged(enc_prev, v);
        }
        if deco_values(enc_new).contains(v) {
            lemma_deco_values_tagged(enc_new, v);
        }
    }
    assert(mirror =~= cur.union(deco_values(enc_new)));
}

} // verus!
