use rangemap::RangeMap;
use std::ops::Range;
use vstd::prelude::*;

use crate::attrs::{raw_spacing, Attrs, AttrsModel, AttrsOwned};

verus! {

/// `rangemap::RangeMap`, opaque to contracts: `span_points` names what a map
/// of attribute spans holds.
#[verifier::external_type_specification]
#[verifier::external_body]
#[verifier::reject_recursive_types(K)]
#[verifier::reject_recursive_types(V)]
pub struct ExRangeMap<K, V>(RangeMap<K, V>);

/// The attributes that a span map holds for each index its ranges cover.
pub uninterp spec fn span_points(m: RangeMap<usize, AttrsOwned>) -> Map<usize, AttrsModel>;

/// The bits of the letter spacing, exactly as stored, of the attributes that
/// a span map holds for each index its ranges cover.
pub uninterp spec fn span_spacings(m: RangeMap<usize, AttrsOwned>) -> Map<usize, Option<u32>>;

/// The map that holds no index.
pub open spec fn no_points() -> Map<usize, AttrsModel> {
    Map::empty()
}

/// The map of letter spacings that holds no index.
pub open spec fn no_spacings() -> Map<usize, Option<u32>> {
    Map::empty()
}

/// The map that sends each index of `start..end` to `v`.
pub open spec fn range_points(start: usize, end: usize, v: AttrsModel) -> Map<usize, AttrsModel> {
    Map::new(|k: usize| start <= k < end, |k: usize| v)
}

/// `m` without the indices of `start..end`.
pub open spec fn without_range(m: Map<usize, AttrsModel>, start: usize, end: usize) -> Map<
    usize,
    AttrsModel,
> {
    Map::new(|k: usize| m.contains_key(k) && !(start <= k < end), |k: usize| m[k])
}

/// `k` lies outside `start..end`, and every index between `k` and that range
/// is held by `points` with the attributes `v`: a stored range that reaches
/// `k` touches or overlaps the range and holds attributes equal to `v`.
pub open spec fn adjoins(points: Map<usize, AttrsModel>, k: usize, start: usize, end: usize, v: AttrsModel) -> bool {
    ||| k < start && forall|j: usize|
        k <= j < start ==> #[trigger] points.contains_key(j) && points[j] == v
    ||| end <= k && forall|j: usize|
        end <= j <= k ==> #[trigger] points.contains_key(j) && points[j] == v
}

/// Each index that a listed span covers has the stored letter spacing of that span.
pub open spec fn spans_spacings(s: Seq<(&Range<usize>, &AttrsOwned)>, spacings: Map<usize, Option<u32>>) -> bool {
    forall|i: int, k: usize|
        0 <= i < s.len() && (#[trigger] s[i]).0.start <= k < s[i].0.end ==> #[trigger] spacings[k]
            == raw_spacing(s[i].1.letter_spacing_opt)
}

/// `s` lists the spans of `points` in order: non-empty ranges, each ending
/// at or before the next one starts, covering exactly the indices that
/// `points` holds, each with the attributes that `points` holds there, and
/// two ranges that touch hold different attributes (touching ranges with
/// equal attributes come merged into one).
pub open spec fn spans_describe(s: Seq<(&Range<usize>, &AttrsOwned)>, points: Map<usize, AttrsModel>) -> bool {
    &&& forall|i: int| 0 <= i < s.len() ==> (#[trigger] s[i]).0.start < s[i].0.end
    &&& forall|i: int|
        0 <= i < s.len() - 1 && (#[trigger] s[i]).0.end == s[i + 1].0.start ==> s[i].1@ != s[i
            + 1].1@
    &&& forall|i: int, j: int|
        0 <= i < j < s.len() ==> (#[trigger] s[i]).0.end <= (#[trigger] s[j]).0.start
    &&& forall|k: usize|
        #[trigger] points.contains_key(k) <==> exists|i: int|
            0 <= i < s.len() && (#[trigger] s[i]).0.start <= k < s[i].0.end
    &&& forall|i: int, k: usize|
        0 <= i < s.len() && (#[trigger] s[i]).0.start <= k < s[i].0.end ==> #[trigger] points[k]
            == s[i].1@
}

/// Two listings of the same points that agree before `i` agree at `i`.
proof fn lemma_listing_step(
    s: Seq<(&Range<usize>, &AttrsOwned)>,
    t: Seq<(&Range<usize>, &AttrsOwned)>,
    points: Map<usize, AttrsModel>,
    i: int,
)
    requires
        spans_describe(s, points),
        spans_describe(t, points),
        0 <= i < s.len(),
        i < t.len(),
        forall|j: int| 0 <= j < i ==> (#[trigger] s[j]).0 == t[j].0,
    ensures
        s[i].0 == t[i].0,
        s[i].1@ == t[i].1@,
{
    let (a, b) = (s[i].0.start, s[i].0.end);
    let (c, d) = (t[i].0.start, t[i].0.end);
    // The starts agree: the earlier start is covered by the other listing.
    if a < c {
        assert(points.contains_key(a));
        let k = choose|k: int| 0 <= k < t.len() && (#[trigger] t[k]).0.start <= a < t[k].0.end;
        if k < i {
            assert(s[k].0 == t[k].0);
            assert(s[k].0.end <= s[i].0.start);
        } else if k > i {
            assert(t[i].0.end <= t[k].0.start);
        }
    }
    if c < a {
        assert(points.contains_key(c));
        let k = choose|k: int| 0 <= k < s.len() && (#[trigger] s[k]).0.start <= c < s[k].0.end;
        if k < i {
            assert(s[k].0 == t[k].0);
            assert(t[k].0.end <= t[i].0.start);
        } else if k > i {
            assert(s[i].0.end <= s[k].0.start);
        }
    }
    assert(a == c);
    assert(points[a] == s[i].1@);
    assert(points[a] == t[i].1@);
    // The ends agree: past the shorter range, the next range of its listing
    // would have to touch it with the same attributes.
    if b < d {
        assert(points.contains_key(b));
        assert(points[b] == t[i].1@);
        assert(points[(b - 1) as usize] == s[i].1@);
        assert(points[(b - 1) as usize] == t[i].1@);
        let k = choose|k: int| 0 <= k < s.len() && (#[trigger] s[k]).0.start <= b < s[k].0.end;
        if k < i {
            assert(s[k].0.end <= s[i].0.start);
        } else if k > i + 1 {
            assert(s[i].0.end <= s[i + 1].0.start);
            assert(s[i + 1].0.end <= s[k].0.start);
        } else if k == i + 1 {
            assert(s[i].0.end <= s[i + 1].0.start);
            assert(points[b] == s[k].1@);
        }
    }
    if d < b {
        assert(points.contains_key(d));
        assert(points[d] == s[i].1@);
        assert(points[(d - 1) as usize] == t[i].1@);
        assert(points[(d - 1) as usize] == s[i].1@);
        let k = choose|k: int| 0 <= k < t.len() && (#[trigger] t[k]).0.start <= d < t[k].0.end;
        if k < i {
            assert(s[k].0 == t[k].0);
            assert(t[k].0.end <= t[i].0.start);
        } else if k > i + 1 {
            assert(t[i].0.end <= t[i + 1].0.start);
            assert(t[i + 1].0.end <= t[k].0.start);
        } else if k == i + 1 {
            assert(t[i].0.end <= t[i + 1].0.start);
            assert(points[d] == t[k].1@);
        }
    }
    assert(b == d);
}

/// Two listings of the same points that agree on their first `i` entries
/// agree on all entries and have the same length.
proof fn lemma_listing_from(
    s: Seq<(&Range<usize>, &AttrsOwned)>,
    t: Seq<(&Range<usize>, &AttrsOwned)>,
    points: Map<usize, AttrsModel>,
    i: int,
)
    requires
        spans_describe(s, points),
        spans_describe(t, points),
        0 <= i <= s.len(),
        i <= t.len(),
        forall|j: int| 0 <= j < i ==> (#[trigger] s[j]).0 == t[j].0 && s[j].1@ == t[j].1@,
    ensures
        s.len() == t.len(),
        forall|j: int| 0 <= j < s.len() ==> (#[trigger] s[j]).0 == t[j].0 && s[j].1@ == t[j].1@,
    decreases s.len() + t.len() - 2 * i,
{
    if i < s.len() && i < t.len() {
        lemma_listing_step(s, t, points, i);
        lemma_listing_from(s, t, points, i + 1);
    } else if i < s.len() {
        let a = s[i].0.start;
        assert(points.contains_key(a));
        let k = choose|k: int| 0 <= k < t.len() && (#[trigger] t[k]).0.start <= a < t[k].0.end;
        assert(s[k].0 == t[k].0);
        assert(s[k].0.end <= s[i].0.start);
    } else if i < t.len() {
        let c = t[i].0.start;
        assert(points.contains_key(c));
        let k = choose|k: int| 0 <= k < s.len() && (#[trigger] s[k]).0.start <= c < s[k].0.end;
        assert(s[k].0 == t[k].0);
        assert(t[k].0.end <= t[i].0.start);
    }
}

/// The spans of a set of points are listed in exactly one way: any two
/// listings have the same ranges in the same order with the same attributes.
pub proof fn lemma_spans_listing_unique(
    s: Seq<(&Range<usize>, &AttrsOwned)>,
    t: Seq<(&Range<usize>, &AttrsOwned)>,
    points: Map<usize, AttrsModel>,
)
    requires
        spans_describe(s, points),
        spans_describe(t, points),
    ensures
        s.len() == t.len(),
        forall|j: int| 0 <= j < s.len() ==> (#[trigger] s[j]).0 == t[j].0 && s[j].1@ == t[j].1@,
{
    lemma_listing_from(s, t, points, 0);
}

/// `RangeMap::new`: a map with no range.
#[verifier::external_body]
fn span_map_new() -> (m: RangeMap<usize, AttrsOwned>)
    ensures
        span_points(m) == no_points(),
        span_spacings(m) == no_spacings(),
{
    RangeMap::new()
}

/// `RangeMap::clone`: a map with the same ranges, each value cloned (the
/// clone of `AttrsOwned` keeps its view and its letter spacing bits, as its
/// verified `clone` states).
#[verifier::external_body]
fn span_map_clone(m: &RangeMap<usize, AttrsOwned>) -> (r: RangeMap<usize, AttrsOwned>)
    ensures
        span_points(r) == span_points(*m),
        span_spacings(r) == span_spacings(*m),
{
    m.clone()
}

/// `RangeMap::clear`: removes every range.
#[verifier::external_body]
fn span_map_clear(m: &mut RangeMap<usize, AttrsOwned>)
    ensures
        span_points(*final(m)) == no_points(),
        span_spacings(*final(m)) == no_spacings(),
{
    m.clear()
}

/// `RangeMap::insert`: every index of `start..end` now maps to `v`, the
/// others keep their value. The map panics on an empty range. It merges
/// into the new range a stored range that touches or overlaps it and whose
/// value is `==` to `v`. The `==` of `AttrsOwned` is verified to hold
/// exactly when the two views agree, so merging changes no index's view, but
/// the merged indices then hold `v` itself, with the letter spacing bits of
/// `v`. Pieces of other stored ranges keep clones of their values.
#[verifier::external_body]
fn span_map_insert(m: &mut RangeMap<usize, AttrsOwned>, start: usize, end: usize, v: AttrsOwned)
    requires
        start < end,
    ensures
        span_points(*final(m)) == span_points(*old(m)).union_prefer_right(
            range_points(start, end, v@),
        ),
        forall|k: usize| #[trigger]
            span_points(*final(m)).contains_key(k) ==> if start <= k < end {
                span_spacings(*final(m))[k] == raw_spacing(v.letter_spacing_opt)
            } else {
                span_spacings(*final(m))[k] == span_spacings(*old(m))[k] || (span_spacings(
                    *final(m),
                )[k] == raw_spacing(v.letter_spacing_opt) && adjoins(
                    span_points(*old(m)),
                    k,
                    start,
                    end,
                    v@,
                ))
            },
{
    m.insert(start..end, v)
}

/// `RangeMap::remove`: the indices of `start..end` no longer map to
/// anything, the others keep their value. The map panics on an empty range.
#[verifier::external_body]
fn span_map_remove(m: &mut RangeMap<usize, AttrsOwned>, start: usize, end: usize)
    requires
        start < end,
    ensures
        span_points(*final(m)) == without_range(span_points(*old(m)), start, end),
        forall|k: usize| #[trigger]
            span_points(*final(m)).contains_key(k) ==> span_spacings(*final(m))[k]
                == span_spacings(*old(m))[k],
{
    m.remove(start..end)
}

/// `RangeMap::get`: the value of the range that covers `k`, if any.
#[verifier::external_body]
fn span_map_get(m: &RangeMap<usize, AttrsOwned>, k: usize) -> (r: Option<&AttrsOwned>)
    ensures
        match r {
            Some(v) => span_points(*m).contains_key(k) && v@ == span_points(*m)[k] && raw_spacing(
                v.letter_spacing_opt,
            ) == span_spacings(*m)[k],
            None => !span_points(*m).contains_key(k),
        },
{
    m.get(&k)
}

/// `RangeMap::iter`, collected: the ranges of the map and their values, in
/// order of the ranges. The map stores only non-empty, non-overlapping
/// ranges, and coalesces touching ranges whose values are `==` (for
/// `AttrsOwned`, whose views agree).
#[verifier::external_body]
fn span_map_spans(m: &RangeMap<usize, AttrsOwned>) -> (r: Vec<(&Range<usize>, &AttrsOwned)>)
    ensures
        spans_describe(r@, span_points(*m)),
        spans_spacings(r@, span_spacings(*m)),
{
    m.iter().collect()
}

/// The indices of `m` from `index` on, moved down by `index`.
pub open spec fn shifted_down(m: Map<usize, AttrsModel>, index: usize) -> Map<usize, AttrsModel> {
    Map::new(
        |k: usize| k + index <= usize::MAX && m.contains_key((k + index) as usize),
        |k: usize| m[(k + index) as usize],
    )
}

/// The indices of `m` before `index`.
pub open spec fn below(m: Map<usize, AttrsModel>, index: usize) -> Map<usize, AttrsModel> {
    Map::new(|k: usize| k < index && m.contains_key(k), |k: usize| m[k])
}

/// The attributes that a list with the given defaults and spans applies at `index`.
pub open spec fn attrs_at(defaults: AttrsModel, spans: Map<usize, AttrsModel>, index: usize) -> AttrsModel {
    if spans.contains_key(index) {
        spans[index]
    } else {
        defaults
    }
}

/// List of text attributes to apply to a line
#[derive(Debug, Eq, PartialEq)]
pub struct AttrsList {
    defaults: AttrsOwned,
    spans: RangeMap<usize, AttrsOwned>,
}

impl View for AttrsList {
    type V = (AttrsModel, Map<usize, AttrsModel>);

    /// The default attributes, and the attributes of each index a span covers.
    closed spec fn view(&self) -> (AttrsModel, Map<usize, AttrsModel>) {
        (self.defaults@, span_points(self.spans))
    }
}

impl Clone for AttrsList {
    fn clone(&self) -> (r: Self)
        ensures
            r@ == self@,
            r.default_spacing() == self.default_spacing(),
            r.spacings() == self.spacings(),
    {
        AttrsList { defaults: self.defaults.clone(), spans: span_map_clone(&self.spans) }
    }
}

impl AttrsList {
    /// The bits of the default letter spacing, exactly as stored.
    pub closed spec fn default_spacing(&self) -> Option<u32> {
        raw_spacing(self.defaults.letter_spacing_opt)
    }

    /// The bits of the letter spacing, exactly as stored, at each index a
    /// span covers.
    pub closed spec fn spacings(&self) -> Map<usize, Option<u32>> {
        span_spacings(self.spans)
    }

    /// Create a new attributes list with a set of default `Attrs`
    pub fn new(defaults: &Attrs) -> (r: Self)
        ensures
            r@ == (defaults@, Map::<usize, AttrsModel>::empty()),
            r.default_spacing() == raw_spacing(defaults.letter_spacing_opt),
            r.spacings() == no_spacings(),
    {
        Self { defaults: AttrsOwned::new(defaults), spans: span_map_new() }
    }

    /// Get the default `Attrs`
    pub fn defaults(&self) -> (r: Attrs<'_>)
        ensures
            r@ == self@.0,
            raw_spacing(r.letter_spacing_opt) == self.default_spacing(),
    {
        self.defaults.as_attrs()
    }

    /// Get the current attribute spans, in order
    pub fn spans(&self) -> (r: Vec<(&Range<usize>, &AttrsOwned)>)
        ensures
            spans_describe(r@, self@.1),
            spans_spacings(r@, self.spacings()),
    {
        span_map_spans(&self.spans)
    }

    /// Clear the current attribute spans
    pub fn clear_spans(&mut self)
        ensures
            final(self)@ == (old(self)@.0, Map::<usize, AttrsModel>::empty()),
            final(self).default_spacing() == old(self).default_spacing(),
            final(self).spacings() == no_spacings(),
    {
        span_map_clear(&mut self.spans);
    }

    /// Add an attribute span, replacing what earlier spans held over its range;
    /// an empty range changes nothing. A span that touches or overlaps the
    /// new one with equal attributes is merged into it, and its indices then
    /// hold the letter spacing exactly as `attrs` gives it.
    pub fn add_span(&mut self, range: Range<usize>, attrs: &Attrs)
        ensures
            range.start >= range.end ==> final(self)@ == old(self)@ && final(self).spacings()
                == old(self).spacings(),
            range.start < range.end ==> final(self)@ == (
                old(self)@.0,
                old(self)@.1.union_prefer_right(range_points(range.start, range.end, attrs@)),
            ),
            final(self).default_spacing() == old(self).default_spacing(),
            range.start < range.end ==> forall|k: usize| #[trigger]
                final(self)@.1.contains_key(k) ==> if range.start <= k < range.end {
                    final(self).spacings()[k] == raw_spacing(attrs.letter_spacing_opt)
                } else {
                    final(self).spacings()[k] == old(self).spacings()[k] || (
                    final(self).spacings()[k] == raw_spacing(attrs.letter_spacing_opt) && adjoins(
                        old(self)@.1,
                        k,
                        range.start,
                        range.end,
                        attrs@,
                    ))
                },
    {
        if !(range.start < range.end) {
            return;
        }
        span_map_insert(&mut self.spans, range.start, range.end, AttrsOwned::new(attrs));
    }

    /// Get the attributes at an index: those of the span that covers it, or the
    /// defaults; the letter spacing comes back exactly as it was stored
    pub fn get_span(&self, index: usize) -> (r: Attrs<'_>)
        ensures
            r@ == attrs_at(self@.0, self@.1, index),
            raw_spacing(r.letter_spacing_opt) == if self@.1.contains_key(index) {
                self.spacings()[index]
            } else {
                self.default_spacing()
            },
    {
        match span_map_get(&self.spans, index) {
            Some(v) => v.as_attrs(),
            None => self.defaults.as_attrs(),
        }
    }

    /// Split the attributes list at an offset: `self` keeps the spans before
    /// `index`, the returned list gets those from `index` on, moved down by `index`
    #[verifier::spinoff_prover]
    #[verifier::rlimit(40)]
    pub fn split_off(&mut self, index: usize) -> (r: Self)
        ensures
            final(self)@ == (old(self)@.0, below(old(self)@.1, index)),
            r@ == (old(self)@.0, shifted_down(old(self)@.1, index)),
            final(self).default_spacing() == old(self).default_spacing(),
            r.default_spacing() == old(self).default_spacing(),
            forall|k: usize| #[trigger]
                final(self)@.1.contains_key(k) ==>
                final(self).spacings()[k] == old(self).spacings()[k],
            forall|k: usize| #[trigger]
                r@.1.contains_key(k) ==> r.spacings()[k] == old(self).spacings()[(k
                    + index) as usize],
    {
        let ghost points = span_points(self.spans);
        let ghost spacings = span_spacings(self.spans);
        let mut new = Self::new(&self.defaults.as_attrs());
        let spans = span_map_spans(&self.spans);
        let mut i: usize = 0;
        while i < spans.len()
            invariant
                spans_describe(spans@, points),
                spans_spacings(spans@, spacings),
                points == span_points(self.spans),
                spacings == span_spacings(self.spans),
                new@.0 == self@.0,
                new.default_spacing() == self.default_spacing(),
                0 <= i <= spans.len(),
                forall|k: usize|
                    #[trigger] new@.1.contains_key(k) <==> (k + index < (if i < spans.len() {
                        spans@[i as int].0.start as int
                    } else {
                        usize::MAX + 1
                    }) && points.contains_key((k + index) as usize)),
                forall|k: usize| #[trigger]
                    new@.1.contains_key(k) ==> new@.1[k] == points[(k + index) as usize],
                forall|k: usize| #[trigger]
                    new@.1.contains_key(k) ==> new.spacings()[k] == spacings[(k
                        + index) as usize],
            decreases spans.len() - i,
        {
            let (range, attrs) = spans[i];
            let ghost before = new@.1;
            let ghost before_spacings = new.spacings();
            if range.end > index {
                let start = if range.start >= index {
                    range.start - index
                } else {
                    0
                };
                span_map_insert(&mut new.spans, start, range.end - index, attrs.clone());
            }
            proof {
                let lo = spans@[i as int].0.start as int;
                let hi = if i + 1 < spans.len() {
                    spans@[i + 1].0.start as int
                } else {
                    usize::MAX + 1
                };
                assert forall|k: usize|
                    #[trigger] new@.1.contains_key(k) <==> (k + index < hi
                        && points.contains_key((k + index) as usize)) by {
                    if k + index < hi && points.contains_key((k + index) as usize) && !(k + index
                        < lo) {
                        let p = (k + index) as usize;
                        let j = choose|j: int|
                            0 <= j < spans.len() && (#[trigger] spans@[j]).0.start <= p
                                < spans@[j].0.end;
                        if j < i {
                            assert(spans@[j].0.end <= spans@[i as int].0.start);
                        }
                        if j > i {
                            assert(spans@[i + 1].0.end <= spans@[j].0.start || j == i + 1);
                            assert(spans@[i + 1].0.start < spans@[i + 1].0.end);
                        }
                        assert(j == i);
                    }
                    if k + index >= lo && k + index < spans@[i as int].0.end {
                        assert(points.contains_key((k + index) as usize));
                    }
                    if k + index >= spans@[i as int].0.end && k + index < hi && points.contains_key(
                        (k + index) as usize,
                    ) {
                        let p = (k + index) as usize;
                        let j = choose|j: int|
                            0 <= j < spans.len() && (#[trigger] spans@[j]).0.start <= p
                                < spans@[j].0.end;
                        if j < i {
                            assert(spans@[j].0.end <= spans@[i as int].0.start);
                        }
                        if j > i {
                            assert(spans@[i + 1].0.end <= spans@[j].0.start || j == i + 1);
                            assert(spans@[i + 1].0.start < spans@[i + 1].0.end);
                        }
                    }
                }
                assert forall|k: usize| #[trigger]
                    new@.1.contains_key(k) implies new@.1[k] == points[(k + index) as usize] by {
                    if !before.contains_key(k) {
                        assert(spans@[i as int].0.start <= ((k + index) as usize) < spans@[i as int].0.end);
                    }
                }
                // A span merged into the inserted one would have to touch it
                // with equal attributes: the previous span never does.
                assert forall|k: usize| #[trigger]
                    new@.1.contains_key(k) implies new.spacings()[k] == spacings[(k
                        + index) as usize] by {
                    if range.end > index {
                        let start: usize = if range.start >= index {
                            (range.start - index) as usize
                        } else {
                            0
                        };
                        let end: usize = (range.end - index) as usize;
                        if start <= k < end {
                            assert(spans@[i as int].0.start <= ((k + index) as usize)
                                < spans@[i as int].0.end);
                        } else if new.spacings()[k] != before_spacings[k] {
                            if k < start {
                                let q: usize = (start - 1) as usize;
                                assert(before.contains_key(q));
                                let p: usize = (q + index) as usize;
                                assert(points.contains_key(p));
                                let j = choose|j: int|
                                    0 <= j < spans.len() && (#[trigger] spans@[j]).0.start <= p
                                        < spans@[j].0.end;
                                if j > i {
                                    assert(spans@[i as int].0.end <= spans@[j].0.start);
                                }
                                if j < i - 1 {
                                    assert(spans@[j].0.end <= spans@[i - 1].0.start);
                                    assert(spans@[i - 1].0.start < spans@[i - 1].0.end);
                                    assert(spans@[i - 1].0.end <= spans@[i as int].0.start);
                                }
                                assert(j == i - 1);
                                assert(spans@[j].0.end <= spans@[i as int].0.start);
                                assert(points[p] == spans@[j].1@);
                                assert(spans@[j].1@ != spans@[i as int].1@);
                            } else {
                                assert(before.contains_key(end));
                            }
                        }
                    }
                }
            }
            i = i + 1;
        }
        if index < usize::MAX {
            span_map_remove(&mut self.spans, index, usize::MAX);
        }
        proof {
            assert(!points.contains_key(usize::MAX));
            assert(self@.1 =~= below(points, index));
            assert(new@.1 =~= shifted_down(points, index));
        }
        new
    }

    /// Resets the attributes with new defaults and no span
    pub(crate) fn reset(self, default: &Attrs) -> (r: Self)
        ensures
            r@ == (default@, Map::<usize, AttrsModel>::empty()),
            r.default_spacing() == raw_spacing(default.letter_spacing_opt),
            r.spacings() == no_spacings(),
    {
        let mut r = self;
        r.defaults = AttrsOwned::new(default);
        span_map_clear(&mut r.spans);
        r
    }
}

/// What `get_span` reads after `add_span`: the new attributes inside the
/// added range, and what was read before everywhere else.
pub proof fn lemma_get_after_add_span(
    defaults: AttrsModel,
    spans: Map<usize, AttrsModel>,
    start: usize,
    end: usize,
    a: AttrsModel,
    index: usize,
)
    requires
        start < end,
    ensures
        attrs_at(defaults, spans.union_prefer_right(range_points(start, end, a)), index) == if start
            <= index < end {
            a
        } else {
            attrs_at(defaults, spans, index)
        },
{
}

/// What `get_span` reads after `split_off(index)`: the kept list reads as
/// before below `index` and its defaults from `index` on; the split-off list
/// reads at `k` what the whole list read at `k + index`.
pub proof fn lemma_get_after_split_off(
    defaults: AttrsModel,
    spans: Map<usize, AttrsModel>,
    index: usize,
    k: usize,
)
    ensures
        k < index ==> attrs_at(defaults, below(spans, index), k) == attrs_at(defaults, spans, k),
        k >= index ==> attrs_at(defaults, below(spans, index), k) == defaults,
        k + index <= usize::MAX ==> attrs_at(defaults, shifted_down(spans, index), k) == attrs_at(
            defaults,
            spans,
            (k + index) as usize,
        ),
{
}

} // verus!
