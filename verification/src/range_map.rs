//! The map from character ranges to colours that highlighting fills: a
//! `rangemap::RangeMap`, seen through the colour it gives each offset.

use rangemap::RangeMap;
use vstd::prelude::*;

use crate::color::ColorU;

verus! {

#[verifier::external_type_specification]
#[verifier::external_body]
#[verifier::reject_recursive_types(K)]
#[verifier::reject_recursive_types(V)]
pub struct ExRangeMap<K, V>(RangeMap<K, V>);

/// The colour a highlight map gives each character offset it covers.
pub uninterp spec fn highlight_contents(m: RangeMap<usize, ColorU>) -> Map<int, ColorU>;

/// `m` with every offset of `[start, end)` coloured `color`.
pub open spec fn paint(m: Map<int, ColorU>, start: int, end: int, color: ColorU) -> Map<
    int,
    ColorU,
> {
    Map::new(
        |k: int| m.dom().contains(k) || (start <= k < end),
        |k: int|
            if start <= k < end {
                color
            } else {
                m[k]
            },
    )
}

/// One highlight `(start, end, color)` applied to `m`; an empty range changes nothing.
pub open spec fn apply_span(m: Map<int, ColorU>, span: (int, int, ColorU)) -> Map<int, ColorU> {
    if span.0 < span.1 {
        paint(m, span.0, span.1, span.2)
    } else {
        m
    }
}

/// The highlights `spans` applied to `m` in order, later ones over earlier ones.
pub open spec fn apply_all(m: Map<int, ColorU>, spans: Seq<(int, int, ColorU)>) -> Map<
    int,
    ColorU,
>
    decreases spans.len(),
{
    if spans.len() == 0 {
        m
    } else {
        apply_span(apply_all(m, spans.drop_last()), spans.last())
    }
}

/// Applying a concatenation is applying its parts in turn.
pub proof fn lemma_apply_all_concat(
    m: Map<int, ColorU>,
    a: Seq<(int, int, ColorU)>,
    b: Seq<(int, int, ColorU)>,
)
    ensures
        apply_all(m, a + b) == apply_all(apply_all(m, a), b),
    decreases b.len(),
{
    if b.len() == 0 {
        assert(a + b =~= a);
    } else {
        assert((a + b).drop_last() =~= a + b.drop_last());
        assert((a + b).last() == b.last());
        lemma_apply_all_concat(m, a, b.drop_last());
    }
}

/// Calls `RangeMap::new`, which makes an empty map.
#[verifier::external_body]
pub(crate) fn new_highlight_map() -> (map: RangeMap<usize, ColorU>)
    ensures
        highlight_contents(map) =~= Map::empty(),
{
    RangeMap::new()
}

/// Calls `RangeMap::insert`, which (as its documentation says) replaces
/// whatever the map held over `start..end` with `color` and leaves the rest;
/// it panics on `start >= end`, which `requires` leaves out. Its coalescing of
/// adjacent equal ranges does not change the colour of any offset.
#[verifier::external_body]
pub(crate) fn insert_highlight(m: &mut RangeMap<usize, ColorU>, start: usize, end: usize, color: ColorU)
    requires
        start < end,
    ensures
        highlight_contents(*final(m)) == paint(
            highlight_contents(*old(m)),
            start as int,
            end as int,
            color,
        ),
{
    m.insert(start..end, color)
}

} // verus!
