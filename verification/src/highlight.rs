//! Highlighting a range of a document: the colours of the captures that a
//! tree-sitter highlight query finds there, as a map from character ranges to
//! colours.

use std::ops::Range;

use arborium::tree_sitter::{Query, Tree};
use rangemap::RangeMap;
use vstd::prelude::*;

use crate::buffer::{byte_offset_of, char_offset_of, lemma_char_offset_le_len, Buffer};
use crate::color::{capture_color, convert_capture_name_to_color, ColorMap, ColorU};
use crate::markdown::{field_ranges, markdown_field_ranges, range_view};
use crate::range_map::{
    apply_all, apply_span, highlight_contents, insert_highlight, lemma_apply_all_concat,
    new_highlight_map,
};
use crate::syntax::{
    capture_names_of, captures_of, matches_view, names_view, query_capture_names, query_captures,
    CaptureSpan,
};
use crate::text::{byte_len, chars_of, lemma_byte_len_subrange_split, range_eq_str};

verus! {

/// The colours of a query's captures, by capture index.
pub open spec fn capture_colors(names: Seq<Seq<char>>, m: ColorMap) -> Seq<Option<ColorU>> {
    names.map_values(|n: Seq<char>| capture_color(n, m))
}

/// The colour at `index` of `colors`, `None` past its end.
pub open spec fn color_at(colors: Seq<Option<ColorU>>, index: int) -> Option<ColorU> {
    if 0 <= index < colors.len() {
        colors[index]
    } else {
        None
    }
}

/// Query for retrieving syntax highlighting information on the tokens.
pub struct HighlightQuery {
    highlight_map: Vec<Option<ColorU>>,
}

impl View for HighlightQuery {
    type V = Seq<Option<ColorU>>;

    /// The colour of each capture index of the query it was built for.
    closed spec fn view(&self) -> Seq<Option<ColorU>> {
        self.highlight_map@
    }
}

/// Names of the captures whose text is split into Markdown field keys or values.
pub open spec fn is_markdown_key(name: Seq<char>) -> bool {
    name == "comment.markdown_key"@
}

pub open spec fn is_markdown_value(name: Seq<char>) -> bool {
    name == "type.markdown_value"@
}

/// The characters of `doc` that the bytes `start..end` cover (none when the
/// range is reversed).
pub open spec fn bytes_text(doc: Seq<char>, start: int, end: int) -> Seq<char> {
    let s = char_offset_of(doc, start);
    let e = char_offset_of(doc, end);
    if s <= e {
        doc.subrange(s as int, e as int)
    } else {
        Seq::empty()
    }
}

/// The characters of the document that the capture's bytes cover.
pub open spec fn node_text(doc: Seq<char>, cap: CaptureSpan) -> Seq<char> {
    bytes_text(doc, cap.start_byte as int, cap.end_byte as int)
}

/// A byte slice that answers for any byte range: the bytes it holds there,
/// or nothing when the range is not inside it.
pub struct TextSlice<'a>(pub &'a [u8]);

impl<'a> TextSlice<'a> {
    /// The sub-slice `range` of this slice, empty when `range` is reversed or
    /// reaches past the end (as `<[u8]>::get(range).unwrap_or_default()`).
    pub fn get(&self, range: Range<usize>) -> (r: Self)
        ensures
            r.0@ == (if range.start <= range.end && range.end <= self.0@.len() {
                self.0@.subrange(range.start as int, range.end as int)
            } else {
                Seq::empty()
            }),
    {
        if range.start <= range.end && range.end <= self.0.len() {
            TextSlice(vstd::slice::slice_subrange(self.0, range.start, range.end))
        } else {
            let empty = vstd::slice::slice_subrange(self.0, 0, 0);
            assert(empty@ =~= Seq::<u8>::empty());
            TextSlice(empty)
        }
    }

    /// The bytes of the slice.
    pub fn as_bytes(&self) -> (b: &'a [u8])
        ensures
            b@ == self.0@,
    {
        self.0
    }
}

/// The text of a [`Buffer`] by byte range, as tree-sitter addresses it.
pub struct TextBuffer<'a>(pub &'a Buffer);

impl<'a> TextBuffer<'a> {
    /// The text of the bytes `start_byte..end_byte` ([`bytes_text`]).
    pub fn text(&self, start_byte: usize, end_byte: usize) -> (t: &'a str)
        ensures
            t@ == bytes_text(self.0@, start_byte as int, end_byte as int),
    {
        let buffer = self.0;
        let s = buffer.to_char_offset(start_byte);
        let e = buffer.to_char_offset(end_byte);
        proof {
            lemma_char_offset_le_len(buffer@, end_byte as int);
        }
        if s <= e {
            buffer.as_str().substring_char(s, e)
        } else {
            let t = buffer.as_str().substring_char(0, 0);
            assert(t@ =~= Seq::<char>::empty());
            t
        }
    }
}

/// The byte ranges a capture named `name` colours: the Markdown field keys or
/// values of its text for the two Markdown field captures, its whole node otherwise.
pub open spec fn capture_byte_ranges(name: Seq<char>, cap: CaptureSpan, doc: Seq<char>) -> Seq<
    (int, int),
> {
    if is_markdown_key(name) || is_markdown_value(name) {
        let t = node_text(doc, cap);
        if cap.start_byte + byte_len(t) <= usize::MAX {
            field_ranges(t, cap.start_byte as int, is_markdown_key(name))
        } else {
            Seq::empty()
        }
    } else {
        seq![(cap.start_byte as int, cap.end_byte as int)]
    }
}

/// The highlights one capture contributes: its byte ranges as character ranges,
/// in its capture's colour. A capture whose index has no name contributes none.
pub open spec fn capture_spans(
    colors: Seq<Option<ColorU>>,
    names: Seq<Seq<char>>,
    cap: CaptureSpan,
    doc: Seq<char>,
) -> Seq<(int, int, ColorU)> {
    if cap.index >= names.len() {
        Seq::empty()
    } else {
        match color_at(colors, cap.index as int) {
            None => Seq::empty(),
            Some(color) => capture_byte_ranges(names[cap.index as int], cap, doc).map_values(
                |r: (int, int)|
                    (char_offset_of(doc, r.0) as int, char_offset_of(doc, r.1) as int, color),
            ),
        }
    }
}

/// The highlights of the captures `caps`, in order.
pub open spec fn match_spans(
    colors: Seq<Option<ColorU>>,
    names: Seq<Seq<char>>,
    caps: Seq<CaptureSpan>,
    doc: Seq<char>,
) -> Seq<(int, int, ColorU)>
    decreases caps.len(),
{
    if caps.len() == 0 {
        Seq::empty()
    } else {
        match_spans(colors, names, caps.drop_last(), doc) + capture_spans(
            colors,
            names,
            caps.last(),
            doc,
        )
    }
}

/// The highlights of all the matches, in order.
pub open spec fn all_spans(
    colors: Seq<Option<ColorU>>,
    names: Seq<Seq<char>>,
    matches: Seq<Seq<CaptureSpan>>,
    doc: Seq<char>,
) -> Seq<(int, int, ColorU)>
    decreases matches.len(),
{
    if matches.len() == 0 {
        Seq::empty()
    } else {
        all_spans(colors, names, matches.drop_last(), doc) + match_spans(
            colors,
            names,
            matches.last(),
            doc,
        )
    }
}

/// The colour of each character offset after highlighting `matches`.
pub open spec fn highlights(
    colors: Seq<Option<ColorU>>,
    names: Seq<Seq<char>>,
    matches: Seq<Seq<CaptureSpan>>,
    doc: Seq<char>,
) -> Map<int, ColorU> {
    apply_all(Map::empty(), all_spans(colors, names, matches, doc))
}

impl HighlightQuery {
    /// The highlighter for a query whose capture names are `names`.
    pub fn from_capture_names(names: &Vec<String>, color_map: ColorMap) -> (q: Self)
        ensures
            q@ == capture_colors(names_view(names@), color_map),
    {
        let mut highlight_map: Vec<Option<ColorU>> = Vec::new();
        let mut i: usize = 0;
        while i < names.len()
            invariant
                i <= names.len(),
                highlight_map@ == capture_colors(names_view(names@.take(i as int)), color_map),
            decreases names.len() - i,
        {
            highlight_map.push(convert_capture_name_to_color(names[i].as_str(), &color_map));
            assert(names@.take(i + 1) =~= names@.take(i as int).push(names@[i as int]));
            assert(highlight_map@ =~= capture_colors(names_view(names@.take(i + 1)), color_map));
            i += 1;
        }
        assert(names@.take(names@.len() as int) =~= names@);
        HighlightQuery { highlight_map }
    }

    /// The highlighter for `query`: the colour of each of its captures.
    pub fn new(query: &Query, color_map: ColorMap) -> (q: Self)
        ensures
            q@ == capture_colors(capture_names_of(*query), color_map),
    {
        let names = query_capture_names(query);
        Self::from_capture_names(&names, color_map)
    }

    /// The colour of capture `index`, if it has one.
    pub fn color_for_capture(&self, index: usize) -> (c: Option<ColorU>)
        ensures
            c == color_at(self@, index as int),
    {
        if index < self.highlight_map.len() {
            self.highlight_map[index]
        } else {
            None
        }
    }

    /// The byte ranges a capture named `name` colours ([`capture_byte_ranges`]).
    fn capture_ranges(name: &str, cap: &CaptureSpan, buffer: &Buffer) -> (ranges: Vec<
        Range<usize>,
    >)
        ensures
            ranges@.map_values(|r: Range<usize>| range_view(r)) == capture_byte_ranges(
                name@,
                *cap,
                buffer@,
            ),
    {
        let v = chars_of(name);
        let n = v.len();
        assert(v@.subrange(0, n as int) =~= v@);
        let key = range_eq_str(&v, 0, n, "comment.markdown_key");
        let value = range_eq_str(&v, 0, n, "type.markdown_value");
        if key || value {
            let s = buffer.to_char_offset(cap.start_byte);
            let e = buffer.to_char_offset(cap.end_byte);
            if s <= e {
                proof {
                    lemma_char_offset_le_len(buffer@, cap.end_byte as int);
                    lemma_byte_len_prefix_split(buffer@, s as int, e as int);
                }
                let text = TextBuffer(buffer).text(cap.start_byte, cap.end_byte);
                assert(text@ == node_text(buffer@, *cap));
                let len = buffer.to_byte_offset(e) - buffer.to_byte_offset(s);
                assert(len == byte_len(text@));
                if cap.start_byte <= usize::MAX - len {
                    markdown_field_ranges(text, cap.start_byte, key)
                } else {
                    let ghost none: Seq<(int, int)> = Seq::empty();
                    let r: Vec<Range<usize>> = Vec::new();
                    assert(r@.map_values(|r: Range<usize>| range_view(r)) =~= none);
                    r
                }
            } else {
                let ghost empty: Seq<char> = Seq::empty();
                assert(node_text(buffer@, *cap) == empty);
                assert(field_ranges(empty, cap.start_byte as int, key) =~= Seq::empty());
                Vec::new()
            }
        } else {
            let mut ranges = Vec::new();
            ranges.push(cap.start_byte..cap.end_byte);
            assert(ranges@.map_values(|r: Range<usize>| range_view(r)) =~= seq![
                (cap.start_byte as int, cap.end_byte as int),
            ]);
            ranges
        }
    }

    /// Adds the highlights of one capture to `range_map`.
    fn highlight_capture(
        &self,
        range_map: &mut RangeMap<usize, ColorU>,
        names: &Vec<String>,
        cap: &CaptureSpan,
        buffer: &Buffer,
    )
        ensures
            highlight_contents(*final(range_map)) == apply_all(
                highlight_contents(*old(range_map)),
                capture_spans(self@, names_view(names@), *cap, buffer@),
            ),
    {
        let ghost old_contents = highlight_contents(*range_map);
        let index = cap.index as usize;
        if index >= names.len() {
            return;
        }
        let color = match self.color_for_capture(index) {
            Some(color) => color,
            None => {
                return;
            },
        };
        let ranges = Self::capture_ranges(names[index].as_str(), cap, buffer);
        let ghost spans = capture_spans(self@, names_view(names@), *cap, buffer@);
        assert(spans.len() == ranges@.len());
        let mut k: usize = 0;
        while k < ranges.len()
            invariant
                k <= ranges.len(),
                spans.len() == ranges@.len(),
                forall|j: int|
                    0 <= j < ranges@.len() ==> #[trigger] spans[j] == (
                        char_offset_of(buffer@, ranges@[j].start as int) as int,
                        char_offset_of(buffer@, ranges@[j].end as int) as int,
                        color,
                    ),
                highlight_contents(*range_map) == apply_all(old_contents, spans.take(k as int)),
            decreases ranges.len() - k,
        {
            let s = buffer.to_char_offset(ranges[k].start);
            let e = buffer.to_char_offset(ranges[k].end);
            assert(spans.take(k + 1).drop_last() =~= spans.take(k as int));
            assert(spans.take(k + 1).last() == spans[k as int]);
            if s < e {
                insert_highlight(range_map, s, e, color);
            }
            k += 1;
        }
        assert(spans.take(ranges@.len() as int) =~= spans);
    }

    /// The highlights of the captures `matches` found in `buffer`, for a query
    /// whose capture names are `names` ([`highlights`]).
    pub fn highlight_captures(
        &self,
        names: &Vec<String>,
        matches: &Vec<Vec<CaptureSpan>>,
        buffer: &Buffer,
    ) -> (range_map: RangeMap<usize, ColorU>)
        ensures
            highlight_contents(range_map) == highlights(
                self@,
                names_view(names@),
                matches_view(matches@),
                buffer@,
            ),
    {
        let ghost colors = self@;
        let ghost nv = names_view(names@);
        let ghost mv = matches_view(matches@);
        let mut range_map = new_highlight_map();
        let mut i: usize = 0;
        assert(mv.take(0) =~= Seq::<Seq<CaptureSpan>>::empty());
        while i < matches.len()
            invariant
                i <= matches.len(),
                colors == self@,
                nv == names_view(names@),
                mv == matches_view(matches@),
                highlight_contents(range_map) == apply_all(
                    Map::empty(),
                    all_spans(colors, nv, mv.take(i as int), buffer@),
                ),
            decreases matches.len() - i,
        {
            let caps = &matches[i];
            let ghost before = highlight_contents(range_map);
            let mut j: usize = 0;
            assert(caps@.take(0) =~= Seq::<CaptureSpan>::empty());
            while j < caps.len()
                invariant
                    i < matches.len(),
                    mv.len() == matches.len(),
                    colors == self@,
                    nv == names_view(names@),
                    j <= caps.len(),
                    caps@ == mv[i as int],
                    highlight_contents(range_map) == apply_all(
                        before,
                        match_spans(colors, nv, caps@.take(j as int), buffer@),
                    ),
                decreases caps.len() - j,
            {
                let ghost mid = highlight_contents(range_map);
                self.highlight_capture(&mut range_map, names, &caps[j], buffer);
                proof {
                    let prefix = caps@.take(j + 1);
                    assert(prefix.drop_last() =~= caps@.take(j as int));
                    lemma_apply_all_concat(
                        before,
                        match_spans(colors, nv, caps@.take(j as int), buffer@),
                        capture_spans(colors, nv, caps@[j as int], buffer@),
                    );
                }
                j += 1;
            }
            proof {
                assert(caps@.take(caps@.len() as int) =~= caps@);
                let prefix = mv.take(i + 1);
                assert(prefix.drop_last() =~= mv.take(i as int));
                lemma_apply_all_concat(
                    Map::empty(),
                    all_spans(colors, nv, mv.take(i as int), buffer@),
                    match_spans(colors, nv, mv[i as int], buffer@),
                );
            }
            i += 1;
        }
        assert(mv.take(matches@.len() as int) =~= mv);
        range_map
    }

    /// Given a character range, return its corresponding highlight colors:
    /// the captures `query` finds in `tree` over the bytes of that range,
    /// coloured as [`highlight_captures`](Self::highlight_captures) says.
    pub fn get_highlighted_chunks(
        &self,
        range: Range<usize>,
        query: &Query,
        buffer: &Buffer,
        tree: &Tree,
    ) -> (range_map: RangeMap<usize, ColorU>)
        ensures
            highlight_contents(range_map) == highlights(
                self@,
                capture_names_of(*query),
                captures_of(
                    *query,
                    *tree,
                    vstd::utf8::encode_utf8(buffer@),
                    byte_offset_of(buffer@, range.start as int) as usize,
                    byte_offset_of(buffer@, range.end as int) as usize,
                ),
                buffer@,
            ),
    {
        let byte_start = buffer.to_byte_offset(range.start);
        let byte_end = buffer.to_byte_offset(range.end);
        let names = query_capture_names(query);
        let matches = query_captures(query, tree, buffer.as_str().as_bytes(), byte_start, byte_end);
        self.highlight_captures(&names, &matches, buffer)
    }
}

/// The bytes of `s[i..j]` are the difference of the prefix byte lengths.
proof fn lemma_byte_len_prefix_split(s: Seq<char>, i: int, j: int)
    requires
        0 <= i <= j <= s.len(),
    ensures
        byte_len(s.subrange(i, j)) == byte_offset_of(s, j) - byte_offset_of(s, i),
        byte_offset_of(s, i) <= byte_offset_of(s, j),
{
    lemma_byte_len_subrange_split(s, 0, i, j);
    assert(s.subrange(0, i) =~= s.take(i));
    assert(s.subrange(0, j) =~= s.take(j));
}

} // verus!
