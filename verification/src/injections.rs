//! Code embedded in another language, e.g. fenced code blocks in Markdown,
//! parsed with the embedded language's own grammar so it can be highlighted
//! like a standalone file.

use std::ops::Range;

use arborium::tree_sitter::{Language, Node, Parser, Point, Query, Range as SyntaxRange, Tree};
use vstd::prelude::*;

use crate::buffer::{char_offset_of, Buffer};
use crate::highlight::TextSlice;
use crate::syntax::{
    capture_names_of, children_of, effective_ranges, injection_matches_view, kind_of,
    language_accepted, match_view, matches_of, names_view, node_children, node_kind, node_range,
    parse_text, parsed, parser_ranges, properties_view, query_capture_names, query_matches, range_of,
    ranges_fit_u32, ranges_ordered, root_node_of, set_parser_included_ranges,
    set_parser_language, tree_included_ranges, tree_ranges, whole_document,
};
use crate::text::{str_equal, utf8_str};

verus! {

/// A child of an injection's content node: whether it is a Markdown block
/// continuation (the indentation of a list item in front of a line), and its range.
#[derive(Clone, Copy)]
pub struct ChildSpan {
    pub continuation: bool,
    pub range: SyntaxRange,
}

/// The ranges of `content` from `start` on that the continuation children
/// among `children` do not cover, in order.
pub open spec fn gap_ranges(
    start_byte: usize,
    start_point: Point,
    children: Seq<ChildSpan>,
    content: SyntaxRange,
) -> Seq<SyntaxRange>
    decreases children.len(),
{
    if children.len() == 0 {
        if content.end_byte > start_byte {
            seq![
                SyntaxRange {
                    start_byte,
                    end_byte: content.end_byte,
                    start_point,
                    end_point: content.end_point,
                },
            ]
        } else {
            Seq::empty()
        }
    } else {
        let c = children[0];
        if !c.continuation {
            gap_ranges(start_byte, start_point, children.drop_first(), content)
        } else {
            let here = if c.range.start_byte > start_byte {
                seq![
                    SyntaxRange {
                        start_byte,
                        end_byte: c.range.start_byte,
                        start_point,
                        end_point: c.range.start_point,
                    },
                ]
            } else {
                Seq::empty()
            };
            here + gap_ranges(c.range.end_byte, c.range.end_point, children.drop_first(), content)
        }
    }
}

/// The content range minus the block continuations inside it.
pub open spec fn included_ranges_of(content: SyntaxRange, children: Seq<ChildSpan>) -> Seq<
    SyntaxRange,
> {
    gap_ranges(content.start_byte, content.start_point, children, content)
}

/// Children in document order: none ends before it starts, none starts
/// before the previous one ends.
pub open spec fn children_sorted(children: Seq<ChildSpan>) -> bool {
    &&& forall|i: int|
        0 <= i < children.len() ==> #[trigger] children[i].range.start_byte
            <= children[i].range.end_byte
    &&& forall|i: int|
        0 < i < children.len() ==> children[i - 1].range.end_byte
            <= #[trigger] children[i].range.start_byte
}

proof fn lemma_gap_ranges_ordered(
    start_byte: usize,
    start_point: Point,
    children: Seq<ChildSpan>,
    content: SyntaxRange,
)
    requires
        children_sorted(children),
        children.len() > 0 ==> start_byte <= children[0].range.start_byte,
    ensures
        ranges_ordered(gap_ranges(start_byte, start_point, children, content)),
        gap_ranges(start_byte, start_point, children, content).len() > 0 ==> gap_ranges(
            start_byte,
            start_point,
            children,
            content,
        )[0].start_byte >= start_byte,
        forall|i: int|
            0 <= i < gap_ranges(start_byte, start_point, children, content).len()
                ==> #[trigger] gap_ranges(start_byte, start_point, children, content)[i].start_byte
                < gap_ranges(start_byte, start_point, children, content)[i].end_byte,
    decreases children.len(),
{
    if children.len() > 0 {
        let c = children[0];
        let rest = children.drop_first();
        assert(children_sorted(rest)) by {
            assert forall|i: int| 0 <= i < rest.len() implies #[trigger] rest[i].range.start_byte
                <= rest[i].range.end_byte by {
                assert(rest[i] == children[i + 1]);
            }
            assert forall|i: int| 0 < i < rest.len() implies rest[i - 1].range.end_byte
                <= #[trigger] rest[i].range.start_byte by {
                assert(rest[i] == children[i + 1]);
                assert(rest[i - 1] == children[i]);
            }
        }
        if rest.len() > 0 {
            assert(rest[0] == children[1]);
            assert(c.range.start_byte <= c.range.end_byte);
            assert(children[0].range.end_byte <= children[1].range.start_byte);
        }
        if !c.continuation {
            lemma_gap_ranges_ordered(start_byte, start_point, rest, content);
        } else {
            lemma_gap_ranges_ordered(c.range.end_byte, c.range.end_point, rest, content);
            let tail = gap_ranges(c.range.end_byte, c.range.end_point, rest, content);
            let all = gap_ranges(start_byte, start_point, children, content);
            if c.range.start_byte > start_byte {
                let here = SyntaxRange {
                    start_byte,
                    end_byte: c.range.start_byte,
                    start_point,
                    end_point: c.range.start_point,
                };
                assert(all == seq![here] + tail);
                assert forall|i: int| 0 <= i < all.len() implies #[trigger] all[i].start_byte
                    <= all[i].end_byte by {
                    if i > 0 {
                        assert(all[i] == tail[i - 1]);
                    }
                }
                assert forall|i: int| 0 < i < all.len() implies all[i - 1].end_byte
                    <= #[trigger] all[i].start_byte by {
                    assert(all[i] == tail[i - 1]);
                    if i > 1 {
                        assert(all[i - 1] == tail[i - 2]);
                    }
                }
                assert forall|i: int| 0 <= i < all.len() implies #[trigger] all[i].start_byte
                    < all[i].end_byte by {
                    if i > 0 {
                        assert(all[i] == tail[i - 1]);
                    }
                }
            } else {
                assert(all =~= tail);
            }
        }
    }
}

/// Included ranges are what tree-sitter accepts: whenever the content's
/// children are in document order and none starts before the content, the
/// ranges that [`included_ranges`] makes are non-empty and ordered.
pub proof fn lemma_included_ranges_ordered(content: SyntaxRange, children: Seq<ChildSpan>)
    requires
        children_sorted(children),
        children.len() > 0 ==> content.start_byte <= children[0].range.start_byte,
    ensures
        ranges_ordered(included_ranges_of(content, children)),
        forall|i: int|
            0 <= i < included_ranges_of(content, children).len() ==> #[trigger] included_ranges_of(
                content,
                children,
            )[i].start_byte < included_ranges_of(content, children)[i].end_byte,
{
    lemma_gap_ranges_ordered(content.start_byte, content.start_point, children, content);
}

/// The content range minus the block continuations among `children`
/// ([`included_ranges_of`]).
pub fn included_ranges_from(content: SyntaxRange, children: &Vec<ChildSpan>) -> (ranges: Vec<
    SyntaxRange,
>)
    ensures
        ranges@ == included_ranges_of(content, children@),
{
    let mut ranges: Vec<SyntaxRange> = Vec::new();
    let mut start_byte = content.start_byte;
    let mut start_point = content.start_point;
    let mut i: usize = 0;
    assert(children@.skip(0) =~= children@);
    while i < children.len()
        invariant
            i <= children.len(),
            ranges@ + gap_ranges(start_byte, start_point, children@.skip(i as int), content)
                == included_ranges_of(content, children@),
        decreases children.len() - i,
    {
        let child = children[i];
        let ghost rest = children@.skip(i as int);
        assert(rest[0] == child);
        assert(rest.drop_first() =~= children@.skip(i + 1));
        if child.continuation {
            if child.range.start_byte > start_byte {
                let ghost before = ranges@;
                ranges.push(
                    SyntaxRange {
                        start_byte,
                        end_byte: child.range.start_byte,
                        start_point,
                        end_point: child.range.start_point,
                    },
                );
                assert(ranges@ + gap_ranges(
                    child.range.end_byte,
                    child.range.end_point,
                    children@.skip(i + 1),
                    content,
                ) =~= before + gap_ranges(start_byte, start_point, rest, content));
            } else {
                assert(gap_ranges(start_byte, start_point, rest, content) =~= gap_ranges(
                    child.range.end_byte,
                    child.range.end_point,
                    children@.skip(i + 1),
                    content,
                ));
            }
            start_byte = child.range.end_byte;
            start_point = child.range.end_point;
        }
        i += 1;
    }
    if content.end_byte > start_byte {
        let ghost before = ranges@;
        ranges.push(
            SyntaxRange {
                start_byte,
                end_byte: content.end_byte,
                start_point,
                end_point: content.end_point,
            },
        );
        assert(ranges@ =~= before + gap_ranges(
            start_byte,
            start_point,
            children@.skip(children@.len() as int),
            content,
        ));
    } else {
        assert(ranges@ =~= ranges@ + gap_ranges(
            start_byte,
            start_point,
            children@.skip(children@.len() as int),
            content,
        ));
    }
    ranges
}

/// What the children of a content node tell: whether each is a block
/// continuation, and its range.
pub open spec fn child_spans_of(children: Seq<Node>) -> Seq<ChildSpan> {
    children.map_values(
        |n: Node| ChildSpan { continuation: kind_of(n) == "block_continuation"@, range: range_of(n) },
    )
}

/// The included ranges of a content node: its range minus its block
/// continuation children ([`included_ranges_of`]).
pub open spec fn content_ranges(content: Node) -> Seq<SyntaxRange> {
    included_ranges_of(range_of(content), child_spans_of(children_of(content)))
}

/// The content range of `content` minus the Markdown block continuations
/// inside it, i.e. the list-item indentation in front of each line. The
/// content's other children are code tokens and stay in.
pub fn included_ranges(content: Node) -> (ranges: Vec<SyntaxRange>)
    ensures
        ranges@ == content_ranges(content),
{
    let range = node_range(content);
    let nodes = node_children(content);
    let mut children: Vec<ChildSpan> = Vec::new();
    let mut i: usize = 0;
    while i < nodes.len()
        invariant
            i <= nodes.len(),
            children@ == child_spans_of(nodes@.take(i as int)),
        decreases nodes.len() - i,
    {
        let kind = node_kind(nodes[i]);
        proof {
            reveal_strlit("block_continuation");
        }
        children.push(
            ChildSpan {
                continuation: str_equal(kind.as_str(), "block_continuation"),
                range: node_range(nodes[i]),
            },
        );
        assert(nodes@.take(i + 1) =~= nodes@.take(i as int).push(nodes@[i as int]));
        assert(children@ =~= child_spans_of(nodes@.take(i + 1)));
        i += 1;
    }
    assert(nodes@.take(nodes@.len() as int) =~= nodes@);
    included_ranges_from(range, &children)
}

/// What one capture of an injections match tells: its capture name and, for
/// an `injection.language` capture, the text it captured when that is UTF-8.
pub struct CaptureFact {
    pub name: String,
    pub text: Option<String>,
}

/// The value of the first `injection.language` property setting, if any.
pub open spec fn property_language(properties: Seq<(Seq<char>, Option<Seq<char>>)>) -> Option<
    Seq<char>,
>
    decreases properties.len(),
{
    if properties.len() == 0 {
        None
    } else if properties[0].0 == "injection.language"@ {
        properties[0].1
    } else {
        property_language(properties.drop_first())
    }
}

/// The language an injection match names: the text of its last
/// `injection.language` capture, else its pattern's setting `init`.
pub open spec fn captured_language(
    init: Option<Seq<char>>,
    captures: Seq<(Seq<char>, Option<Seq<char>>)>,
) -> Option<Seq<char>>
    decreases captures.len(),
{
    if captures.len() == 0 {
        init
    } else {
        let prev = captured_language(init, captures.drop_last());
        let c = captures.last();
        if c.0 == "injection.language"@ && c.1 is Some {
            c.1
        } else {
            prev
        }
    }
}

/// Index of the last `injection.content` capture, if any.
pub open spec fn content_capture(captures: Seq<(Seq<char>, Option<Seq<char>>)>) -> Option<int>
    decreases captures.len(),
{
    if captures.len() == 0 {
        None
    } else if captures.last().0 == "injection.content"@ {
        Some(captures.len() - 1)
    } else {
        content_capture(captures.drop_last())
    }
}

pub open spec fn facts_view(facts: Seq<CaptureFact>) -> Seq<(Seq<char>, Option<Seq<char>>)> {
    facts.map_values(
        |f: CaptureFact|
            (
                f.name@,
                match f.text {
                    Some(t) => Some(t@),
                    None => None,
                },
            ),
    )
}

fn option_string_copy(s: &Option<String>) -> (r: Option<String>)
    ensures
        r == *s,
{
    match s {
        Some(v) => Some(v.clone()),
        None => None,
    }
}

/// The language name and the content capture of one injections match.
pub fn match_target(properties: &Vec<(String, Option<String>)>, captures: &Vec<CaptureFact>) -> (r: (
    Option<String>,
    Option<usize>,
))
    ensures
        (match r.0 {
            Some(v) => Some(v@),
            None => None,
        }) == captured_language(
            property_language(properties_view(properties@)),
            facts_view(captures@),
        ),
        (match r.1 {
            Some(i) => Some(i as int),
            None => None,
        }) == content_capture(facts_view(captures@)),
        r.1 matches Some(i) ==> i < captures@.len(),
{
    let ghost pv = properties_view(properties@);
    let mut language: Option<String> = None;
    let mut found = false;
    let mut p: usize = 0;
    assert(pv.skip(0) =~= pv);
    while p < properties.len() && !found
        invariant
            p <= properties.len(),
            pv == properties_view(properties@),
            !found ==> language is None && property_language(pv) == property_language(
                pv.skip(p as int),
            ),
            found ==> (match language {
                Some(v) => Some(v@),
                None => None,
            }) == property_language(pv),
        decreases properties.len() - p + (if found {
            0int
        } else {
            1int
        }),
    {
        assert(pv.skip(p as int)[0] == pv[p as int]);
        assert(pv.skip(p as int).drop_first() =~= pv.skip(p + 1));
        if str_equal(properties[p].0.as_str(), "injection.language") {
            language = option_string_copy(&properties[p].1);
            found = true;
        } else {
            p += 1;
        }
    }
    proof {
        if !found {
            assert(pv.skip(p as int) =~= Seq::<(Seq<char>, Option<Seq<char>>)>::empty());
        }
    }
    let ghost init = property_language(pv);
    let ghost fv = facts_view(captures@);
    let mut content: Option<usize> = None;
    let mut i: usize = 0;
    assert(fv.take(0) =~= Seq::<(Seq<char>, Option<Seq<char>>)>::empty());
    while i < captures.len()
        invariant
            i <= captures.len(),
            fv == facts_view(captures@),
            (match language {
                Some(v) => Some(v@),
                None => None,
            }) == captured_language(init, fv.take(i as int)),
            (match content {
                Some(k) => Some(k as int),
                None => None,
            }) == content_capture(fv.take(i as int)),
            content matches Some(k) ==> k < i,
        decreases captures.len() - i,
    {
        assert(fv.take(i + 1).drop_last() =~= fv.take(i as int));
        assert(fv.take(i + 1).last() == fv[i as int]);
        assert(fv[i as int].0 == captures@[i as int].name@);
        proof {
            reveal_strlit("injection.language");
            reveal_strlit("injection.content");
        }
        let name = captures[i].name.as_str();
        if str_equal(name, "injection.language") {
            if captures[i].text.is_some() {
                language = option_string_copy(&captures[i].text);
            }
        } else if str_equal(name, "injection.content") {
            content = Some(i);
        }
        assert(content matches Some(k) ==> k <= i);
        i += 1;
    }
    assert(fv.take(captures@.len() as int) =~= fv);
    (language, content)
}

/// A grammar an injection can be parsed with, under the name a document uses for it.
pub struct InjectionLanguage {
    pub name: String,
    pub grammar: Language,
}

/// Index of the first language called `name`.
pub open spec fn language_index(names: Seq<Seq<char>>, name: Seq<char>) -> Option<int>
    decreases names.len(),
{
    if names.len() == 0 {
        None
    } else if names[0] == name {
        Some(0)
    } else {
        match language_index(names.drop_first(), name) {
            Some(i) => Some(i + 1),
            None => None,
        }
    }
}

pub open spec fn language_names(languages: Seq<InjectionLanguage>) -> Seq<Seq<char>> {
    languages.map_values(|l: InjectionLanguage| l.name@)
}

/// The language called `name`, if one is.
pub fn find_language(languages: &Vec<InjectionLanguage>, name: &str) -> (r: Option<usize>)
    ensures
        (match r {
            Some(i) => Some(i as int),
            None => None,
        }) == language_index(language_names(languages@), name@),
        r matches Some(i) ==> i < languages@.len(),
{
    let ghost names = language_names(languages@);
    let mut i: usize = 0;
    assert(names.skip(0) =~= names);
    while i < languages.len()
        invariant
            i <= languages.len(),
            names == language_names(languages@),
            language_index(names, name@) == (match language_index(names.skip(i as int), name@) {
                Some(k) => Some(k + i),
                None => None,
            }),
        decreases languages.len() - i,
    {
        assert(names.skip(i as int)[0] == names[i as int]);
        assert(names.skip(i as int).drop_first() =~= names.skip(i + 1));
        if str_equal(languages[i].name.as_str(), name) {
            return Some(i);
        }
        i += 1;
    }
    assert(names.skip(i as int) =~= Seq::<Seq<char>>::empty());
    None
}

/// What an injections match asks to parse: the index of the language it
/// names among `languages` and the index of its content capture, when it
/// names a known language and captures content.
pub open spec fn injection_target_of(
    properties: Seq<(Seq<char>, Option<Seq<char>>)>,
    captures: Seq<(Seq<char>, Option<Seq<char>>)>,
    names: Seq<Seq<char>>,
) -> Option<(int, int)> {
    match (captured_language(property_language(properties), captures), content_capture(captures)) {
        (Some(name), Some(ci)) => match language_index(names, name) {
            Some(li) => Some((li, ci)),
            None => None,
        },
        _ => None,
    }
}

/// The language and content capture an injections match is parsed with
/// ([`injection_target_of`]).
pub fn injection_target(
    properties: &Vec<(String, Option<String>)>,
    captures: &Vec<CaptureFact>,
    languages: &Vec<InjectionLanguage>,
) -> (r: Option<(usize, usize)>)
    ensures
        (match r {
            Some((li, ci)) => Some((li as int, ci as int)),
            None => None,
        }) == injection_target_of(
            properties_view(properties@),
            facts_view(captures@),
            language_names(languages@),
        ),
        r matches Some((li, ci)) ==> li < languages@.len() && ci < captures@.len(),
{
    let (language_name, content) = match_target(properties, captures);
    let language = match &language_name {
        Some(name) => find_language(languages, name.as_str()),
        None => None,
    };
    match (language, content) {
        (Some(li), Some(ci)) => Some((li, ci)),
        _ => None,
    }
}

/// Character ranges of byte ranges of `doc`: the non-empty ones, in order.
pub open spec fn char_ranges_of(ranges: Seq<SyntaxRange>, doc: Seq<char>) -> Seq<(int, int)>
    decreases ranges.len(),
{
    if ranges.len() == 0 {
        Seq::empty()
    } else {
        let r = ranges.last();
        let prev = char_ranges_of(ranges.drop_last(), doc);
        if r.start_byte < r.end_byte {
            prev.push(
                (
                    char_offset_of(doc, r.start_byte as int) as int,
                    char_offset_of(doc, r.end_byte as int) as int,
                ),
            )
        } else {
            prev
        }
    }
}

/// The character ranges of the non-empty byte ranges among `ranges`
/// ([`char_ranges_of`]).
pub fn char_ranges_from(ranges: &Vec<SyntaxRange>, buffer: &Buffer) -> (r: Vec<Range<usize>>)
    ensures
        r@.map_values(|x: Range<usize>| (x.start as int, x.end as int)) == char_ranges_of(
            ranges@,
            buffer@,
        ),
{
    let mut out: Vec<Range<usize>> = Vec::new();
    let mut i: usize = 0;
    assert(ranges@.take(0) =~= Seq::<SyntaxRange>::empty());
    while i < ranges.len()
        invariant
            i <= ranges.len(),
            out@.map_values(|x: Range<usize>| (x.start as int, x.end as int)) == char_ranges_of(
                ranges@.take(i as int),
                buffer@,
            ),
        decreases ranges.len() - i,
    {
        let r = ranges[i];
        assert(ranges@.take(i + 1).drop_last() =~= ranges@.take(i as int));
        assert(ranges@.take(i + 1).last() == r);
        if r.start_byte < r.end_byte {
            let ghost before = out@;
            let start = buffer.to_char_offset(r.start_byte);
            let end = buffer.to_char_offset(r.end_byte);
            out.push(start..end);
            assert(out@.map_values(|x: Range<usize>| (x.start as int, x.end as int)) =~= before.map_values(
                |x: Range<usize>| (x.start as int, x.end as int),
            ).push((start as int, end as int)));
        }
        i += 1;
    }
    assert(ranges@.take(ranges@.len() as int) =~= ranges@);
    out
}

/// An embedded code region, parsed over document coordinates so its
/// highlights need no offset translation. The parsed region is the tree's
/// included ranges; `language` indexes the grammars it was parsed with.
pub struct Injection {
    pub language: usize,
    pub tree: Tree,
}

impl Injection {
    /// Character ranges of the embedded code in the buffer: those of the
    /// tree's included ranges ([`char_ranges_of`]). Deleting a whole line of
    /// embedded code collapses its range to empty until the reparse; empty
    /// ranges are left out.
    pub fn char_ranges(&self, buffer: &Buffer) -> (r: Vec<Range<usize>>)
        ensures
            r@.map_values(|x: Range<usize>| (x.start as int, x.end as int)) == char_ranges_of(
                tree_ranges(self.tree),
                buffer@,
            ),
    {
        let ranges = tree_included_ranges(&self.tree);
        char_ranges_from(&ranges, buffer)
    }
}

/// Whether every offset and point of `ranges`, and their count, fits in
/// `u32`, as tree-sitter stores them ([`ranges_fit_u32`]).
fn fits_u32(ranges: &Vec<SyntaxRange>) -> (b: bool)
    ensures
        b == ranges_fit_u32(ranges@),
{
    if ranges.len() > 0xffff_ffff {
        return false;
    }
    let mut i: usize = 0;
    while i < ranges.len()
        invariant
            i <= ranges.len(),
            ranges@.len() <= u32::MAX,
            forall|j: int|
                0 <= j < i ==> {
                    &&& #[trigger] ranges@[j].start_byte <= u32::MAX
                    &&& ranges@[j].end_byte <= u32::MAX
                    &&& ranges@[j].start_point.row <= u32::MAX
                    &&& ranges@[j].start_point.column <= u32::MAX
                    &&& ranges@[j].end_point.row <= u32::MAX
                    &&& ranges@[j].end_point.column <= u32::MAX
                },
        decreases ranges.len() - i,
    {
        let r = ranges[i];
        if r.start_byte > 0xffff_ffff || r.end_byte > 0xffff_ffff || r.start_point.row > 0xffff_ffff
            || r.start_point.column > 0xffff_ffff || r.end_point.row > 0xffff_ffff
            || r.end_point.column > 0xffff_ffff {
            return false;
        }
        i += 1;
    }
    true
}

/// The bytes `start..end` of `text`, none when the range is reversed or
/// reaches past the end.
pub open spec fn bytes_in(text: Seq<u8>, start: int, end: int) -> Seq<u8> {
    if 0 <= start <= end <= text.len() {
        text.subrange(start, end)
    } else {
        Seq::empty()
    }
}

/// The text a node covers in `text`, when those bytes are UTF-8.
pub open spec fn node_text_of(text: Seq<u8>, node: Node) -> Option<Seq<char>> {
    let bytes = bytes_in(text, range_of(node).start_byte as int, range_of(node).end_byte as int);
    if vstd::utf8::valid_utf8(bytes) {
        Some(vstd::utf8::decode_utf8(bytes))
    } else {
        None
    }
}

/// The text a capture covers, when it is UTF-8 ([`node_text_of`]).
fn capture_text(text: &[u8], node: Node) -> (t: Option<String>)
    ensures
        (match t {
            Some(s) => Some(s@),
            None => None,
        }) == node_text_of(text@, node),
{
    let range = node_range(node);
    let bytes = TextSlice(text).get(range.start_byte..range.end_byte);
    let ghost covered = bytes_in(text@, range.start_byte as int, range.end_byte as int);
    assert(bytes.0@ == covered);
    match utf8_str(bytes.as_bytes()) {
        Some(s) => {
            proof {
                vstd::utf8::encode_utf8_decode_utf8(s@);
            }
            Some(s.to_owned())
        },
        None => None,
    }
}

/// The name of capture `index` among `names`; no name past their end.
pub open spec fn capture_name_at(names: Seq<Seq<char>>, index: u32) -> Seq<char> {
    if (index as int) < names.len() {
        names[index as int]
    } else {
        Seq::empty()
    }
}

/// What the captures of an injections match tell ([`CaptureFact`]): each
/// capture's name and, for an `injection.language` capture, its text.
pub open spec fn match_facts(names: Seq<Seq<char>>, text: Seq<u8>, captures: Seq<(u32, Node)>) -> Seq<
    (Seq<char>, Option<Seq<char>>),
> {
    captures.map_values(
        |c: (u32, Node)|
            (
                capture_name_at(names, c.0),
                if capture_name_at(names, c.0) == "injection.language"@ {
                    node_text_of(text, c.1)
                } else {
                    None
                },
            ),
    )
}

/// What one injections match is parsed as: the index of its language, the
/// tree of the whole `text` in that language over its content's included
/// ranges, and those ranges, when it names a known language that the parser
/// accepts and its content's ranges are ones tree-sitter takes. A content
/// without ranges leaves the parser on the whole document.
pub open spec fn injection_of(
    m: (Seq<(Seq<char>, Option<Seq<char>>)>, Seq<(u32, Node)>),
    names: Seq<Seq<char>>,
    text: Seq<u8>,
    languages: Seq<InjectionLanguage>,
) -> Option<(int, Tree, Seq<SyntaxRange>)> {
    match injection_target_of(m.0, match_facts(names, text, m.1), language_names(languages)) {
        Some((li, ci)) => {
            let ranges = content_ranges(m.1[ci].1);
            if language_accepted(languages[li].grammar) && ranges_fit_u32(ranges) && ranges_ordered(
                ranges,
            ) {
                Some(
                    (
                        li,
                        parsed(languages[li].grammar, effective_ranges(ranges), text),
                        effective_ranges(ranges),
                    ),
                )
            } else {
                None
            }
        },
        None => None,
    }
}

/// What the matches `ms` are parsed as, in order, skipping the others.
pub open spec fn injections_of(
    ms: Seq<(Seq<(Seq<char>, Option<Seq<char>>)>, Seq<(u32, Node)>)>,
    names: Seq<Seq<char>>,
    text: Seq<u8>,
    languages: Seq<InjectionLanguage>,
) -> Seq<(int, Tree, Seq<SyntaxRange>)>
    decreases ms.len(),
{
    if ms.len() == 0 {
        Seq::empty()
    } else {
        let prev = injections_of(ms.drop_last(), names, text, languages);
        match injection_of(ms.last(), names, text, languages) {
            Some(x) => prev.push(x),
            None => prev,
        }
    }
}

/// An injection by its language index, its tree and the tree's included ranges.
pub open spec fn injection_view(i: Injection) -> (int, Tree, Seq<SyntaxRange>) {
    (i.language as int, i.tree, tree_ranges(i.tree))
}

/// Parses every region the host tree's injections query matches whose
/// language is among `languages` ([`injections_of`]), in match order, each
/// over its content's included ranges. Regions in other languages are
/// skipped and keep the host highlighting. The parser is shared across
/// parses: it is left on the whole document again.
pub fn parse_injections(
    parser: &mut Parser,
    text: &[u8],
    host: &Tree,
    query: &Query,
    languages: &Vec<InjectionLanguage>,
) -> (injections: Vec<Injection>)
    ensures
        injections@.map_values(|i: Injection| injection_view(i)) == injections_of(
            matches_of(*query, root_node_of(host), text@),
            capture_names_of(*query),
            text@,
            languages@,
        ),
        forall|i: int| 0 <= i < injections@.len() ==> #[trigger] injections@[i].language < languages@.len(),
        parser_ranges(*final(parser)) == seq![whole_document()],
{
    let names = query_capture_names(query);
    let matches = query_matches(query, host, text);
    let ghost nv = capture_names_of(*query);
    let ghost ms = injection_matches_view(matches@);
    let mut injections: Vec<Injection> = Vec::new();
    let mut k: usize = 0;
    assert(ms.take(0) =~= Seq::<(Seq<(Seq<char>, Option<Seq<char>>)>, Seq<(u32, Node)>)>::empty());
    while k < matches.len()
        invariant
            k <= matches.len(),
            nv == names_view(names@),
            ms == injection_matches_view(matches@),
            injections@.map_values(|i: Injection| injection_view(i)) == injections_of(
                ms.take(k as int),
                nv,
                text@,
                languages@,
            ),
            forall|i: int|
                0 <= i < injections@.len() ==> #[trigger] injections@[i].language
                    < languages@.len(),
        decreases matches.len() - k,
    {
        let m = &matches[k];
        assert(ms[k as int] == match_view(*m));
        let mut facts: Vec<CaptureFact> = Vec::new();
        let mut j: usize = 0;
        proof {
            reveal_strlit("injection.language");
        }
        while j < m.captures.len()
            invariant
                j <= m.captures.len(),
                nv == names_view(names@),
                facts_view(facts@) == match_facts(nv, text@, m.captures@.take(j as int)),
            decreases m.captures.len() - j,
        {
            let index = m.captures[j].0 as usize;
            let name = if index < names.len() {
                names[index].clone()
            } else {
                String::new()
            };
            assert(name@ == capture_name_at(nv, m.captures@[j as int].0));
            let text_of = if str_equal(name.as_str(), "injection.language") {
                capture_text(text, m.captures[j].1)
            } else {
                None
            };
            let ghost before = facts@;
            facts.push(CaptureFact { name, text: text_of });
            assert(m.captures@.take(j + 1) =~= m.captures@.take(j as int).push(m.captures@[j as int]));
            assert(facts_view(facts@) =~= facts_view(before).push(facts_view(facts@).last()));
            assert(facts_view(facts@) =~= match_facts(nv, text@, m.captures@.take(j + 1)));
            j += 1;
        }
        assert(m.captures@.take(m.captures@.len() as int) =~= m.captures@);
        let ghost prev = injections@;
        proof {
            assert(ms.take(k + 1).drop_last() =~= ms.take(k as int));
            assert(ms.take(k + 1).last() == ms[k as int]);
        }
        match injection_target(&m.properties, &facts, languages) {
            Some((li, ci)) => {
                if set_parser_language(parser, &languages[li].grammar) {
                    let ranges = included_ranges(m.captures[ci].1);
                    if fits_u32(&ranges) && set_parser_included_ranges(parser, &ranges) {
                        match parse_text(parser, text) {
                            Some(tree) => {
                                injections.push(Injection { language: li, tree });
                                assert(injections@.map_values(|i: Injection| injection_view(i))
                                    =~= prev.map_values(|i: Injection| injection_view(i)).push(
                                    (li as int, tree, effective_ranges(ranges@)),
                                ));
                            },
                            None => {},
                        }
                    }
                }
            },
            None => {},
        }
        k += 1;
    }
    assert(ms.take(matches@.len() as int) =~= ms);
    let empty: Vec<SyntaxRange> = Vec::new();
    let reset = set_parser_included_ranges(parser, &empty);
    assert(reset);
    assert(effective_ranges(empty@) =~= seq![whole_document()]);
    injections
}

} // verus!
