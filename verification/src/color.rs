//! Colours and the mapping from a highlight capture name to its colour.

use vstd::prelude::*;

use crate::text::{chars_of, find_char, find_char_in, lemma_find_char_at, range_eq_str};

verus! {

/// An RGBA colour.
#[derive(Clone, Copy, Debug, PartialEq, Eq, Structural)]
pub struct ColorU {
    pub r: u8,
    pub g: u8,
    pub b: u8,
    pub a: u8,
}

impl ColorU {
    /// The colour with the given channels.
    pub fn new(r: u8, g: u8, b: u8, a: u8) -> (c: Self)
        ensures
            c == (ColorU { r, g, b, a }),
    {
        ColorU { r, g, b, a }
    }
}

/// Color mapping from parsed syntax token name to its corresponding highlighting color.
#[derive(Clone, Copy, Debug)]
pub struct ColorMap {
    pub keyword_color: ColorU,
    pub function_color: ColorU,
    pub string_color: ColorU,
    pub type_color: ColorU,
    pub number_color: ColorU,
    pub comment_color: ColorU,
    pub property_color: ColorU,
    pub tag_color: ColorU,
    pub markdown_key_color: ColorU,
    pub markdown_value_color: ColorU,
}

/// The part of a capture name before its first `'.'` (`name.split('.').next()`).
pub open spec fn first_segment(name: Seq<char>) -> Seq<char> {
    match find_char(name, '.') {
        Some(i) => name.take(i),
        None => name,
    }
}

/// The colour of a capture whose name begins with `segment`.
pub open spec fn segment_color(segment: Seq<char>, m: ColorMap) -> Option<ColorU> {
    if segment == "keyword"@ {
        Some(m.keyword_color)
    } else if segment == "function"@ {
        Some(m.function_color)
    } else if segment == "string"@ {
        Some(m.string_color)
    } else if segment == "type"@ {
        Some(m.type_color)
    } else if segment == "number"@ {
        Some(m.number_color)
    } else if segment == "comment"@ {
        Some(m.comment_color)
    } else if segment == "property"@ {
        Some(m.property_color)
    } else if segment == "tag"@ {
        Some(m.tag_color)
    } else if segment == "punctuation"@ {
        Some(m.comment_color)
    } else {
        None
    }
}

/// The colour of the capture `name`: a few full names have colours of their
/// own, every other name is coloured by its first segment.
pub open spec fn capture_color(name: Seq<char>, m: ColorMap) -> Option<ColorU> {
    if name == "comment.markdown_key"@ {
        Some(m.markdown_key_color)
    } else if name == "type.markdown_value"@ {
        Some(m.markdown_value_color)
    } else if name == "text.title"@ {
        Some(m.keyword_color)
    } else if name == "text.literal"@ {
        Some(m.string_color)
    } else if name == "text.uri"@ {
        Some(m.function_color)
    } else if name == "text.reference"@ {
        Some(m.property_color)
    } else {
        segment_color(first_segment(name), m)
    }
}

fn segment_color_in(v: &Vec<char>, hi: usize, color_map: &ColorMap) -> (c: Option<ColorU>)
    requires
        hi <= v.len(),
    ensures
        c == segment_color(v@.subrange(0, hi as int), *color_map),
{
    if range_eq_str(v, 0, hi, "keyword") {
        Some(color_map.keyword_color)
    } else if range_eq_str(v, 0, hi, "function") {
        Some(color_map.function_color)
    } else if range_eq_str(v, 0, hi, "string") {
        Some(color_map.string_color)
    } else if range_eq_str(v, 0, hi, "type") {
        Some(color_map.type_color)
    } else if range_eq_str(v, 0, hi, "number") {
        Some(color_map.number_color)
    } else if range_eq_str(v, 0, hi, "comment") {
        Some(color_map.comment_color)
    } else if range_eq_str(v, 0, hi, "property") {
        Some(color_map.property_color)
    } else if range_eq_str(v, 0, hi, "tag") {
        Some(color_map.tag_color)
    } else if range_eq_str(v, 0, hi, "punctuation") {
        Some(color_map.comment_color)
    } else {
        None
    }
}

/// The colour that highlights the capture `name` ([`capture_color`]), if any.
pub fn convert_capture_name_to_color(name: &str, color_map: &ColorMap) -> (c: Option<ColorU>)
    ensures
        c == capture_color(name@, *color_map),
{
    let v = chars_of(name);
    let n = v.len();
    assert(v@.subrange(0, n as int) =~= v@);
    if range_eq_str(&v, 0, n, "comment.markdown_key") {
        return Some(color_map.markdown_key_color);
    } else if range_eq_str(&v, 0, n, "type.markdown_value") {
        return Some(color_map.markdown_value_color);
    } else if range_eq_str(&v, 0, n, "text.title") {
        return Some(color_map.keyword_color);
    } else if range_eq_str(&v, 0, n, "text.literal") {
        return Some(color_map.string_color);
    } else if range_eq_str(&v, 0, n, "text.uri") {
        return Some(color_map.function_color);
    } else if range_eq_str(&v, 0, n, "text.reference") {
        return Some(color_map.property_color);
    }
    let end = match find_char_in(&v, 0, n, '.') {
        Some(k) => k,
        None => n,
    };
    assert(first_segment(name@) =~= v@.subrange(0, end as int));
    segment_color_in(&v, end, color_map)
}

/// The capture names with colours of their own, whatever their first segment.
pub open spec fn has_own_color(name: Seq<char>) -> bool {
    ||| name == "comment.markdown_key"@
    ||| name == "type.markdown_value"@
    ||| name == "text.title"@
    ||| name == "text.literal"@
    ||| name == "text.uri"@
    ||| name == "text.reference"@
}

/// Every capture name without a colour of its own is coloured by its text
/// before the first `'.'`, whatever follows: `seg.rest` gets the colour of
/// `seg` (so `keyword.control.conditional` gets the keyword colour).
pub proof fn lemma_color_by_first_segment(seg: Seq<char>, rest: Seq<char>, m: ColorMap)
    requires
        !seg.contains('.'),
        !has_own_color(seg + seq!['.'] + rest),
    ensures
        capture_color(seg + seq!['.'] + rest, m) == capture_color(seg, m),
{
    let name = seg + seq!['.'] + rest;
    let k = seg.len() as int;
    assert forall|j: int| 0 <= j < k implies name[j] != '.' by {
        assert(name[j] == seg[j]);
        if seg[j] == '.' {
            assert(seg.contains('.'));
        }
    }
    assert(name[k] == '.');
    lemma_find_char_at(name, '.', k);
    assert(name.take(k) =~= seg);
    assert forall|j: int| 0 <= j < k implies seg[j] != '.' by {
        if seg[j] == '.' {
            assert(seg.contains('.'));
        }
    }
    lemma_find_char_at(seg, '.', k);
    lemma_no_dot_has_no_own_color(seg);
}

proof fn lemma_no_dot_has_no_own_color(seg: Seq<char>)
    requires
        !seg.contains('.'),
    ensures
        !has_own_color(seg),
{
    reveal_strlit("comment.markdown_key");
    reveal_strlit("type.markdown_value");
    reveal_strlit("text.title");
    reveal_strlit("text.literal");
    reveal_strlit("text.uri");
    reveal_strlit("text.reference");
    if seg == "comment.markdown_key"@ {
        assert(seg[7] == '.');
    }
    if seg == "type.markdown_value"@ || seg == "text.title"@ || seg == "text.literal"@ || seg
        == "text.uri"@ || seg == "text.reference"@ {
        assert(seg[4] == '.');
    }
}

/// The six names with colours of their own get them whatever their first
/// segment would give: Markdown keys and values their own colours, titles
/// the keyword colour, literals the string colour, URIs the function colour
/// and references the property colour.
pub proof fn lemma_own_colors(m: ColorMap)
    ensures
        capture_color("comment.markdown_key"@, m) == Some(m.markdown_key_color),
        capture_color("type.markdown_value"@, m) == Some(m.markdown_value_color),
        capture_color("text.title"@, m) == Some(m.keyword_color),
        capture_color("text.literal"@, m) == Some(m.string_color),
        capture_color("text.uri"@, m) == Some(m.function_color),
        capture_color("text.reference"@, m) == Some(m.property_color),
{
    reveal_strlit("comment.markdown_key");
    reveal_strlit("type.markdown_value");
    reveal_strlit("text.title");
    reveal_strlit("text.literal");
    reveal_strlit("text.uri");
    reveal_strlit("text.reference");
    assert("type.markdown_value"@.len() != "comment.markdown_key"@.len());
    assert("text.title"@.len() != "comment.markdown_key"@.len());
    assert("text.title"@.len() != "type.markdown_value"@.len());
    assert("text.literal"@.len() != "comment.markdown_key"@.len());
    assert("text.literal"@.len() != "type.markdown_value"@.len());
    assert("text.literal"@.len() != "text.title"@.len());
    assert("text.uri"@.len() != "comment.markdown_key"@.len());
    assert("text.uri"@.len() != "type.markdown_value"@.len());
    assert("text.uri"@.len() != "text.title"@.len());
    assert("text.uri"@.len() != "text.literal"@.len());
    assert("text.reference"@.len() != "comment.markdown_key"@.len());
    assert("text.reference"@.len() != "type.markdown_value"@.len());
    assert("text.reference"@.len() != "text.title"@.len());
    assert("text.reference"@.len() != "text.literal"@.len());
    assert("text.reference"@.len() != "text.uri"@.len());
}

/// The colours of whole names without a `'.'`: the keyword, function,
/// string, type, number, comment, property and tag colours for those names,
/// the comment colour for punctuation, and none for any other.
pub proof fn lemma_segment_colors(seg: Seq<char>, m: ColorMap)
    requires
        !seg.contains('.'),
    ensures
        seg == "keyword"@ ==> capture_color(seg, m) == Some(m.keyword_color),
        seg == "function"@ ==> capture_color(seg, m) == Some(m.function_color),
        seg == "string"@ ==> capture_color(seg, m) == Some(m.string_color),
        seg == "type"@ ==> capture_color(seg, m) == Some(m.type_color),
        seg == "number"@ ==> capture_color(seg, m) == Some(m.number_color),
        seg == "comment"@ ==> capture_color(seg, m) == Some(m.comment_color),
        seg == "property"@ ==> capture_color(seg, m) == Some(m.property_color),
        seg == "tag"@ ==> capture_color(seg, m) == Some(m.tag_color),
        seg == "punctuation"@ ==> capture_color(seg, m) == Some(m.comment_color),
        !(seg == "keyword"@ || seg == "function"@ || seg == "string"@ || seg == "type"@ || seg
            == "number"@ || seg == "comment"@ || seg == "property"@ || seg == "tag"@ || seg
            == "punctuation"@) ==> capture_color(seg, m) is None,
{
    reveal_strlit("keyword");
    reveal_strlit("function");
    reveal_strlit("string");
    reveal_strlit("type");
    reveal_strlit("number");
    reveal_strlit("comment");
    reveal_strlit("property");
    reveal_strlit("tag");
    reveal_strlit("punctuation");
    lemma_no_dot_has_no_own_color(seg);
    assert forall|j: int| 0 <= j < seg.len() implies seg[j] != '.' by {
        if seg[j] == '.' {
            assert(seg.contains('.'));
        }
    }
    lemma_find_char_at(seg, '.', seg.len() as int);
}

} // verus!
