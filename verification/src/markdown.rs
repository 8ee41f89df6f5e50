//! Markdown "field" lines (`key: value`): the byte ranges that highlighting
//! colours as the key or as the value.

use std::ops::Range;
use vstd::prelude::*;

use crate::text::{
    lemma_trim_as_subrange, lemma_trailing_ws_stops, trim_start,
    byte_len, char_width, is_white_space, lemma_byte_len_split, lemma_leading_ws_bound,
    lemma_leading_ws_stops,
    lemma_trailing_ws_bound, trailing_ws, alphabetic, alphanumeric, chars_of, find_char, find_char_in, char_is_alphabetic,
    char_is_alphanumeric, leading_ws, leading_ws_in, lemma_byte_len_subrange_split,
    lemma_find_char_props, trailing_ws_in, trim_end, byte_len_in, trim, lemma_byte_len_concat,
};

verus! {

/// A byte range as a pair of mathematical integers.
pub open spec fn range_view(r: Range<usize>) -> (int, int) {
    (r.start as int, r.end as int)
}

/// Number of characters in the first line of `s`, its `'\n'` included
/// (the first item of `str::split_inclusive('\n')`).
pub open spec fn line_len(s: Seq<char>) -> int {
    match find_char(s, '\n') {
        Some(i) => i + 1,
        None => s.len() as int,
    }
}

/// A character that may appear in a field name.
pub open spec fn name_char_ok(c: char) -> bool {
    alphanumeric(c) || c == '_' || c == '-' || c == ' ' || c == '\t'
}

/// A field name: after leading whitespace it starts with a letter or `'_'`,
/// and it holds only letters, digits, `'_'`, `'-'`, spaces and tabs.
pub open spec fn valid_name(name: Seq<char>) -> bool {
    let lead = leading_ws(name) as int;
    &&& lead < name.len()
    &&& (alphabetic(name[lead]) || name[lead] == '_')
    &&& forall|j: int| 0 <= j < name.len() ==> name_char_ok(#[trigger] name[j])
}

/// A value that starts with `"//"` (a URL scheme or a comment, not a field).
pub open spec fn starts_with_slashes(value: Seq<char>) -> bool {
    value.len() >= 2 && value[0] == '/' && value[1] == '/'
}

/// The range a single line contributes, the line starting at byte `offset`:
/// the line (trailing whitespace trimmed) is split at its first `':'` into a
/// name and a value; the name must be a [`valid_name`] and the value must not
/// start with `"//"`. With `key` the range covers the trimmed name, otherwise
/// the value from its first non-whitespace character to the end of the line.
pub open spec fn field_range(line: Seq<char>, offset: int, key: bool) -> Option<(int, int)> {
    let t = trim_end(line);
    match find_char(t, ':') {
        None => None,
        Some(c) => {
            let name = t.take(c);
            let value = t.skip(c + 1);
            if valid_name(name) && !starts_with_slashes(value) {
                if key {
                    Some(
                        (
                            offset + byte_len(name.take(leading_ws(name) as int)),
                            offset + byte_len(trim_end(name)),
                        ),
                    )
                } else {
                    Some(
                        (
                            offset + byte_len(name) + 1 + byte_len(
                                value.take(leading_ws(value) as int),
                            ),
                            offset + byte_len(t),
                        ),
                    )
                }
            } else {
                None
            }
        },
    }
}

/// The ranges of all lines of `text`, in order, the text starting at byte `offset`.
pub open spec fn field_ranges(text: Seq<char>, offset: int, key: bool) -> Seq<(int, int)>
    decreases text.len(),
{
    if text.len() == 0 {
        Seq::empty()
    } else {
        let n = line_len(text);
        proof {
            lemma_find_char_props(text, '\n');
        }
        let line = text.take(n);
        let here = match field_range(line, offset, key) {
            Some(r) => seq![r],
            None => Seq::empty(),
        };
        here + field_ranges(text.skip(n), offset + byte_len(line), key)
    }
}

proof fn lemma_trailing_ws_before(s: Seq<char>, i: int)
    requires
        0 <= i < s.len(),
        !is_white_space(s[i]),
    ensures
        trailing_ws(s) < s.len() - i,
    decreases s.len(),
{
    if s.len() > 0 && is_white_space(s.last()) {
        assert(i < s.len() - 1);
        assert(s.drop_last()[i] == s[i]);
        lemma_trailing_ws_before(s.drop_last(), i);
    }
}

proof fn lemma_byte_len_prefix_le(s: Seq<char>, i: int, j: int)
    requires
        0 <= i <= j <= s.len(),
    ensures
        byte_len(s.take(i)) <= byte_len(s.take(j)),
        i < j ==> byte_len(s.take(i)) < byte_len(s.take(j)),
{
    lemma_byte_len_split(s.take(j), i);
    assert(s.take(j).take(i) =~= s.take(i));
    if i < j {
        let rest = s.take(j).skip(i);
        assert(rest.len() > 0);
        assert(byte_len(rest) >= char_width(rest[0]));
        assert(char_width(rest[0]) >= 1);
    }
}

/// On one line, the key's range (when the line is a field) starts at or
/// after the line's start, ends before the value's range starts, and the
/// value's range ends within the line.
proof fn lemma_line_key_before_value(line: Seq<char>, offset: int)
    ensures
        field_range(line, offset, true) is Some <==> field_range(line, offset, false) is Some,
        field_range(line, offset, true) matches Some(k) ==> ({
            let v = field_range(line, offset, false)->0;
            offset <= k.0 <= k.1 < v.0 <= v.1 <= offset + byte_len(line)
        }),
        field_range(line, offset, false) matches Some(v) ==> (line.len() > 0 && line.last() == '\n'
            ==> v.1 < offset + byte_len(line)),
{
    let t = trim_end(line);
    lemma_trailing_ws_bound(line);
    if line.len() > 0 && line.last() == '\n' {
        assert(is_white_space('\n'));
        assert(trailing_ws(line) >= 1);
        lemma_byte_len_prefix_le(line, t.len() as int, line.len() as int);
        assert(line.take(line.len() as int) =~= line);
    }
    lemma_find_char_props(t, ':');
    if let Some(c) = find_char(t, ':') {
        let name = t.take(c);
        let value = t.skip(c + 1);
        if valid_name(name) && !starts_with_slashes(value) {
            let lead = leading_ws(name) as int;
            lemma_leading_ws_stops(name);
            lemma_trailing_ws_before(name, lead);
            lemma_trailing_ws_bound(name);
            lemma_byte_len_prefix_le(name, lead, name.len() - trailing_ws(name));
            lemma_byte_len_prefix_le(name, name.len() - trailing_ws(name), name.len() as int);
            assert(name.take(name.len() as int) =~= name);
            lemma_leading_ws_bound(value);
            lemma_byte_len_prefix_le(value, leading_ws(value) as int, value.len() as int);
            assert(value.take(value.len() as int) =~= value);
            // t is the name, the colon and the value.
            lemma_byte_len_split(t, c);
            let after = t.skip(c);
            assert(after[0] == ':');
            assert(after.drop_first() =~= value);
            assert(char_width(':') == 1);
            lemma_byte_len_prefix_le(line, t.len() as int, line.len() as int);
            assert(line.take(line.len() as int) =~= line);
        }
    }
}

/// Where the field ranges of `text` may lie: keys and values alternate,
/// key before value on each field line, all within `[lo, hi]`.
pub open spec fn fields_interleave(keys: Seq<(int, int)>, values: Seq<(int, int)>, lo: int, hi: int) -> bool {
    &&& keys.len() == values.len()
    &&& forall|i: int|
        0 <= i < keys.len() ==> lo <= #[trigger] keys[i].0 <= keys[i].1 < values[i].0 <= values[i].1 <= hi
    &&& forall|i: int, j: int| 0 <= i < j < keys.len() ==> #[trigger] values[i].1 < #[trigger] keys[j].0
}

/// The key and value ranges of a text pair up line by line: each field's
/// key ends before its value starts, the fields come in text order, and all
/// ranges lie within the text's bytes.
pub proof fn lemma_keys_precede_values(text: Seq<char>, offset: int)
    ensures
        fields_interleave(
            field_ranges(text, offset, true),
            field_ranges(text, offset, false),
            offset,
            offset + byte_len(text),
        ),
    decreases text.len(),
{
    if text.len() > 0 {
        let n = line_len(text);
        lemma_find_char_props(text, '\n');
        let line = text.take(n);
        let rest = text.skip(n);
        let next = offset + byte_len(line);
        lemma_keys_precede_values(rest, next);
        lemma_line_key_before_value(line, offset);
        lemma_byte_len_split(text, n);
        let rk = field_ranges(rest, next, true);
        let rv = field_ranges(rest, next, false);
        let hk: Seq<(int, int)> = match field_range(line, offset, true) {
            Some(r) => seq![r],
            None => Seq::empty(),
        };
        let hv: Seq<(int, int)> = match field_range(line, offset, false) {
            Some(r) => seq![r],
            None => Seq::empty(),
        };
        assert(field_ranges(text, offset, true) == hk + rk);
        assert(field_ranges(text, offset, false) == hv + rv);
        let keys = hk + rk;
        let values = hv + rv;
        assert forall|i: int| 0 <= i < keys.len() implies offset <= #[trigger] keys[i].0 <= keys[i].1
            < values[i].0 <= values[i].1 <= offset + byte_len(text) by {
            if i >= hk.len() {
                assert(keys[i] == rk[i - hk.len()]);
                assert(values[i] == rv[i - hk.len()]);
            }
        }
        if rest.len() > 0 {
            assert(find_char(text, '\n') is Some);
            assert(line.last() == '\n');
        }
        assert forall|i: int, j: int| 0 <= i < j < keys.len() implies #[trigger] values[i].1
            < #[trigger] keys[j].0 by {
            if i >= hk.len() {
                assert(values[i] == rv[i - hk.len()]);
                assert(keys[j] == rk[j - hk.len()]);
            } else {
                assert(keys[j] == rk[j - hk.len()]);
            }
        }
    }
}

/// `ranges` moved `by` bytes along.
pub open spec fn shifted(ranges: Seq<(int, int)>, by: int) -> Seq<(int, int)> {
    ranges.map_values(|r: (int, int)| (r.0 + by, r.1 + by))
}

/// Starting the text `by` bytes later moves every field range `by` bytes
/// along.
pub proof fn lemma_field_ranges_shift(text: Seq<char>, offset: int, by: int, key: bool)
    ensures
        field_ranges(text, offset + by, key) == shifted(field_ranges(text, offset, key), by),
    decreases text.len(),
{
    if text.len() == 0 {
        assert(shifted(Seq::<(int, int)>::empty(), by) =~= Seq::<(int, int)>::empty());
    } else {
        let n = line_len(text);
        lemma_find_char_props(text, '\n');
        let line = text.take(n);
        let rest = text.skip(n);
        lemma_field_ranges_shift(rest, offset + byte_len(line), by, key);
        let here: Seq<(int, int)> = match field_range(line, offset, key) {
            Some(r) => seq![r],
            None => Seq::empty(),
        };
        let tail = field_ranges(rest, offset + byte_len(line), key);
        assert(field_ranges(text, offset, key) == here + tail);
        assert(shifted(here + tail, by) =~= shifted(here, by) + shifted(tail, by));
        assert(field_ranges(text, offset + by, key) =~= shifted(here, by) + shifted(tail, by));
    }
}

proof fn lemma_find_char_concat(a: Seq<char>, b: Seq<char>, c: char)
    requires
        find_char(a, c) is Some,
    ensures
        find_char(a + b, c) == find_char(a, c),
{
    lemma_find_char_props(a, c);
    let i = find_char(a, c)->0;
    assert forall|j: int| 0 <= j < i implies (a + b)[j] != c by {
        assert((a + b)[j] == a[j]);
    }
    assert((a + b)[i] == a[i]);
    crate::text::lemma_find_char_at(a + b, c, i);
}

/// The field ranges of two texts joined after a line end are those of the
/// first followed by those of the second, which starts where the first's
/// bytes end.
pub proof fn lemma_field_ranges_concat(a: Seq<char>, b: Seq<char>, offset: int, key: bool)
    requires
        a.len() == 0 || a.last() == '\n',
    ensures
        field_ranges(a + b, offset, key) == field_ranges(a, offset, key) + field_ranges(
            b,
            offset + byte_len(a),
            key,
        ),
    decreases a.len(),
{
    if a.len() == 0 {
        assert(a + b =~= b);
        assert(byte_len(a) == 0);
        assert(Seq::<(int, int)>::empty() + field_ranges(b, offset, key) =~= field_ranges(b, offset, key));
    } else {
        let ab = a + b;
        assert(a[a.len() - 1] == '\n');
        lemma_find_char_props(a, '\n');
        assert(find_char(a, '\n') is Some);
        lemma_find_char_concat(a, b, '\n');
        let n = line_len(a);
        assert(line_len(ab) == n);
        lemma_find_char_props(ab, '\n');
        let line = a.take(n);
        assert(ab.take(n) =~= line);
        let rest = a.skip(n);
        assert(ab.skip(n) =~= rest + b);
        if rest.len() > 0 {
            assert(rest.last() == a.last());
        }
        lemma_field_ranges_concat(rest, b, offset + byte_len(line), key);
        lemma_byte_len_split(a, n);
        let here: Seq<(int, int)> = match field_range(line, offset, key) {
            Some(r) => seq![r],
            None => Seq::empty(),
        };
        assert(field_ranges(ab, offset, key) == here + field_ranges(rest + b, offset + byte_len(line), key));
        assert(field_ranges(a, offset, key) == here + field_ranges(rest, offset + byte_len(line), key));
        assert(here + (field_ranges(rest, offset + byte_len(line), key) + field_ranges(
            b,
            offset + byte_len(line) + byte_len(rest),
            key,
        )) =~= (here + field_ranges(rest, offset + byte_len(line), key)) + field_ranges(
            b,
            offset + byte_len(line) + byte_len(rest),
            key,
        ));
    }
}

/// What a line contributes as text: its trimmed field name (`key`) or its
/// trimmed value, when the line is a field ([`field_range`]).
pub open spec fn field_part(line: Seq<char>, key: bool) -> Option<Seq<char>> {
    let t = trim_end(line);
    match find_char(t, ':') {
        None => None,
        Some(c) => {
            let name = t.take(c);
            let value = t.skip(c + 1);
            if valid_name(name) && !starts_with_slashes(value) {
                Some(if key { trim(name) } else { trim(value) })
            } else {
                None
            }
        },
    }
}

/// The field names (`key`) or values of the lines of `text`, in order.
pub open spec fn field_parts(text: Seq<char>, key: bool) -> Seq<Seq<char>>
    decreases text.len(),
{
    if text.len() == 0 {
        Seq::empty()
    } else {
        let n = line_len(text);
        proof {
            lemma_find_char_props(text, '\n');
        }
        let here = match field_part(text.take(n), key) {
            Some(p) => seq![p],
            None => Seq::empty(),
        };
        here + field_parts(text.skip(n), key)
    }
}

/// The byte range `r` of a text starting at byte `offset` is that of its
/// characters `p..q`, and those are `part`.
pub open spec fn located(text: Seq<char>, offset: int, r: (int, int), part: Seq<char>, p: int, q: int) -> bool {
    &&& 0 <= p <= q <= text.len()
    &&& r == (offset + byte_len(text.take(p)), offset + byte_len(text.take(q)))
    &&& text.subrange(p, q) == part
}

/// The byte range `r` of a text starting at byte `offset` is that of some
/// of its characters, and those are `part`.
pub open spec fn covered(text: Seq<char>, offset: int, r: (int, int), part: Seq<char>) -> bool {
    exists|p: int, q: int| #[trigger] located(text, offset, r, part, p, q)
}

/// Each range of `ranges` covers, on character boundaries, the matching
/// text of `parts`.
pub open spec fn covers(text: Seq<char>, offset: int, ranges: Seq<(int, int)>, parts: Seq<Seq<char>>) -> bool {
    &&& ranges.len() == parts.len()
    &&& forall|i: int| 0 <= i < ranges.len() ==> #[trigger] covered(text, offset, ranges[i], parts[i])
}

proof fn lemma_byte_len_colon()
    ensures
        byte_len(seq![':']) == 1,
{
    let s = seq![':'];
    assert(s[0] == ':');
    assert(char_width(':') == 1);
    assert(s.drop_first() =~= Seq::<char>::empty());
    assert(byte_len(s.drop_first()) == 0);
}

proof fn lemma_line_parts(line: Seq<char>, offset: int, key: bool)
    ensures
        field_range(line, offset, key) is Some <==> field_part(line, key) is Some,
        field_range(line, offset, key) matches Some(r) ==> exists|p: int, q: int|
            #[trigger] located(line, offset, r, field_part(line, key)->0, p, q),
        key && field_part(line, key) is Some ==> field_part(line, key)->0.len() > 0,
{
    let t = trim_end(line);
    lemma_trailing_ws_bound(line);
    lemma_find_char_props(t, ':');
    if let Some(c) = find_char(t, ':') {
        let name = t.take(c);
        let value = t.skip(c + 1);
        if valid_name(name) && !starts_with_slashes(value) {
            if key {
                let p = leading_ws(name) as int;
                crate::text::lemma_trim_as_subrange(name);
                let q = name.len() - trailing_ws(name);
                assert(line.take(p) =~= name.take(p));
                assert(line.take(q) =~= trim_end(name));
                assert(line.subrange(p, q) =~= name.subrange(p, q));
                assert(field_part(line, key) == Some(trim(name)));
                assert(located(line, offset, field_range(line, offset, key)->0, trim(name), p, q));
                assert(located(line, offset, field_range(line, offset, key)->0, field_part(line, key)->0, p, q));
            } else {
                let lv = leading_ws(value) as int;
                lemma_leading_ws_bound(value);
                let p = c + 1 + lv;
                let q = t.len() as int;
                assert(line.take(p) =~= name + seq![':'] + value.take(lv));
                lemma_byte_len_concat(name + seq![':'], value.take(lv));
                lemma_byte_len_concat(name, seq![':']);
                lemma_byte_len_colon();
                assert(line.take(q) =~= t);
                assert(line.subrange(p, q) =~= value.skip(lv));
                let u = value.skip(lv);
                if u.len() > 0 {
                    crate::text::lemma_trailing_ws_stops(line);
                    assert(u.last() == t.last());
                    assert(t.last() == line[line.len() - trailing_ws(line) - 1]);
                    assert(trailing_ws(u) == 0);
                }
                assert(trim_end(u) =~= u);
                assert(field_part(line, key) == Some(trim(value)));
                assert(located(line, offset, field_range(line, offset, key)->0, trim(value), p, q));
                assert(located(line, offset, field_range(line, offset, key)->0, field_part(line, key)->0, p, q));
            }
        }
    }
}

/// The field ranges cover their names and values exactly: each key range
/// is the bytes of its line's trimmed field name, never empty, and each
/// value range the bytes of its trimmed value, all on character boundaries.
pub proof fn lemma_fields_cover(text: Seq<char>, offset: int, key: bool)
    ensures
        covers(text, offset, field_ranges(text, offset, key), field_parts(text, key)),
        key ==> forall|i: int|
            0 <= i < field_parts(text, key).len() ==> #[trigger] field_parts(text, key)[i].len() > 0,
    decreases text.len(),
{
    if text.len() > 0 {
        let n = line_len(text);
        lemma_find_char_props(text, '\n');
        let line = text.take(n);
        let rest = text.skip(n);
        let next = offset + byte_len(line);
        lemma_fields_cover(rest, next, key);
        lemma_line_parts(line, offset, key);
        let hr: Seq<(int, int)> = match field_range(line, offset, key) {
            Some(r) => seq![r],
            None => Seq::empty(),
        };
        let hp: Seq<Seq<char>> = match field_part(line, key) {
            Some(p) => seq![p],
            None => Seq::empty(),
        };
        let rr = field_ranges(rest, next, key);
        let rp = field_parts(rest, key);
        let ranges = hr + rr;
        let parts = hp + rp;
        assert(field_ranges(text, offset, key) == ranges);
        assert(field_parts(text, key) == parts);
        assert forall|i: int| 0 <= i < ranges.len() implies #[trigger] covered(
            text,
            offset,
            ranges[i],
            parts[i],
        ) by {
            if i < hr.len() {
                let (p, q) = choose|p: int, q: int| #[trigger] located(line, offset, hr[0], hp[0], p, q);
                assert(text.take(p) =~= line.take(p));
                assert(text.take(q) =~= line.take(q));
                assert(text.subrange(p, q) =~= line.subrange(p, q));
                assert(located(text, offset, ranges[i], parts[i], p, q));
            } else {
                let k = i - hr.len();
                assert(ranges[i] == rr[k]);
                assert(parts[i] == rp[k]);
                assert(covered(rest, next, rr[k], rp[k]));
                let (p, q) = choose|p: int, q: int| #[trigger] located(rest, next, rr[k], rp[k], p, q);
                assert(text.take(n + p) =~= line + rest.take(p));
                assert(text.take(n + q) =~= line + rest.take(q));
                lemma_byte_len_concat(line, rest.take(p));
                lemma_byte_len_concat(line, rest.take(q));
                assert(text.subrange(n + p, n + q) =~= rest.subrange(p, q));
                assert(located(text, offset, ranges[i], parts[i], n + p, n + q));
            }
        }
        assert(hr.len() == hp.len());
        assert(ranges.len() == parts.len());
        assert(covers(text, offset, ranges, parts));
        if key {
            assert forall|i: int| 0 <= i < parts.len() implies #[trigger] parts[i].len() > 0 by {
                if i >= hp.len() {
                    assert(parts[i] == rp[i - hp.len()]);
                }
            }
        }
    }
}

/// The field lines of `text`, in order, each as its trimmed name and its
/// trimmed value (the line split at its first `':'`).
pub open spec fn field_pairs(text: Seq<char>) -> Seq<(Seq<char>, Seq<char>)>
    decreases text.len(),
{
    if text.len() == 0 {
        Seq::empty()
    } else {
        let n = line_len(text);
        proof {
            lemma_find_char_props(text, '\n');
        }
        let line = text.take(n);
        let here = match (field_part(line, true), field_part(line, false)) {
            (Some(k), Some(v)) => seq![(k, v)],
            _ => Seq::empty(),
        };
        here + field_pairs(text.skip(n))
    }
}

proof fn lemma_field_parts_paired(text: Seq<char>)
    ensures
        field_parts(text, true) == field_pairs(text).map_values(|p: (Seq<char>, Seq<char>)| p.0),
        field_parts(text, false) == field_pairs(text).map_values(|p: (Seq<char>, Seq<char>)| p.1),
    decreases text.len(),
{
    if text.len() > 0 {
        let n = line_len(text);
        lemma_find_char_props(text, '\n');
        let line = text.take(n);
        let rest = text.skip(n);
        lemma_field_parts_paired(rest);
        assert(field_part(line, true) is Some <==> field_part(line, false) is Some);
        let hk: Seq<Seq<char>> = match field_part(line, true) {
            Some(p) => seq![p],
            None => Seq::empty(),
        };
        let hv: Seq<Seq<char>> = match field_part(line, false) {
            Some(p) => seq![p],
            None => Seq::empty(),
        };
        let hp: Seq<(Seq<char>, Seq<char>)> = match (field_part(line, true), field_part(line, false)) {
            (Some(k), Some(v)) => seq![(k, v)],
            _ => Seq::empty(),
        };
        let rp = field_pairs(rest);
        assert(field_pairs(text) == hp + rp);
        assert(field_parts(text, true) == hk + field_parts(rest, true));
        assert(field_parts(text, false) == hv + field_parts(rest, false));
        assert((hp + rp).map_values(|p: (Seq<char>, Seq<char>)| p.0) =~= hk + rp.map_values(
            |p: (Seq<char>, Seq<char>)| p.0,
        ));
        assert((hp + rp).map_values(|p: (Seq<char>, Seq<char>)| p.1) =~= hv + rp.map_values(
            |p: (Seq<char>, Seq<char>)| p.1,
        ));
    }
}

/// The key and value ranges of a text pair up with its field lines: there
/// are as many of each as there are field lines; the `i`-th key range is the
/// bytes of the `i`-th line's trimmed name, never empty, and the `i`-th value
/// range those of its trimmed value, all on character boundaries; each key
/// ends before its value starts, each value ends before the next key starts,
/// and all lie within the text's bytes.
#[verifier::spinoff_prover]
pub proof fn lemma_field_ranges_pair(text: Seq<char>, offset: int)
    ensures
        ({
            let keys = field_ranges(text, offset, true);
            let values = field_ranges(text, offset, false);
            let pairs = field_pairs(text);
            &&& keys.len() == pairs.len()
            &&& values.len() == pairs.len()
            &&& forall|i: int|
                0 <= i < pairs.len() ==> {
                    &&& covered(text, offset, #[trigger] keys[i], pairs[i].0)
                    &&& pairs[i].0.len() > 0
                    &&& covered(text, offset, values[i], pairs[i].1)
                }
            &&& fields_interleave(keys, values, offset, offset + byte_len(text))
        }),
{
    lemma_field_parts_paired(text);
    lemma_fields_cover(text, offset, true);
    lemma_fields_cover(text, offset, false);
    lemma_keys_precede_values(text, offset);
    let keys = field_ranges(text, offset, true);
    let values = field_ranges(text, offset, false);
    let pairs = field_pairs(text);
    let kp = field_parts(text, true);
    let vp = field_parts(text, false);
    assert forall|i: int| 0 <= i < pairs.len() implies {
        &&& covered(text, offset, #[trigger] keys[i], pairs[i].0)
        &&& pairs[i].0.len() > 0
        &&& covered(text, offset, values[i], pairs[i].1)
    } by {
        assert(kp[i] == pairs[i].0);
        assert(vp[i] == pairs[i].1);
        assert(covered(text, offset, keys[i], kp[i]));
        assert(covered(text, offset, values[i], vp[i]));
        assert(kp[i].len() > 0);
    }
    assert(kp.len() == pairs.len());
    assert(vp.len() == pairs.len());
    assert(keys.len() == pairs.len());
    assert(values.len() == pairs.len());
    assert(fields_interleave(keys, values, offset, offset + byte_len(text)));
}

proof fn lemma_trailing_ws_after(a: Seq<char>, b: Seq<char>)
    requires
        a.len() > 0,
        !is_white_space(a.last()),
    ensures
        trailing_ws(a + b) == trailing_ws(b),
    decreases b.len(),
{
    if b.len() == 0 {
        assert(a + b =~= a);
    } else {
        assert((a + b).last() == b.last());
        if is_white_space(b.last()) {
            assert((a + b).drop_last() =~= a + b.drop_last());
            lemma_trailing_ws_after(a, b.drop_last());
        }
    }
}

proof fn lemma_leading_ws_prefix(s: Seq<char>, k: int)
    requires
        leading_ws(s) < k <= s.len(),
    ensures
        leading_ws(s.take(k)) == leading_ws(s),
    decreases s.len(),
{
    if s.len() > 0 && is_white_space(s[0]) {
        assert(s.take(k).drop_first() =~= s.drop_first().take(k - 1));
        lemma_leading_ws_prefix(s.drop_first(), k - 1);
    }
}

proof fn lemma_leading_ws_before(s: Seq<char>, i: int)
    requires
        0 <= i < s.len(),
        !is_white_space(s[i]),
    ensures
        leading_ws(s) <= i,
    decreases s.len(),
{
    if s.len() > 0 && is_white_space(s[0]) {
        assert(s.drop_first()[i - 1] == s[i]);
        lemma_leading_ws_before(s.drop_first(), i - 1);
    }
}

/// Trimming the end first changes nothing of what a trim keeps.
proof fn lemma_trim_after_trim_end(v: Seq<char>)
    ensures
        trim(trim_end(v)) == trim(v),
{
    lemma_trailing_ws_bound(v);
    lemma_leading_ws_bound(v);
    let t = trailing_ws(v) as int;
    let u = trim_end(v);
    if t == v.len() {
        assert(u =~= Seq::<char>::empty());
        assert forall|i: int| 0 <= i < v.len() implies is_white_space(#[trigger] v[i]) by {
            if !is_white_space(v[i]) {
                lemma_trailing_ws_before(v, i);
            }
        }
        lemma_leading_ws_stops(v);
        assert(leading_ws(v) == v.len());
        assert(trim_start(v) =~= Seq::<char>::empty());
        assert(trim_start(u) =~= Seq::<char>::empty());
    } else {
        let j = v.len() - t - 1;
        lemma_trailing_ws_stops(v);
        lemma_leading_ws_before(v, j);
        lemma_trim_as_subrange(v);
        let lead = leading_ws(v) as int;
        lemma_leading_ws_prefix(v, v.len() - t);
        assert(u.last() == v[j]);
        assert(trailing_ws(u) == 0);
        lemma_trim_as_subrange(u);
        assert(trim(u) =~= trim(v));
    }
}

/// A line is a field whenever the text before its first `':'` is a valid
/// field name and the text right after that `':'` does not begin with `'/'`
/// (so a value such as `https://warp.dev` keeps the line a field): it has
/// exactly one key range, the bytes of the trimmed name, and exactly one
/// value range, the bytes of the trimmed value.
pub proof fn lemma_field_unless_slashes(name: Seq<char>, value: Seq<char>, offset: int)
    requires
        valid_name(name),
        !value.contains('\n'),
        value.len() == 0 || value[0] != '/',
    ensures
        ({
            let line = name + seq![':'] + value;
            let keys = field_ranges(line, offset, true);
            let values = field_ranges(line, offset, false);
            &&& keys.len() == 1
            &&& covered(line, offset, keys[0], trim(name))
            &&& values.len() == 1
            &&& covered(line, offset, values[0], trim(value))
        }),
{
    let head = name + seq![':'];
    let line = head + value;
    let c = name.len() as int;
    // The name holds neither ':' nor a line end.
    assert forall|j: int| 0 <= j < c implies line[j] != ':' && line[j] != '\n' by {
        assert(line[j] == name[j]);
        assert(name_char_ok(name[j]));
    }
    assert(line[c] == ':');
    assert forall|j: int| 0 <= j < line.len() implies line[j] != '\n' by {
        if j > c {
            assert(line[j] == value[j - c - 1]);
            if value[j - c - 1] == '\n' {
                assert(value.contains('\n'));
            }
        }
    }
    crate::text::lemma_find_char_at(line, '\n', line.len() as int);
    assert(line.take(line.len() as int) =~= line);
    assert(line.skip(line.len() as int) =~= Seq::<char>::empty());
    // The trimmed line is the name, the ':' and the end-trimmed value.
    assert(head.last() == ':');
    lemma_trailing_ws_after(head, value);
    lemma_trailing_ws_bound(value);
    let t = trim_end(line);
    assert(t =~= head + trim_end(value));
    assert forall|j: int| 0 <= j < c implies t[j] != ':' by {
        assert(t[j] == line[j]);
    }
    assert(t[c] == ':');
    crate::text::lemma_find_char_at(t, ':', c);
    assert(t.take(c) =~= name);
    assert(t.skip(c + 1) =~= trim_end(value));
    assert(!starts_with_slashes(trim_end(value))) by {
        if trim_end(value).len() >= 2 {
            assert(trim_end(value)[0] == value[0]);
        }
    }
    lemma_trim_after_trim_end(value);
    assert(field_part(line, true) == Some(trim(name)));
    assert(field_part(line, false) == Some(trim(value)));
    lemma_line_parts(line, offset, true);
    lemma_line_parts(line, offset, false);
    let kr = field_range(line, offset, true)->0;
    let vr = field_range(line, offset, false)->0;
    let n = line_len(line);
    assert(n == line.len());
    assert(line.take(n) =~= line);
    let rest = line.skip(n);
    assert(rest.len() == 0);
    assert(field_ranges(rest, offset + byte_len(line), true) =~= Seq::<(int, int)>::empty());
    assert(field_ranges(rest, offset + byte_len(line), false) =~= Seq::<(int, int)>::empty());
    assert(field_ranges(line, offset, true) =~= seq![kr]);
    assert(field_ranges(line, offset, false) =~= seq![vr]);
}

/// A line is no field when it has no `':'`, or when the text right after
/// its first `':'` begins with `"//"`: it gives neither a key nor a value range.
pub proof fn lemma_not_a_field(head: Seq<char>, value: Seq<char>, offset: int, key: bool)
    requires
        !head.contains('\n'),
        !value.contains('\n'),
        !head.contains(':'),
    ensures
        field_ranges(head, offset, key).len() == 0,
        field_ranges(head + seq![':', '/', '/'] + value, offset, key).len() == 0,
{
    assert forall|j: int| 0 <= j < head.len() implies head[j] != '\n' && head[j] != ':' by {
        if head[j] == '\n' {
            assert(head.contains('\n'));
        }
        if head[j] == ':' {
            assert(head.contains(':'));
        }
    }
    if head.len() > 0 {
        crate::text::lemma_find_char_at(head, '\n', head.len() as int);
        assert(head.take(head.len() as int) =~= head);
        assert(head.skip(head.len() as int) =~= Seq::<char>::empty());
        lemma_trailing_ws_bound(head);
        let t = trim_end(head);
        assert forall|j: int| 0 <= j < t.len() implies t[j] != ':' by {
            assert(t[j] == head[j]);
        }
        crate::text::lemma_find_char_at(t, ':', t.len() as int);
        assert(line_len(head) == head.len());
        assert(field_range(head, offset, key) is None);
        assert(field_ranges(head.skip(head.len() as int), offset + byte_len(head), key)
            =~= Seq::<(int, int)>::empty());
        assert(field_ranges(head, offset, key) =~= Seq::<(int, int)>::empty());
    } else {
        assert(field_ranges(head, offset, key) =~= Seq::<(int, int)>::empty());
    }
    assert(field_ranges(head, offset, key).len() == 0);
    let mid = seq![':', '/', '/'];
    let line = head + mid + value;
    let c = head.len() as int;
    assert forall|j: int| 0 <= j < line.len() implies line[j] != '\n' by {
        if j < c {
            assert(line[j] == head[j]);
        } else if j >= c + 3 {
            assert(line[j] == value[j - c - 3]);
            if value[j - c - 3] == '\n' {
                assert(value.contains('\n'));
            }
        }
    }
    crate::text::lemma_find_char_at(line, '\n', line.len() as int);
    assert(line.take(line.len() as int) =~= line);
    assert(line.skip(line.len() as int) =~= Seq::<char>::empty());
    assert(field_ranges(line.skip(line.len() as int), offset + byte_len(line), key)
        =~= Seq::<(int, int)>::empty());
    let hm = head + mid;
    assert(hm.last() == '/');
    assert(line =~= hm + value);
    lemma_trailing_ws_after(hm, value);
    lemma_trailing_ws_bound(value);
    let t = trim_end(line);
    assert(t =~= hm + trim_end(value));
    assert forall|j: int| 0 <= j < c implies t[j] != ':' by {
        assert(t[j] == head[j]);
    }
    assert(t[c] == ':');
    crate::text::lemma_find_char_at(t, ':', c);
    let v = t.skip(c + 1);
    assert(v[0] == '/' && v[1] == '/');
    assert(starts_with_slashes(v));
}

fn name_char_allowed(c: char) -> (b: bool)
    ensures
        b == name_char_ok(c),
{
    char_is_alphanumeric(c) || c == '_' || c == '-' || c == ' ' || c == '\t'
}

/// Whether `v[lo..hi]` is a [`valid_name`].
fn name_is_valid(v: &Vec<char>, lo: usize, hi: usize) -> (b: bool)
    requires
        lo <= hi <= v.len(),
    ensures
        b == valid_name(v@.subrange(lo as int, hi as int)),
{
    let ghost name = v@.subrange(lo as int, hi as int);
    let lead = leading_ws_in(v, lo, hi);
    if lead == hi - lo {
        return false;
    }
    let first = v[lo + lead];
    assert(name[lead as int] == first);
    if !(char_is_alphabetic(first) || first == '_') {
        return false;
    }
    let mut k = lo;
    while k < hi
        invariant
            lo <= k <= hi <= v.len(),
            name == v@.subrange(lo as int, hi as int),
            forall|j: int| 0 <= j < k - lo ==> name_char_ok(#[trigger] name[j]),
        decreases hi - k,
    {
        assert(name[k - lo] == v@[k as int]);
        if !name_char_allowed(v[k]) {
            return false;
        }
        k += 1;
    }
    true
}

/// Whether `v[lo..hi]` starts with `"//"`.
fn slashes_at(v: &Vec<char>, lo: usize, hi: usize) -> (b: bool)
    requires
        lo <= hi <= v.len(),
    ensures
        b == starts_with_slashes(v@.subrange(lo as int, hi as int)),
{
    let ghost value = v@.subrange(lo as int, hi as int);
    if hi - lo >= 2 {
        assert(value[0] == v@[lo as int]);
        assert(value[1] == v@[lo + 1]);
        v[lo] == '/' && v[lo + 1] == '/'
    } else {
        false
    }
}

/// The key range of the name `v[lo..c]`, the line starting at byte `offset`.
fn key_range_in(v: &Vec<char>, lo: usize, c: usize, offset: usize) -> (r: Range<usize>)
    requires
        lo <= c <= v.len(),
        offset + byte_len(v@.subrange(lo as int, c as int)) <= usize::MAX,
    ensures
        ({
            let name = v@.subrange(lo as int, c as int);
            range_view(r) == (
                offset + byte_len(name.take(leading_ws(name) as int)),
                offset + byte_len(trim_end(name)),
            )
        }),
{
    let ghost name = v@.subrange(lo as int, c as int);
    let lead = leading_ws_in(v, lo, c);
    let ntw = trailing_ws_in(v, lo, c);
    proof {
        lemma_byte_len_subrange_split(v@, lo as int, (lo + lead) as int, c as int);
        lemma_byte_len_subrange_split(v@, lo as int, (c - ntw) as int, c as int);
        assert(name.take(lead as int) =~= v@.subrange(lo as int, (lo + lead) as int));
        assert(trim_end(name) =~= v@.subrange(lo as int, (c - ntw) as int));
    }
    let s = offset + byte_len_in(v, lo, lo + lead);
    let e = offset + byte_len_in(v, lo, c - ntw);
    s..e
}

/// The value range of the line `v[lo..te]` (trimmed) whose first `':'` is at `c`.
fn value_range_in(v: &Vec<char>, lo: usize, c: usize, te: usize, offset: usize) -> (r: Range<
    usize,
>)
    requires
        lo <= c < te <= v.len(),
        v@[c as int] == ':',
        offset + byte_len(v@.subrange(lo as int, te as int)) <= usize::MAX,
    ensures
        ({
            let name = v@.subrange(lo as int, c as int);
            let value = v@.subrange(c + 1, te as int);
            range_view(r) == (
                offset + byte_len(name) + 1 + byte_len(value.take(leading_ws(value) as int)),
                offset + byte_len(v@.subrange(lo as int, te as int)),
            )
        }),
{
    let ghost value = v@.subrange(c + 1, te as int);
    let vl = leading_ws_in(v, c + 1, te);
    proof {
        lemma_byte_len_subrange_split(v@, lo as int, c as int, te as int);
        lemma_byte_len_subrange_split(v@, c as int, c + 1, te as int);
        lemma_byte_len_subrange_split(v@, c + 1, (c + 1 + vl) as int, te as int);
        assert(value.take(vl as int) =~= v@.subrange(c + 1, (c + 1 + vl) as int));
        let colon = v@.subrange(c as int, c + 1);
        assert(colon[0] == ':');
        assert(colon.drop_first() =~= Seq::<char>::empty());
        assert(byte_len(colon.drop_first()) == 0);
        assert(byte_len(colon) == 1);
    }
    let s = offset + byte_len_in(v, lo, c) + 1 + byte_len_in(v, c + 1, c + 1 + vl);
    let e = offset + byte_len_in(v, lo, te);
    s..e
}

/// The range the line `v[lo..hi]`, starting at byte `offset`, contributes.
fn field_range_in(v: &Vec<char>, lo: usize, hi: usize, offset: usize, key: bool) -> (r: Option<
    Range<usize>,
>)
    requires
        lo <= hi <= v.len(),
        offset + byte_len(v@.subrange(lo as int, hi as int)) <= usize::MAX,
    ensures
        match r {
            Some(x) => field_range(v@.subrange(lo as int, hi as int), offset as int, key) == Some(
                range_view(x),
            ),
            None => field_range(v@.subrange(lo as int, hi as int), offset as int, key) is None,
        },
{
    let ghost line = v@.subrange(lo as int, hi as int);
    let tw = trailing_ws_in(v, lo, hi);
    let te = hi - tw;
    let ghost t = trim_end(line);
    assert(t =~= v@.subrange(lo as int, te as int));
    proof {
        lemma_byte_len_subrange_split(v@, lo as int, te as int, hi as int);
    }
    let c = match find_char_in(v, lo, te, ':') {
        None => {
            return None;
        },
        Some(k) => lo + k,
    };
    assert(t.take((c - lo) as int) =~= v@.subrange(lo as int, c as int));
    assert(t.skip((c - lo) + 1) =~= v@.subrange(c + 1, te as int));
    if !name_is_valid(v, lo, c) || slashes_at(v, c + 1, te) {
        return None;
    }
    proof {
        lemma_byte_len_subrange_split(v@, lo as int, c as int, te as int);
    }
    if key {
        Some(key_range_in(v, lo, c, offset))
    } else {
        Some(value_range_in(v, lo, c, te, offset))
    }
}

/// Byte ranges of the field keys (`key`) or field values (`!key`) of the lines
/// of `text`, which starts at byte `start` of the document.
pub fn markdown_field_ranges(text: &str, start: usize, key: bool) -> (ranges: Vec<Range<usize>>)
    requires
        start + byte_len(text@) <= usize::MAX,
    ensures
        ranges@.map_values(|r: Range<usize>| range_view(r)) == field_ranges(
            text@,
            start as int,
            key,
        ),
{
    let v = chars_of(text);
    let len = v.len();
    let mut out: Vec<Range<usize>> = Vec::new();
    let mut i: usize = 0;
    let mut offset: usize = start;
    assert(v@.subrange(0, len as int) =~= v@);
    while i < len
        invariant
            len == v.len(),
            v@ == text@,
            i <= len,
            offset + byte_len(v@.subrange(i as int, len as int)) <= usize::MAX,
            out@.map_values(|r: Range<usize>| range_view(r)) + field_ranges(
                v@.subrange(i as int, len as int),
                offset as int,
                key,
            ) == field_ranges(text@, start as int, key),
        decreases len - i,
    {
        let ghost rest = v@.subrange(i as int, len as int);
        let ghost old_out = out@;
        let j = match find_char_in(&v, i, len, '\n') {
            Some(k) => i + k + 1,
            None => len,
        };
        proof {
            lemma_find_char_props(rest, '\n');
            assert(line_len(rest) == j - i);
            assert(rest.take(j - i) =~= v@.subrange(i as int, j as int));
            assert(rest.skip(j - i) =~= v@.subrange(j as int, len as int));
            lemma_byte_len_subrange_split(v@, i as int, j as int, len as int);
        }
        let r = field_range_in(&v, i, j, offset, key);
        match r {
            Some(x) => {
                out.push(x);
                assert(out@.map_values(|r: Range<usize>| range_view(r)) =~= old_out.map_values(
                    |r: Range<usize>| range_view(r),
                ) + seq![range_view(x)]);
            },
            None => {},
        }
        offset = offset + byte_len_in(&v, i, j);
        i = j;
    }
    out
}

} // verus!
