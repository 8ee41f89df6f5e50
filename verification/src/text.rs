//! Character-level text facts shared by the highlighting code: UTF-8 widths,
//! Unicode whitespace and the trims of `str`, expressed over `Seq<char>`.

use vstd::prelude::*;

verus! {

/// Number of bytes of the UTF-8 encoding of `c`.
pub open spec fn char_width(c: char) -> nat {
    let v = c as u32;
    if v < 0x80 {
        1
    } else if v < 0x800 {
        2
    } else if v < 0x10000 {
        3
    } else {
        4
    }
}

/// Number of bytes of the UTF-8 encoding of `s`.
pub open spec fn byte_len(s: Seq<char>) -> nat
    decreases s.len(),
{
    if s.len() == 0 {
        0
    } else {
        char_width(s[0]) + byte_len(s.drop_first())
    }
}

/// `byte_len` is the length of vstd's UTF-8 encoding, i.e. what `str::len` returns.
pub proof fn lemma_byte_len_is_encoding_len(s: Seq<char>)
    ensures
        byte_len(s) == vstd::utf8::encode_utf8(s).len(),
    decreases s.len(),
{
    if s.len() > 0 {
        vstd::utf8::char_is_scalar(s[0]);
        lemma_byte_len_is_encoding_len(s.drop_first());
    }
}

/// The byte length of a concatenation is the sum of the byte lengths.
pub proof fn lemma_byte_len_concat(a: Seq<char>, b: Seq<char>)
    ensures
        byte_len(a + b) == byte_len(a) + byte_len(b),
    decreases a.len(),
{
    if a.len() > 0 {
        assert((a + b).drop_first() =~= a.drop_first() + b);
        lemma_byte_len_concat(a.drop_first(), b);
    } else {
        assert(a + b =~= b);
    }
}

/// Splitting `s` at `k` splits its byte length.
pub proof fn lemma_byte_len_split(s: Seq<char>, k: int)
    requires
        0 <= k <= s.len(),
    ensures
        byte_len(s) == byte_len(s.take(k)) + byte_len(s.skip(k)),
{
    assert(s =~= s.take(k) + s.skip(k));
    lemma_byte_len_concat(s.take(k), s.skip(k));
}

/// Byte length of a sub-range `[lo, hi)` splits at any `mid` in between.
pub proof fn lemma_byte_len_subrange_split(s: Seq<char>, lo: int, mid: int, hi: int)
    requires
        0 <= lo <= mid <= hi <= s.len(),
    ensures
        byte_len(s.subrange(lo, hi)) == byte_len(s.subrange(lo, mid)) + byte_len(
            s.subrange(mid, hi),
        ),
{
    assert(s.subrange(lo, hi) =~= s.subrange(lo, mid) + s.subrange(mid, hi));
    lemma_byte_len_concat(s.subrange(lo, mid), s.subrange(mid, hi));
}

/// The UTF-8 width of `c`, as `char::len_utf8` gives it.
pub fn char_width_exec(c: char) -> (w: usize)
    ensures
        w == char_width(c),
{
    let v = c as u32;
    if v < 0x80 {
        1
    } else if v < 0x800 {
        2
    } else if v < 0x10000 {
        3
    } else {
        4
    }
}

/// Unicode's `White_Space` property (PropList.txt), which `char::is_whitespace` tests.
pub open spec fn is_white_space(c: char) -> bool {
    let v = c as u32;
    ||| 0x9 <= v <= 0xD
    ||| v == 0x20
    ||| v == 0x85
    ||| v == 0xA0
    ||| v == 0x1680
    ||| 0x2000 <= v <= 0x200A
    ||| v == 0x2028
    ||| v == 0x2029
    ||| v == 0x202F
    ||| v == 0x205F
    ||| v == 0x3000
}

/// Whether `c` is whitespace, as `char::is_whitespace` answers: the
/// Unicode `White_Space` property ([`is_white_space`]).
pub(crate) fn is_whitespace(c: char) -> (b: bool)
    ensures
        b == is_white_space(c),
{
    let v = c as u32;
    (0x9 <= v && v <= 0xD) || v == 0x20 || v == 0x85 || v == 0xA0 || v == 0x1680 || (0x2000 <= v
        && v <= 0x200A) || v == 0x2028 || v == 0x2029 || v == 0x202F || v == 0x205F || v == 0x3000
}

/// What `char::is_alphabetic` returns for `c` (the Unicode `Alphabetic` property).
pub uninterp spec fn char_alphabetic(c: char) -> bool;

/// What `char::is_alphanumeric` returns for `c` (`Alphabetic` or `Numeric`).
pub uninterp spec fn char_alphanumeric(c: char) -> bool;

/// Calls `char::is_alphabetic`; the contract only names its result, a function of `c` alone.
#[verifier::external_body]
pub(crate) fn is_alphabetic(c: char) -> (b: bool)
    ensures
        b == char_alphabetic(c),
{
    c.is_alphabetic()
}

/// Calls `char::is_alphanumeric`; the contract only names its result, a function of `c` alone.
#[verifier::external_body]
pub(crate) fn is_alphanumeric(c: char) -> (b: bool)
    ensures
        b == char_alphanumeric(c),
{
    c.is_alphanumeric()
}

/// Whether `c` is alphabetic as `char::is_alphabetic` answers: among ASCII
/// characters exactly the letters (its source tests `'a'..='z'` and
/// `'A'..='Z'` there), beyond ASCII the Unicode `Alphabetic` property.
pub open spec fn alphabetic(c: char) -> bool {
    let v = c as u32;
    if v < 0x80 {
        (0x41 <= v <= 0x5A) || (0x61 <= v <= 0x7A)
    } else {
        char_alphabetic(c)
    }
}

/// Whether `c` is alphanumeric as `char::is_alphanumeric` answers: among
/// ASCII characters exactly the letters and digits, beyond ASCII the Unicode
/// `Alphabetic` or `Numeric` properties.
pub open spec fn alphanumeric(c: char) -> bool {
    let v = c as u32;
    if v < 0x80 {
        (0x30 <= v <= 0x39) || (0x41 <= v <= 0x5A) || (0x61 <= v <= 0x7A)
    } else {
        char_alphanumeric(c)
    }
}

/// Whether `c` is alphabetic ([`alphabetic`]): ASCII letters are told
/// apart here, other characters go to `char::is_alphabetic`.
pub(crate) fn char_is_alphabetic(c: char) -> (b: bool)
    ensures
        b == alphabetic(c),
{
    let v = c as u32;
    if v < 0x80 {
        (0x41 <= v && v <= 0x5A) || (0x61 <= v && v <= 0x7A)
    } else {
        is_alphabetic(c)
    }
}

/// Whether `c` is alphanumeric ([`alphanumeric`]): ASCII letters and digits
/// are told apart here, other characters go to `char::is_alphanumeric`.
pub(crate) fn char_is_alphanumeric(c: char) -> (b: bool)
    ensures
        b == alphanumeric(c),
{
    let v = c as u32;
    if v < 0x80 {
        (0x30 <= v && v <= 0x39) || (0x41 <= v && v <= 0x5A) || (0x61 <= v && v <= 0x7A)
    } else {
        is_alphanumeric(c)
    }
}

/// Number of whitespace characters at the start of `s`.
pub open spec fn leading_ws(s: Seq<char>) -> nat
    decreases s.len(),
{
    if s.len() > 0 && is_white_space(s[0]) {
        1 + leading_ws(s.drop_first())
    } else {
        0
    }
}

/// Number of whitespace characters at the end of `s`.
pub open spec fn trailing_ws(s: Seq<char>) -> nat
    decreases s.len(),
{
    if s.len() > 0 && is_white_space(s.last()) {
        1 + trailing_ws(s.drop_last())
    } else {
        0
    }
}

/// `str::trim_start`: `s` without its leading whitespace.
pub open spec fn trim_start(s: Seq<char>) -> Seq<char> {
    s.skip(leading_ws(s) as int)
}

/// `str::trim_end`: `s` without its trailing whitespace.
pub open spec fn trim_end(s: Seq<char>) -> Seq<char> {
    s.take(s.len() - trailing_ws(s))
}

pub proof fn lemma_leading_ws_bound(s: Seq<char>)
    ensures
        leading_ws(s) <= s.len(),
    decreases s.len(),
{
    if s.len() > 0 && is_white_space(s[0]) {
        lemma_leading_ws_bound(s.drop_first());
    }
}

pub proof fn lemma_trailing_ws_bound(s: Seq<char>)
    ensures
        trailing_ws(s) <= s.len(),
    decreases s.len(),
{
    if s.len() > 0 && is_white_space(s.last()) {
        lemma_trailing_ws_bound(s.drop_last());
    }
}

/// The characters of `s`, in order.
pub fn chars_of(s: &str) -> (v: Vec<char>)
    ensures
        v@ == s@,
{
    broadcast use vstd::string::group_string_axioms;
    let mut v: Vec<char> = Vec::new();
    for c in it: s.chars()
        invariant
            it.seq() == s@,
            v@ == s@.take(it.index()),
    {
        v.push(c);
        assert(v@ =~= s@.take(it.index() + 1));
    }
    assert(v@ =~= s@);
    v
}

} // verus!

verus! {

/// Index of the first `c` in `s`, if any (what `str::find` / `split_once` look for).
pub open spec fn find_char(s: Seq<char>, c: char) -> Option<int>
    decreases s.len(),
{
    if s.len() == 0 {
        None
    } else if s[0] == c {
        Some(0)
    } else {
        match find_char(s.drop_first(), c) {
            Some(i) => Some(i + 1),
            None => None,
        }
    }
}

pub proof fn lemma_find_char_props(s: Seq<char>, c: char)
    ensures
        find_char(s, c) matches Some(i) ==> 0 <= i < s.len() && s[i] == c && forall|j: int|
            0 <= j < i ==> s[j] != c,
        find_char(s, c) is None ==> forall|j: int| 0 <= j < s.len() ==> s[j] != c,
    decreases s.len(),
{
    if s.len() > 0 {
        lemma_find_char_props(s.drop_first(), c);
        if s[0] != c {
            assert forall|j: int| 1 <= j < s.len() implies s[j] == s.drop_first()[j - 1] by {}
        }
    }
}

/// Characters are found by the first index that holds them.
pub proof fn lemma_find_char_at(s: Seq<char>, c: char, i: int)
    requires
        0 <= i <= s.len(),
        forall|j: int| 0 <= j < i ==> s[j] != c,
        i < s.len() ==> s[i] == c,
    ensures
        find_char(s, c) == (if i < s.len() { Some(i) } else { None::<int> }),
    decreases s.len(),
{
    if s.len() > 0 && s[0] != c {
        assert forall|j: int| 0 <= j < i - 1 implies s.drop_first()[j] != c by {
            assert(s.drop_first()[j] == s[j + 1]);
        }
        lemma_find_char_at(s.drop_first(), c, i - 1);
    }
}

/// First index in `[lo, hi)` of `v` holding `c`, as an offset from `lo`.
pub fn find_char_in(v: &Vec<char>, lo: usize, hi: usize, c: char) -> (r: Option<usize>)
    requires
        lo <= hi <= v.len(),
    ensures
        match r {
            Some(k) => find_char(v@.subrange(lo as int, hi as int), c) == Some(k as int) && k < hi
                - lo && v@[lo + k] == c,
            None => find_char(v@.subrange(lo as int, hi as int), c) is None,
        },
{
    let mut i = lo;
    while i < hi
        invariant
            lo <= i <= hi <= v.len(),
            forall|j: int| lo <= j < i ==> v@[j] != c,
        decreases hi - i,
    {
        if v[i] == c {
            proof {
                let s = v@.subrange(lo as int, hi as int);
                lemma_find_char_at(s, c, (i - lo) as int);
            }
            return Some(i - lo);
        }
        i += 1;
    }
    proof {
        let s = v@.subrange(lo as int, hi as int);
        lemma_find_char_at(s, c, (hi - lo) as int);
    }
    None
}

/// Number of whitespace characters at the start of `v[lo..hi]`.
pub fn leading_ws_in(v: &Vec<char>, lo: usize, hi: usize) -> (n: usize)
    requires
        lo <= hi <= v.len(),
    ensures
        n == leading_ws(v@.subrange(lo as int, hi as int)),
        n <= hi - lo,
{
    let mut i = lo;
    while i < hi && is_whitespace(v[i])
        invariant
            lo <= i <= hi <= v.len(),
            leading_ws(v@.subrange(lo as int, hi as int)) == (i - lo) + leading_ws(
                v@.subrange(i as int, hi as int),
            ),
        decreases hi - i,
    {
        assert(v@.subrange(i as int, hi as int).drop_first() =~= v@.subrange(
            i + 1,
            hi as int,
        ));
        i += 1;
    }
    i - lo
}

/// Number of whitespace characters at the end of `v[lo..hi]`.
pub fn trailing_ws_in(v: &Vec<char>, lo: usize, hi: usize) -> (n: usize)
    requires
        lo <= hi <= v.len(),
    ensures
        n == trailing_ws(v@.subrange(lo as int, hi as int)),
        n <= hi - lo,
{
    let mut i = hi;
    while i > lo && is_whitespace(v[i - 1])
        invariant
            lo <= i <= hi <= v.len(),
            trailing_ws(v@.subrange(lo as int, hi as int)) == (hi - i) + trailing_ws(
                v@.subrange(lo as int, i as int),
            ),
        decreases i - lo,
    {
        assert(v@.subrange(lo as int, i as int).drop_last() =~= v@.subrange(
            lo as int,
            i - 1,
        ));
        i -= 1;
    }
    hi - i
}

/// Byte length of the UTF-8 encoding of `v[lo..hi]`.
pub fn byte_len_in(v: &Vec<char>, lo: usize, hi: usize) -> (n: usize)
    requires
        lo <= hi <= v.len(),
        byte_len(v@.subrange(lo as int, hi as int)) <= usize::MAX,
    ensures
        n == byte_len(v@.subrange(lo as int, hi as int)),
{
    let mut i = lo;
    let mut n: usize = 0;
    while i < hi
        invariant
            lo <= i <= hi <= v.len(),
            byte_len(v@.subrange(lo as int, hi as int)) <= usize::MAX,
            n == byte_len(v@.subrange(lo as int, i as int)),
        decreases hi - i,
    {
        proof {
            lemma_byte_len_subrange_split(v@, lo as int, i as int, hi as int);
            lemma_byte_len_subrange_split(v@, i as int, i + 1, hi as int);
            lemma_byte_len_subrange_split(v@, lo as int, i as int, i + 1);
            let one = v@.subrange(i as int, i + 1);
            assert(one[0] == v@[i as int]);
            assert(one.drop_first() =~= Seq::<char>::empty());
            assert(byte_len(one.drop_first()) == 0);
            assert(byte_len(one) == char_width(v@[i as int]));
        }
        n = n + char_width_exec(v[i]);
        i += 1;
    }
    n
}

} // verus!

verus! {

/// Whether `v[lo..hi]` holds exactly the characters of `lit`.
pub fn range_eq_str(v: &Vec<char>, lo: usize, hi: usize, lit: &str) -> (b: bool)
    requires
        lo <= hi <= v.len(),
    ensures
        b == (v@.subrange(lo as int, hi as int) == lit@),
{
    let n = lit.unicode_len();
    if n != hi - lo {
        assert(v@.subrange(lo as int, hi as int).len() != lit@.len());
        return false;
    }
    let mut i: usize = 0;
    while i < n
        invariant
            lo <= hi <= v.len(),
            n == hi - lo,
            n == lit@.len(),
            i <= n,
            forall|j: int| 0 <= j < i ==> v@[lo + j] == lit@[j],
        decreases n - i,
    {
        if v[lo + i] != lit.get_char(i) {
            assert(v@.subrange(lo as int, hi as int)[i as int] != lit@[i as int]);
            return false;
        }
        i += 1;
    }
    assert(v@.subrange(lo as int, hi as int) =~= lit@);
    true
}

} // verus!

verus! {

/// Whether `a` and `b` hold the same characters.
pub fn str_equal(a: &str, b: &str) -> (eq: bool)
    ensures
        eq == (a@ == b@),
{
    let v = chars_of(a);
    let n = v.len();
    assert(v@.subrange(0, n as int) =~= v@);
    range_eq_str(&v, 0, n, b)
}

/// Calls `std::str::from_utf8`, which std documents as succeeding exactly on
/// valid UTF-8 and then borrowing the same bytes as a `str`.
#[verifier::external_body]
pub(crate) fn utf8_str(bytes: &[u8]) -> (s: Option<&str>)
    ensures
        s is Some <==> vstd::utf8::valid_utf8(bytes@),
        s matches Some(t) ==> vstd::utf8::encode_utf8(t@) == bytes@,
{
    std::str::from_utf8(bytes).ok()
}

} // verus!

verus! {

/// `str::trim`: `s` without leading or trailing whitespace.
pub open spec fn trim(s: Seq<char>) -> Seq<char> {
    trim_end(trim_start(s))
}

/// The text of `s` with leading and trailing whitespace removed ([`trim`]).
pub fn trimmed(s: &str) -> (t: String)
    ensures
        t@ == trim(s@),
{
    let v = chars_of(s);
    let n = v.len();
    let lead = leading_ws_in(&v, 0, n);
    let trail = trailing_ws_in(&v, lead, n);
    proof {
        assert(v@.subrange(0, n as int) =~= v@);
        assert(trim_start(s@) =~= v@.subrange(lead as int, n as int));
        assert(trim(s@) =~= v@.subrange(lead as int, (n - trail) as int));
    }
    s.substring_char(lead, n - trail).to_owned()
}

/// The character after the leading whitespace is not whitespace.
pub proof fn lemma_leading_ws_stops(s: Seq<char>)
    ensures
        leading_ws(s) < s.len() ==> !is_white_space(s[leading_ws(s) as int]),
    decreases s.len(),
{
    if s.len() > 0 && is_white_space(s[0]) {
        lemma_leading_ws_stops(s.drop_first());
        if leading_ws(s) < s.len() {
            assert(s.drop_first()[leading_ws(s.drop_first()) as int] == s[leading_ws(s) as int]);
        }
    }
}

/// The character before the trailing whitespace is not whitespace.
pub proof fn lemma_trailing_ws_stops(s: Seq<char>)
    ensures
        trailing_ws(s) < s.len() ==> !is_white_space(s[s.len() - trailing_ws(s) - 1]),
    decreases s.len(),
{
    if s.len() > 0 && is_white_space(s.last()) {
        lemma_trailing_ws_stops(s.drop_last());
        if trailing_ws(s) < s.len() {
            let i = s.len() - trailing_ws(s) - 1;
            assert(s.drop_last()[i] == s[i]);
        }
    }
}

/// A trimmed text trims to itself: what `trim` leaves neither starts nor
/// ends with whitespace.
pub proof fn lemma_trim_idempotent(s: Seq<char>)
    ensures
        leading_ws(trim(s)) == 0,
        trailing_ws(trim(s)) == 0,
        trim(trim(s)) == trim(s),
{
    let u = trim_start(s);
    lemma_leading_ws_bound(s);
    lemma_leading_ws_stops(s);
    lemma_trailing_ws_bound(u);
    lemma_trailing_ws_stops(u);
    let t = trim(s);
    if t.len() > 0 {
        assert(t[0] == u[0]);
        assert(u[0] == s[leading_ws(s) as int]);
        assert(t.last() == u[u.len() - trailing_ws(u) - 1]);
    }
    assert(t.skip(0) =~= t);
    assert(t.take(t.len() as int) =~= t);
}

/// Dropping a prefix that leaves a non-whitespace character keeps the
/// trailing whitespace.
pub proof fn lemma_trailing_ws_suffix(s: Seq<char>, k: int, j: int)
    requires
        0 <= k <= j < s.len(),
        !is_white_space(s[j]),
    ensures
        trailing_ws(s.skip(k)) == trailing_ws(s),
    decreases s.len(),
{
    let u = s.skip(k);
    if is_white_space(s.last()) {
        assert(j < s.len() - 1);
        assert(u.last() == s.last());
        assert(u.drop_last() =~= s.drop_last().skip(k));
        assert(s.drop_last()[j] == s[j]);
        lemma_trailing_ws_suffix(s.drop_last(), k, j);
    } else {
        assert(u.last() == s.last());
    }
}

/// A text with a non-whitespace character trims to the part between its
/// leading and its trailing whitespace, which is not empty.
pub proof fn lemma_trim_as_subrange(s: Seq<char>)
    requires
        leading_ws(s) < s.len(),
    ensures
        trailing_ws(s) < s.len() - leading_ws(s),
        trim(s) == s.subrange(leading_ws(s) as int, s.len() - trailing_ws(s)),
        trim(s).len() > 0,
{
    let lead = leading_ws(s) as int;
    lemma_leading_ws_stops(s);
    lemma_trailing_ws_bound(s);
    lemma_trailing_ws_suffix(s, lead, lead);
    lemma_trailing_ws_stops(s);
    if trailing_ws(s) >= s.len() - lead {
        assert(!is_white_space(s[s.len() - trailing_ws(s) - 1]) || s.len() - trailing_ws(s) - 1 < lead);
        lemma_trailing_ws_all(s, lead);
    }
    assert(trim(s) =~= s.subrange(lead, s.len() - trailing_ws(s)));
}

proof fn lemma_trailing_ws_all(s: Seq<char>, i: int)
    requires
        0 <= i < s.len(),
        !is_white_space(s[i]),
    ensures
        trailing_ws(s) < s.len() - i,
    decreases s.len(),
{
    if is_white_space(s.last()) {
        assert(s.drop_last()[i] == s[i]);
        lemma_trailing_ws_all(s.drop_last(), i);
    }
}

} // verus!
