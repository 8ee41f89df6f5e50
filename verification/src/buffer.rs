//! The document text that highlighting reads: its characters, and the
//! conversions between byte offsets (tree-sitter's coordinates) and character
//! offsets (the editor's coordinates).

use vstd::prelude::*;

use crate::text::{byte_len, char_width, char_width_exec, chars_of, lemma_byte_len_split};

verus! {

/// Number of whole characters at the start of `s` whose encoding fits in `b` bytes:
/// the character offset of byte offset `b` (rounded down inside a character,
/// and `s.len()` past the end).
pub open spec fn char_offset_of(s: Seq<char>, b: int) -> nat
    decreases s.len(),
{
    if s.len() == 0 || char_width(s[0]) > b {
        0
    } else {
        1 + char_offset_of(s.drop_first(), b - char_width(s[0]))
    }
}

/// Byte offset of character offset `c` (the end of the text past its last character).
pub open spec fn byte_offset_of(s: Seq<char>, c: int) -> nat {
    if c <= s.len() {
        byte_len(s.take(c))
    } else {
        byte_len(s)
    }
}

/// Byte length of a one-longer prefix.
pub proof fn lemma_byte_len_take_step(s: Seq<char>, k: int)
    requires
        0 <= k < s.len(),
    ensures
        byte_len(s.take(k + 1)) == byte_len(s.take(k)) + char_width(s[k]),
{
    let t = s.take(k + 1);
    lemma_byte_len_split(t, k);
    assert(t.take(k) =~= s.take(k));
    let last = t.skip(k);
    assert(last[0] == s[k]);
    assert(last.drop_first() =~= Seq::<char>::empty());
    assert(byte_len(last.drop_first()) == 0);
}

/// Prefix byte lengths grow with the prefix.
pub proof fn lemma_byte_len_take_mono(s: Seq<char>, i: int, j: int)
    requires
        0 <= i <= j <= s.len(),
    ensures
        byte_len(s.take(i)) + (j - i) <= byte_len(s.take(j)),
    decreases j - i,
{
    if i < j {
        lemma_byte_len_take_mono(s, i, j - 1);
        lemma_byte_len_take_step(s, j - 1);
    }
}

/// `char_offset_of` is the prefix whose bytes fit while one more character would not.
pub proof fn lemma_char_offset_of(s: Seq<char>, b: int, k: int)
    requires
        0 <= k <= s.len(),
        byte_len(s.take(k)) <= b,
        k == s.len() || byte_len(s.take(k + 1)) > b,
    ensures
        char_offset_of(s, b) == k,
    decreases s.len(),
{
    if s.len() > 0 {
        lemma_byte_len_take_step(s, 0);
        assert(s.take(0) =~= Seq::<char>::empty());
        assert(byte_len(Seq::<char>::empty()) == 0);
        if k > 0 {
            lemma_byte_len_take_mono(s, 1, k);
            let r = s.drop_first();
            assert forall|m: int| 0 <= m < s.len() implies byte_len(s.take(m + 1)) == char_width(
                s[0],
            ) + byte_len(r.take(m)) by {
                assert(s.take(m + 1).drop_first() =~= r.take(m));
            }
            lemma_char_offset_of(r, b - char_width(s[0]), k - 1);
        }
    }
}

/// Converting a character offset to bytes and back gives the same
/// character offset.
pub proof fn lemma_char_offset_round_trip(s: Seq<char>, c: int)
    requires
        0 <= c <= s.len(),
    ensures
        char_offset_of(s, byte_offset_of(s, c) as int) == c,
{
    if c < s.len() {
        lemma_byte_len_take_step(s, c);
        assert(char_width(s[c]) >= 1);
    }
    lemma_char_offset_of(s, byte_offset_of(s, c) as int, c);
}

/// Converting a byte offset to characters and back never moves past it:
/// inside a character it rounds down to the character's start.
pub proof fn lemma_byte_offset_rounds_down(s: Seq<char>, b: int)
    requires
        0 <= b,
    ensures
        byte_offset_of(s, char_offset_of(s, b) as int) <= b,
    decreases s.len(),
{
    let c = char_offset_of(s, b) as int;
    assert(s.take(0) =~= Seq::<char>::empty());
    assert(byte_len(Seq::<char>::empty()) == 0);
    if s.len() > 0 && char_width(s[0]) <= b {
        let r = s.drop_first();
        let w = char_width(s[0]);
        lemma_byte_offset_rounds_down(r, b - w);
        let k = char_offset_of(r, b - w) as int;
        lemma_char_offset_le_len(r, b - w);
        assert(s.take(k + 1).drop_first() =~= r.take(k));
        lemma_byte_len_take_step(s, 0);
        assert(s.take(1).drop_first() =~= Seq::<char>::empty());
        assert(byte_len(s.take(k + 1)) == w + byte_len(r.take(k)));
    }
}

/// Character offsets never pass the end of the text.
pub proof fn lemma_char_offset_le_len(s: Seq<char>, b: int)
    ensures
        char_offset_of(s, b) <= s.len(),
    decreases s.len(),
{
    if s.len() > 0 && char_width(s[0]) <= b {
        lemma_char_offset_le_len(s.drop_first(), b - char_width(s[0]));
    }
}

/// A document's text together with the byte offset of every character.
pub struct Buffer {
    text: String,
    chars: Vec<char>,
    starts: Vec<usize>,
}

impl View for Buffer {
    type V = Seq<char>;

    closed spec fn view(&self) -> Seq<char> {
        self.chars@
    }
}

impl Buffer {
    #[verifier::type_invariant]
    closed spec fn well_formed(self) -> bool {
        &&& self.text@ == self.chars@
        &&& self.starts@.len() == self.chars@.len() + 1
        &&& forall|i: int|
            0 <= i <= self.chars@.len() ==> #[trigger] self.starts@[i] == byte_len(
                self.chars@.take(i),
            )
    }

    /// A buffer holding `text`.
    pub fn from_plain_text(text: &str) -> (b: Self)
        requires
            byte_len(text@) <= usize::MAX,
        ensures
            b@ == text@,
    {
        let chars = chars_of(text);
        let mut starts: Vec<usize> = Vec::new();
        let mut total: usize = 0;
        starts.push(0);
        assert(chars@.take(0) =~= Seq::<char>::empty());
        let mut i: usize = 0;
        while i < chars.len()
            invariant
                i <= chars.len(),
                chars@ == text@,
                byte_len(text@) <= usize::MAX,
                starts@.len() == i + 1,
                total == byte_len(chars@.take(i as int)),
                forall|j: int| 0 <= j <= i ==> #[trigger] starts@[j] == byte_len(chars@.take(j)),
            decreases chars.len() - i,
        {
            proof {
                lemma_byte_len_take_step(chars@, i as int);
                lemma_byte_len_split(chars@, i + 1);
            }
            total = total + char_width_exec(chars[i]);
            starts.push(total);
            i += 1;
        }
        assert(chars@.take(chars@.len() as int) =~= chars@);
        Buffer { text: text.to_owned(), chars, starts }
    }

    /// Number of characters in the buffer.
    pub fn len_chars(&self) -> (n: usize)
        ensures
            n == self@.len(),
    {
        self.chars.len()
    }

    /// The buffer's text.
    pub fn as_str(&self) -> (s: &str)
        ensures
            s@ == self@,
    {
        proof {
            use_type_invariant(self);
        }
        self.text.as_str()
    }

    /// The character offset of byte offset `byte` ([`char_offset_of`]).
    pub fn to_char_offset(&self, byte: usize) -> (c: usize)
        ensures
            c == char_offset_of(self@, byte as int),
    {
        proof {
            use_type_invariant(self);
        }
        let n = self.chars.len();
        // Largest `lo` with starts[lo] <= byte: starts[lo] <= byte < starts[hi] (or hi == n + 1).
        let mut lo: usize = 0;
        let mut hi: usize = self.starts.len();
        assert(self.chars@.take(0) =~= Seq::<char>::empty());
        assert(byte_len(Seq::<char>::empty()) == 0);
        while lo + 1 < hi
            invariant
                n == self.chars@.len(),
                self.starts@.len() == n + 1,
                forall|i: int|
                    0 <= i <= n ==> #[trigger] self.starts@[i] == byte_len(self.chars@.take(i)),
                lo < hi <= n + 1,
                self.starts@[lo as int] <= byte,
                hi <= n ==> self.starts@[hi as int] > byte,
            decreases hi - lo,
        {
            let mid = lo + (hi - lo) / 2;
            if self.starts[mid] <= byte {
                lo = mid;
            } else {
                hi = mid;
            }
        }
        proof {
            lemma_char_offset_of(self.chars@, byte as int, lo as int);
        }
        lo
    }

    /// The byte offset of character offset `c` ([`byte_offset_of`]).
    pub fn to_byte_offset(&self, c: usize) -> (b: usize)
        ensures
            b == byte_offset_of(self@, c as int),
    {
        proof {
            use_type_invariant(self);
            assert(self.chars@.take(self.chars@.len() as int) =~= self.chars@);
        }
        if c <= self.chars.len() {
            self.starts[c]
        } else {
            self.starts[self.chars.len()]
        }
    }
}

} // verus!
