//! The order of texts, character by character, as `str` orders them, and
//! sorting a list of texts by it.

use vstd::prelude::*;
use crate::text::chars_of;
use vstd::multiset::Multiset;

verus! {

broadcast use vstd::multiset::group_multiset_axioms, vstd::seq_lib::group_to_multiset_ensures;

/// `a` comes before `b`: at their first difference `a` has the smaller
/// character, or `a` is a proper prefix of `b`. UTF-8 keeps the order of
/// characters, so this is the order of `str`'s `Ord` too.
pub open spec fn text_lt(a: Seq<char>, b: Seq<char>) -> bool
    decreases a.len(),
{
    if a.len() == 0 {
        b.len() > 0
    } else if b.len() == 0 {
        false
    } else if a[0] != b[0] {
        (a[0] as int) < (b[0] as int)
    } else {
        text_lt(a.drop_first(), b.drop_first())
    }
}

/// `a` comes before `b` or is the same text.
pub open spec fn text_le(a: Seq<char>, b: Seq<char>) -> bool {
    text_lt(a, b) || a == b
}

/// No text comes before itself, and of two texts that are not the same
/// exactly one comes before the other.
pub proof fn lemma_text_lt_total(a: Seq<char>, b: Seq<char>)
    ensures
        !text_lt(a, a),
        a != b ==> (text_lt(a, b) != text_lt(b, a)),
        a == b ==> !text_lt(a, b) && !text_lt(b, a),
    decreases a.len(),
{
    if a.len() > 0 {
        lemma_text_lt_total(a.drop_first(), a.drop_first());
        if b.len() > 0 && a[0] == b[0] {
            lemma_text_lt_total(a.drop_first(), b.drop_first());
            if a.drop_first() == b.drop_first() {
                assert(a =~= seq![a[0]] + a.drop_first());
                assert(b =~= seq![b[0]] + b.drop_first());
            }
        }
        if b.len() > 0 && a[0] != b[0] {
            assert((a[0] as int) != (b[0] as int));
        }
    } else if b.len() == 0 {
        assert(a =~= b);
    }
}

/// Coming before is transitive.
pub proof fn lemma_text_lt_transitive(a: Seq<char>, b: Seq<char>, c: Seq<char>)
    requires
        text_lt(a, b),
        text_lt(b, c),
    ensures
        text_lt(a, c),
    decreases a.len(),
{
    if a.len() > 0 && b.len() > 0 && c.len() > 0 && a[0] == b[0] && b[0] == c[0] {
        lemma_text_lt_transitive(a.drop_first(), b.drop_first(), c.drop_first());
    }
}

/// `text_le` is transitive.
pub proof fn lemma_text_le_transitive(a: Seq<char>, b: Seq<char>, c: Seq<char>)
    requires
        text_le(a, b),
        text_le(b, c),
    ensures
        text_le(a, c),
{
    if text_lt(a, b) && text_lt(b, c) {
        lemma_text_lt_transitive(a, b, c);
    }
}

proof fn lemma_text_lt_skip(a: Seq<char>, b: Seq<char>, i: int)
    requires
        0 <= i <= a.len(),
        i <= b.len(),
        a.take(i) == b.take(i),
    ensures
        text_lt(a, b) == text_lt(a.skip(i), b.skip(i)),
    decreases i,
{
    if i > 0 {
        assert(a[0] == a.take(i)[0]);
        assert(b[0] == b.take(i)[0]);
        assert(a.drop_first().take(i - 1) =~= a.take(i).drop_first());
        assert(b.drop_first().take(i - 1) =~= b.take(i).drop_first());
        lemma_text_lt_skip(a.drop_first(), b.drop_first(), i - 1);
        assert(a.drop_first().skip(i - 1) =~= a.skip(i));
        assert(b.drop_first().skip(i - 1) =~= b.skip(i));
    } else {
        assert(a.skip(0) =~= a);
        assert(b.skip(0) =~= b);
    }
}

/// Whether `a` comes before `b` ([`text_lt`]).
pub fn text_less(a: &str, b: &str) -> (lt: bool)
    ensures
        lt == text_lt(a@, b@),
{
    let x = chars_of(a);
    let y = chars_of(b);
    let mut i: usize = 0;
    while i < x.len() && i < y.len()
        invariant
            x@ == a@,
            y@ == b@,
            i <= x.len(),
            i <= y.len(),
            x@.take(i as int) == y@.take(i as int),
        decreases x.len() - i,
    {
        if x[i] != y[i] {
            proof {
                lemma_text_lt_skip(x@, y@, i as int);
                assert(x@.skip(i as int)[0] == x@[i as int]);
                assert(y@.skip(i as int)[0] == y@[i as int]);
            }
            return x[i] < y[i];
        }
        assert(x@.take(i + 1) =~= x@.take(i as int).push(x@[i as int]));
        assert(y@.take(i + 1) =~= y@.take(i as int).push(y@[i as int]));
        i = i + 1;
    }
    proof {
        lemma_text_lt_skip(x@, y@, i as int);
    }
    x.len() < y.len()
}

/// The texts of `s` are in order.
pub open spec fn texts_sorted(s: Seq<String>) -> bool {
    forall|i: int, j: int| 0 <= i < j < s.len() ==> text_le(#[trigger] s[i]@, #[trigger] s[j]@)
}

/// `texts` in order ([`texts_sorted`]): the same texts, each as often.
pub fn sort_texts(texts: Vec<String>) -> (r: Vec<String>)
    ensures
        texts_sorted(r@),
        r@.to_multiset() == texts@.to_multiset(),
{
    let ghost orig = texts@;
    let mut rest = texts;
    let mut out: Vec<String> = Vec::new();
    while rest.len() > 0
        invariant
            texts_sorted(out@),
            forall|i: int, j: int|
                0 <= i < out@.len() && 0 <= j < rest@.len() ==> text_le(#[trigger] out@[i]@, #[trigger] rest@[j]@),
            out@.to_multiset().add(rest@.to_multiset()) == orig.to_multiset(),
        decreases rest.len(),
    {
        let mut m: usize = 0;
        let mut j: usize = 1;
        while j < rest.len()
            invariant
                0 < rest.len(),
                m < j <= rest.len(),
                forall|t: int| 0 <= t < j ==> text_le(rest@[m as int]@, #[trigger] rest@[t]@),
            decreases rest.len() - j,
        {
            proof {
                lemma_text_lt_total(rest@[j as int]@, rest@[m as int]@);
            }
            if text_less(rest[j].as_str(), rest[m].as_str()) {
                proof {
                    assert forall|t: int| 0 <= t < j implies text_le(rest@[j as int]@, #[trigger] rest@[t]@) by {
                        lemma_text_le_transitive(rest@[j as int]@, rest@[m as int]@, rest@[t]@);
                    }
                }
                m = j;
            }
            j = j + 1;
        }
        let ghost before = rest@;
        let ghost out_before = out@;
        let s = rest.remove(m);
        proof {
            assert(s == before[m as int]);
            assert(before.remove(m as int).to_multiset() == before.to_multiset().remove(s));
            assert(out_before.push(s).to_multiset() == out_before.to_multiset().insert(s));
            assert(out_before.push(s).to_multiset().add(before.remove(m as int).to_multiset())
                =~= out_before.to_multiset().add(before.to_multiset()));
            assert forall|i: int, k: int| 0 <= i < out_before.len() + 1 && 0 <= k < rest@.len() implies text_le(
                #[trigger] out_before.push(s)[i]@,
                #[trigger] rest@[k]@,
            ) by {
                if k < m {
                    assert(rest@[k] == before[k]);
                } else {
                    assert(rest@[k] == before[k + 1]);
                }
            }
            assert forall|i: int, k: int| 0 <= i < k < out_before.len() + 1 implies text_le(
                #[trigger] out_before.push(s)[i]@,
                #[trigger] out_before.push(s)[k]@,
            ) by {
                if k == out_before.len() {
                    assert(text_le(out_before[i]@, before[m as int]@));
                }
            }
        }
        out.push(s);
    }
    assert(rest@.to_multiset() =~= Multiset::<String>::empty());
    assert(out@.to_multiset().add(Multiset::<String>::empty()) =~= out@.to_multiset());
    out
}

} // verus!
