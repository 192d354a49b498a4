//! The order of texts, and texts in ascending order.

use vstd::prelude::*;
use crate::text::{
    contains_text, distinct_texts, is_ascending, sort_texts, text_lt, text_views,
    without_repetition,
};

verus! {

/// Whether each text comes before the ones behind it.
pub open spec fn is_strictly_ascending(texts: Seq<Seq<char>>) -> bool {
    forall|i: int, j: int| 0 <= i < j < texts.len() ==> text_lt(texts[i], texts[j])
}

/// No text comes before itself.
pub proof fn lemma_lt_irreflexive(a: Seq<char>)
    ensures
        !text_lt(a, a),
    decreases a.len(),
{
    if a.len() > 0 {
        lemma_lt_irreflexive(a.drop_first());
    }
}

/// What comes before a text comes before all that the text comes before.
pub proof fn lemma_lt_transitive(a: Seq<char>, b: Seq<char>, c: Seq<char>)
    requires
        text_lt(a, b),
        text_lt(b, c),
    ensures
        text_lt(a, c),
    decreases a.len(),
{
    if a.len() > 0 && b.len() > 0 && c.len() > 0 {
        if a[0] == b[0] && b[0] == c[0] {
            lemma_lt_transitive(a.drop_first(), b.drop_first(), c.drop_first());
        }
    }
}

/// Of two different texts one comes before the other.
pub proof fn lemma_lt_total(a: Seq<char>, b: Seq<char>)
    ensures
        a == b || text_lt(a, b) || text_lt(b, a),
    decreases a.len(),
{
    if a.len() > 0 && b.len() > 0 {
        if a[0] == b[0] {
            lemma_lt_total(a.drop_first(), b.drop_first());
            if a.drop_first() == b.drop_first() {
                assert(a =~= seq![a[0]] + a.drop_first());
                assert(b =~= seq![b[0]] + b.drop_first());
            }
        }
    } else if a.len() == 0 && b.len() == 0 {
        assert(a =~= b);
    }
}

/// Two strictly ascending sequences of the same texts are the same
/// sequence.
pub proof fn lemma_ascending_unique(s: Seq<Seq<char>>, t: Seq<Seq<char>>)
    requires
        is_strictly_ascending(s),
        is_strictly_ascending(t),
        forall|x: Seq<char>| s.contains(x) <==> t.contains(x),
    ensures
        s == t,
    decreases s.len(),
{
    if s.len() == 0 {
        if t.len() > 0 {
            assert(t.contains(t[0]));
        }
        assert(s =~= t);
    } else {
        assert(s.contains(s.last()));
        assert(t.contains(s.last()));
        assert(t.len() > 0);
        assert(t.contains(t.last()));
        assert(s.contains(t.last()));
        let i = choose|i: int| 0 <= i < s.len() && s[i] == t.last();
        let j = choose|j: int| 0 <= j < t.len() && t[j] == s.last();
        if s.last() != t.last() {
            assert(i < s.len() - 1);
            assert(j < t.len() - 1);
            assert(text_lt(s[i], s.last()));
            assert(text_lt(t[j], t.last()));
            lemma_lt_transitive(t.last(), s.last(), t.last());
            lemma_lt_irreflexive(t.last());
        }
        let s2 = s.drop_last();
        let t2 = t.drop_last();
        assert forall|x: Seq<char>| s2.contains(x) <==> t2.contains(x) by {
            if s2.contains(x) {
                let k = choose|k: int| 0 <= k < s2.len() && s2[k] == x;
                assert(s[k] == x);
                assert(text_lt(s[k], s.last()));
                assert(s.contains(x));
                let m = choose|m: int| 0 <= m < t.len() && t[m] == x;
                if m == t.len() - 1 {
                    lemma_lt_irreflexive(x);
                }
                assert(t2[m] == x);
            }
            if t2.contains(x) {
                let k = choose|k: int| 0 <= k < t2.len() && t2[k] == x;
                assert(t[k] == x);
                assert(text_lt(t[k], t.last()));
                assert(t.contains(x));
                let m = choose|m: int| 0 <= m < s.len() && s[m] == x;
                if m == s.len() - 1 {
                    lemma_lt_irreflexive(x);
                }
                assert(s2[m] == x);
            }
        }
        assert(is_strictly_ascending(s2)) by {
            assert forall|a: int, b: int| 0 <= a < b < s2.len() implies text_lt(s2[a], s2[b]) by {
                assert(s2[a] == s[a] && s2[b] == s[b]);
            }
        }
        assert(is_strictly_ascending(t2)) by {
            assert forall|a: int, b: int| 0 <= a < b < t2.len() implies text_lt(t2[a], t2[b]) by {
                assert(t2[a] == t[a] && t2[b] == t[b]);
            }
        }
        lemma_ascending_unique(s2, t2);
        assert(s =~= s2.push(s.last()));
        assert(t =~= t2.push(t.last()));
    }
}

/// The texts without repetition hold no text twice, and hold the same
/// texts.
pub proof fn lemma_distinct_texts(texts: Seq<Seq<char>>)
    ensures
        distinct_texts(texts).no_duplicates(),
        forall|x: Seq<char>| distinct_texts(texts).contains(x) <==> texts.contains(x),
    decreases texts.len(),
{
    if texts.len() == 0 {
        assert(distinct_texts(texts) == Seq::<Seq<char>>::empty());
    } else {
        let rest = texts.drop_last();
        let before = distinct_texts(rest);
        lemma_distinct_texts(rest);
        assert(distinct_texts(texts) == if before.contains(texts.last()) {
            before
        } else {
            before.push(texts.last())
        });
        let all = distinct_texts(texts);
        assert forall|x: Seq<char>| all.contains(x) <==> texts.contains(x) by {
            if all.contains(x) {
                let k = choose|k: int| 0 <= k < all.len() && all[k] == x;
                if k < before.len() {
                    assert(before[k] == x);
                    assert(before.contains(x));
                    assert(rest.contains(x));
                    let m = choose|m: int| 0 <= m < rest.len() && rest[m] == x;
                    assert(texts[m] == x);
                } else {
                    assert(texts[texts.len() - 1] == x);
                }
            }
            if texts.contains(x) {
                let m = choose|m: int| 0 <= m < texts.len() && texts[m] == x;
                if m < rest.len() {
                    assert(rest[m] == x);
                    assert(rest.contains(x));
                    assert(before.contains(x));
                    let k = choose|k: int| 0 <= k < before.len() && before[k] == x;
                    assert(all[k] == x);
                } else if before.contains(x) {
                    let k = choose|k: int| 0 <= k < before.len() && before[k] == x;
                    assert(all[k] == x);
                } else {
                    assert(all[all.len() - 1] == x);
                }
            }
        }
        if !before.contains(texts.last()) {
            assert forall|a: int, b: int| 0 <= a < all.len() && 0 <= b < all.len() && a
                != b implies all[a] != all[b] by {
                if a < before.len() && b < before.len() {
                    assert(before[a] != before[b]);
                } else if a < before.len() {
                    assert(before[a] == all[a]);
                    assert(before.contains(all[a]));
                } else {
                    assert(before[b] == all[b]);
                    assert(before.contains(all[b]));
                }
            }
        }
    }
}

/// The given texts, each once, in ascending order.
pub fn sorted_distinct(texts: &Vec<String>) -> (r: Vec<String>)
    ensures
        is_strictly_ascending(text_views(r@)),
        forall|x: Seq<char>| text_views(r@).contains(x) <==> text_views(texts@).contains(x),
{
    let mut out = without_repetition(texts);
    let ghost once = text_views(out@);
    sort_texts(&mut out);
    let ghost sorted = text_views(out@);
    proof {
        lemma_distinct_texts(text_views(texts@));
        once.lemma_multiset_has_no_duplicates();
        assert(sorted.to_multiset() == once.to_multiset());
        sorted.to_multiset_ensures();
        once.to_multiset_ensures();
        assert forall|x: Seq<char>| sorted.contains(x) <==> once.contains(x) by {
            assert(sorted.contains(x) <==> sorted.to_multiset().count(x) > 0);
            assert(once.contains(x) <==> once.to_multiset().count(x) > 0);
        }
        sorted.lemma_multiset_has_no_duplicates_conv();
        assert forall|i: int, j: int| 0 <= i < j < sorted.len() implies text_lt(
            sorted[i],
            sorted[j],
        ) by {
            lemma_lt_total(sorted[i], sorted[j]);
        }
    }
    out
}

} // verus!
