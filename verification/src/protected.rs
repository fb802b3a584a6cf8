//! The set of protected paths: strings in strictly ascending order, so that
//! nothing occurs twice.

use vstd::prelude::*;
use crate::text::{
    lemma_lt_irreflexive, lemma_lt_transitive, lemma_trichotomy, lex_lt, same_text, str_lt,
    strictly_sorted, texts,
};

verus! {

/// Both sequences hold the same strings, whatever the order and the number of
/// occurrences.
pub open spec fn same_members(a: Seq<Seq<char>>, b: Seq<Seq<char>>) -> bool {
    forall|p: Seq<char>| a.contains(p) <==> b.contains(p)
}

/// `r` is `s` sorted, with each string kept once.
pub open spec fn is_sorted_set_of(r: Seq<Seq<char>>, s: Seq<Seq<char>>) -> bool {
    strictly_sorted(r) && same_members(r, s)
}

/// A strictly ascending sequence is fixed by the strings it holds: sorting and
/// removing duplicates has one result only.
pub proof fn lemma_sorted_set_unique(a: Seq<Seq<char>>, b: Seq<Seq<char>>)
    requires
        strictly_sorted(a),
        strictly_sorted(b),
        same_members(a, b),
    ensures
        a == b,
    decreases a.len(),
{
    if a.len() == 0 {
        if b.len() > 0 {
            assert(b.contains(b[0]));
        }
        assert(a =~= b);
    } else {
        assert(a.contains(a[0]));
        let j = choose|j: int| 0 <= j < b.len() && b[j] == a[0];
        assert(b.contains(b[0]));
        let i = choose|i: int| 0 <= i < a.len() && a[i] == b[0];
        if j > 0 {
            assert(lex_lt(b[0], b[j]));
            if i > 0 {
                assert(lex_lt(a[0], a[i]));
                lemma_lt_transitive(a[0], a[i], a[0]);
            }
            lemma_lt_irreflexive(a[0]);
        }
        assert(a[0] == b[0]);
        let ta = a.skip(1);
        let tb = b.skip(1);
        assert forall|p: Seq<char>| ta.contains(p) <==> tb.contains(p) by {
            if ta.contains(p) {
                let k = choose|k: int| 0 <= k < ta.len() && ta[k] == p;
                assert(a[k + 1] == p);
                assert(lex_lt(a[0], a[k + 1]));
                assert(a.contains(p));
                let m = choose|m: int| 0 <= m < b.len() && b[m] == p;
                if m == 0 {
                    lemma_lt_irreflexive(p);
                }
                assert(tb[m - 1] == p);
            }
            if tb.contains(p) {
                let k = choose|k: int| 0 <= k < tb.len() && tb[k] == p;
                assert(b[k + 1] == p);
                assert(lex_lt(b[0], b[k + 1]));
                assert(b.contains(p));
                let m = choose|m: int| 0 <= m < a.len() && a[m] == p;
                if m == 0 {
                    lemma_lt_irreflexive(p);
                }
                assert(ta[m - 1] == p);
            }
        }
        lemma_sorted_set_unique(ta, tb);
        assert(a =~= seq![a[0]] + ta);
        assert(b =~= seq![b[0]] + tb);
    }
}

/// What is sorted and rid of duplicates depends only on the strings that the
/// input holds: not on their order, nor on how often one occurs.
pub proof fn lemma_same_members_same_set(
    a: Seq<Seq<char>>,
    b: Seq<Seq<char>>,
    ra: Seq<Seq<char>>,
    rb: Seq<Seq<char>>,
)
    requires
        same_members(a, b),
        is_sorted_set_of(ra, a),
        is_sorted_set_of(rb, b),
    ensures
        ra == rb,
{
    lemma_sorted_set_unique(ra, rb);
}

/// A strictly ascending sequence holds no string twice.
pub proof fn lemma_sorted_has_no_duplicates(s: Seq<Seq<char>>)
    requires
        strictly_sorted(s),
    ensures
        forall|i: int, j: int| 0 <= i < s.len() && 0 <= j < s.len() && i != j ==> s[i] != s[j],
{
    assert forall|i: int, j: int| 0 <= i < s.len() && 0 <= j < s.len() && i != j implies s[i]
        != s[j] by {
        lemma_lt_irreflexive(s[i]);
        if i < j {
            assert(lex_lt(s[i], s[j]));
        } else {
            assert(lex_lt(s[j], s[i]));
        }
    }
}

/// Tells whether the set holds `path`.
pub fn contains_path(set: &Vec<String>, path: &str) -> (r: bool)
    ensures
        r == texts(set@).contains(path@),
{
    let mut i: usize = 0;
    while i < set.len()
        invariant
            i <= set.len(),
            forall|k: int| 0 <= k < i ==> texts(set@)[k] != path@,
        decreases set.len() - i,
    {
        if same_text(set[i].as_str(), path) {
            assert(texts(set@)[i as int] == path@);
            return true;
        }
        i = i + 1;
    }
    false
}

/// Puts `path` into the set at its place, unless the set holds it already.
pub fn insert_path(set: &mut Vec<String>, path: String)
    requires
        strictly_sorted(texts(old(set)@)),
    ensures
        strictly_sorted(texts(final(set)@)),
        forall|p: Seq<char>|
            texts(final(set)@).contains(p) <==> (texts(old(set)@).contains(p) || p == path@),
        texts(old(set)@).contains(path@) ==> texts(final(set)@) == texts(old(set)@),
{
    let ghost before = texts(set@);
    let mut i: usize = 0;
    while i < set.len() && str_lt(set[i].as_str(), path.as_str())
        invariant
            i <= set.len(),
            texts(set@) == before,
            forall|k: int| 0 <= k < i ==> lex_lt(before[k], path@),
        decreases set.len() - i,
    {
        i = i + 1;
    }
    if i < set.len() && set[i] == path {
        assert(before[i as int] == path@);
        return ;
    }
    proof {
        assert forall|k: int| i <= k < before.len() implies lex_lt(path@, #[trigger] before[k]) by {
            lemma_trichotomy(before[i as int], path@);
            if k > i {
                lemma_lt_transitive(path@, before[i as int], before[k]);
            }
        }
        assert forall|k: int| 0 <= k < before.len() implies before[k] != path@ by {
            lemma_lt_irreflexive(path@);
        }
    }
    set.insert(i, path);
    proof {
        let after = texts(set@);
        assert(after =~= before.insert(i as int, path@));
        assert forall|x: int, y: int| 0 <= x < y < after.len() implies lex_lt(
            #[trigger] after[x],
            #[trigger] after[y],
        ) by {
            if y < i {
            } else if y == i {
            } else if x < i {
                assert(after[y] == before[y - 1]);
                if y - 1 >= i && x < i {
                    lemma_lt_transitive(before[x], path@, before[y - 1]);
                }
            } else if x == i {
                assert(after[y] == before[y - 1]);
            } else {
                assert(after[x] == before[x - 1]);
                assert(after[y] == before[y - 1]);
            }
        }
        assert forall|p: Seq<char>| after.contains(p) <==> (before.contains(p) || p == path@) by {
            if after.contains(p) {
                let k = choose|k: int| 0 <= k < after.len() && after[k] == p;
                if k < i {
                    assert(before[k] == p);
                } else if k > i {
                    assert(before[k - 1] == p);
                }
            }
            if before.contains(p) {
                let k = choose|k: int| 0 <= k < before.len() && before[k] == p;
                if k < i {
                    assert(after[k] == p);
                } else {
                    assert(after[k + 1] == p);
                }
            }
            if p == path@ {
                assert(after[i as int] == p);
            }
        }
    }
}

/// Sorts the paths in ascending order and keeps each of them once.
pub fn sort_and_dedup(paths: &Vec<String>) -> (r: Vec<String>)
    ensures
        is_sorted_set_of(texts(r@), texts(paths@)),
{
    let mut set: Vec<String> = Vec::new();
    let mut i: usize = 0;
    while i < paths.len()
        invariant
            i <= paths.len(),
            strictly_sorted(texts(set@)),
            forall|p: Seq<char>|
                texts(set@).contains(p) <==> texts(paths@).take(i as int).contains(p),
        decreases paths.len() - i,
    {
        let ghost was = texts(set@);
        let ghost src = texts(paths@);
        insert_path(&mut set, paths[i].clone());
        proof {
            let done = src.take(i as int);
            let next = src.take(i + 1);
            assert(next =~= done.push(src[i as int]));
            assert forall|p: Seq<char>| texts(set@).contains(p) <==> next.contains(p) by {
                if next.contains(p) {
                    let k = choose|k: int| 0 <= k < next.len() && next[k] == p;
                    if k < i {
                        assert(done[k] == p);
                    }
                }
                if done.contains(p) {
                    let k = choose|k: int| 0 <= k < done.len() && done[k] == p;
                    assert(next[k] == p);
                }
                if p == src[i as int] {
                    assert(next[i as int] == p);
                }
            }
        }
        i = i + 1;
    }
    assert(texts(paths@).take(i as int) =~= texts(paths@));
    set
}

} // verus!
