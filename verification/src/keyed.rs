//! Collections kept in the order of a text key, each key at most once: the
//! shape of an ordered map, held in a `Vec`.

use crate::text::{lemma_text_lt_asymmetric, lemma_text_lt_irreflexive, lemma_text_lt_total,
    lemma_text_lt_transitive, text_eq, text_less, text_lt};
use vstd::prelude::*;

verus! {

/// A value that carries its own text key.
pub trait Keyed {
    spec fn key(&self) -> Seq<char>;

    fn key_text(&self) -> (r: &str)
        ensures
            r@ == self.key();
}

/// Strictly increasing keys: ordered, and no key twice.
pub open spec fn keys_ordered<T: Keyed>(s: Seq<T>) -> bool {
    forall|i: int, j: int| 0 <= i < j < s.len() ==> text_lt(#[trigger] s[i].key(), #[trigger] s[j].key())
}

pub open spec fn has_key<T: Keyed>(s: Seq<T>, k: Seq<char>) -> bool {
    exists|i: int| 0 <= i < s.len() && #[trigger] s[i].key() == k
}

pub open spec fn key_index<T: Keyed>(s: Seq<T>, k: Seq<char>) -> int {
    choose|i: int| 0 <= i < s.len() && #[trigger] s[i].key() == k
}

/// The value held under `k`.
pub open spec fn entry<T: Keyed>(s: Seq<T>, k: Seq<char>) -> T {
    s[key_index(s, k)]
}

pub proof fn lemma_entry<T: Keyed>(s: Seq<T>, i: int)
    requires
        keys_ordered(s),
        0 <= i < s.len(),
    ensures
        has_key(s, s[i].key()),
        key_index(s, s[i].key()) == i,
        entry(s, s[i].key()) == s[i],
{
    let k = s[i].key();
    assert(has_key(s, k));
    let j = key_index(s, k);
    if j != i {
        if j < i {
            assert(text_lt(s[j].key(), s[i].key()));
        } else {
            assert(text_lt(s[i].key(), s[j].key()));
        }
        lemma_text_lt_irreflexive(k);
    }
}

/// Where `k` is, or would go: every key before it is smaller, and the key
/// there, if any, is not.
pub fn find_key<T: Keyed>(v: &Vec<T>, k: &str) -> (r: (usize, bool))
    requires
        keys_ordered(v@),
    ensures
        r.0 <= v@.len(),
        forall|j: int| 0 <= j < r.0 ==> text_lt(#[trigger] v@[j].key(), k@),
        r.0 < v@.len() ==> !text_lt(v@[r.0 as int].key(), k@),
        r.1 <==> (r.0 < v@.len() && v@[r.0 as int].key() == k@),
        r.1 <==> has_key(v@, k@),
        !r.1 && r.0 < v@.len() ==> text_lt(k@, v@[r.0 as int].key()),
{
    let mut p: usize = 0;
    while p < v.len() && text_less(v[p].key_text(), k)
        invariant
            p <= v@.len(),
            forall|j: int| 0 <= j < p ==> text_lt(#[trigger] v@[j].key(), k@),
        decreases v@.len() - p,
    {
        p = p + 1;
    }
    let found = p < v.len() && text_eq(v[p].key_text(), k);
    proof {
        if !found && p < v@.len() {
            lemma_text_lt_total(v@[p as int].key(), k@);
        }
        if has_key(v@, k@) && !found {
            let i = choose|i: int| 0 <= i < v@.len() && #[trigger] v@[i].key() == k@;
            if i < p {
                assert(text_lt(v@[i].key(), k@));
                lemma_text_lt_irreflexive(k@);
            } else if i == p {
            } else {
                assert(text_lt(v@[p as int].key(), v@[i].key()));
                lemma_text_lt_asymmetric(k@, v@[p as int].key());
            }
        }
    }
    (p, found)
}

/// Puts `item` under its key, replacing what was there.
pub fn insert_keyed<T: Keyed>(v: &mut Vec<T>, item: T)
    requires
        keys_ordered(old(v)@),
    ensures
        keys_ordered(final(v)@),
        forall|k: Seq<char>| has_key(final(v)@, k) <==> (has_key(old(v)@, k) || k == item.key()),
        entry(final(v)@, item.key()) == item,
        forall|k: Seq<char>| k != item.key() && has_key(old(v)@, k) ==> entry(final(v)@, k) == entry(old(v)@, k),
        final(v)@.len() == old(v)@.len() + (if has_key(old(v)@, item.key()) { 0int } else { 1int }),
{
    let (p, found) = find_key(v, item.key_text());
    let ghost before = v@;
    let ghost key = item.key();
    if found {
        v.set(p, item);
        proof {
            assert forall|i: int, j: int| 0 <= i < j < v@.len() implies
                text_lt(#[trigger] v@[i].key(), #[trigger] v@[j].key()) by {
                assert(before[i].key() == v@[i].key() || i == p);
                assert(before[j].key() == v@[j].key() || j == p);
            }
            assert forall|k: Seq<char>| has_key(v@, k) <==> (has_key(before, k) || k == key) by {
                if has_key(v@, k) {
                    let i = choose|i: int| 0 <= i < v@.len() && #[trigger] v@[i].key() == k;
                    assert(before[i].key() == k || i == p);
                }
                if has_key(before, k) {
                    let i = choose|i: int| 0 <= i < before.len() && #[trigger] before[i].key() == k;
                    assert(v@[i].key() == k || i == p);
                }
                if k == key {
                    assert(v@[p as int].key() == k);
                }
            }
            lemma_entry(v@, p as int);
            assert forall|k: Seq<char>| k != key && has_key(before, k) implies entry(v@, k) == entry(before, k) by {
                let i = key_index(before, k);
                lemma_entry(before, i);
                assert(i != p);
                assert(v@[i] == before[i]);
                lemma_entry(v@, i);
            }
        }
    } else {
        v.insert(p, item);
        proof {
            assert forall|i: int, j: int| 0 <= i < j < v@.len() implies
                text_lt(#[trigger] v@[i].key(), #[trigger] v@[j].key()) by {
                if j < p {
                    assert(v@[i] == before[i] && v@[j] == before[j]);
                } else if j == p {
                    assert(v@[i] == before[i]);
                } else if i < p {
                    assert(v@[i] == before[i] && v@[j] == before[j - 1]);
                    if j - 1 > p {
                        assert(text_lt(before[p as int].key(), before[j - 1].key()));
                        lemma_text_lt_transitive(key, before[p as int].key(), before[j - 1].key());
                    }
                    lemma_text_lt_transitive(before[i].key(), key, before[j - 1].key());
                } else if i == p {
                    assert(v@[j] == before[j - 1]);
                    if j - 1 > p {
                        assert(text_lt(before[p as int].key(), before[j - 1].key()));
                        lemma_text_lt_transitive(key, before[p as int].key(), before[j - 1].key());
                    }
                } else {
                    assert(v@[i] == before[i - 1] && v@[j] == before[j - 1]);
                }
            }
            assert forall|k: Seq<char>| has_key(v@, k) <==> (has_key(before, k) || k == key) by {
                if has_key(v@, k) {
                    let i = choose|i: int| 0 <= i < v@.len() && #[trigger] v@[i].key() == k;
                    if i < p {
                        assert(before[i].key() == k);
                    } else if i > p {
                        assert(before[i - 1].key() == k);
                    }
                }
                if has_key(before, k) {
                    let i = choose|i: int| 0 <= i < before.len() && #[trigger] before[i].key() == k;
                    if i < p {
                        assert(v@[i].key() == k);
                    } else {
                        assert(v@[i + 1].key() == k);
                    }
                }
                if k == key {
                    assert(v@[p as int].key() == k);
                }
            }
            lemma_entry(v@, p as int);
            assert forall|k: Seq<char>| k != key && has_key(before, k) implies entry(v@, k) == entry(before, k) by {
                let i = key_index(before, k);
                lemma_entry(before, i);
                if i < p {
                    assert(v@[i] == before[i]);
                    lemma_entry(v@, i);
                } else {
                    assert(v@[i + 1] == before[i]);
                    lemma_entry(v@, i + 1);
                }
            }
        }
    }
}

/// Takes out what is held under `k`, if anything.
pub fn remove_keyed<T: Keyed>(v: &mut Vec<T>, k: &str) -> (r: Option<T>)
    requires
        keys_ordered(old(v)@),
    ensures
        keys_ordered(final(v)@),
        forall|q: Seq<char>| has_key(final(v)@, q) <==> (has_key(old(v)@, q) && q != k@),
        forall|q: Seq<char>| q != k@ && has_key(old(v)@, q) ==> entry(final(v)@, q) == entry(old(v)@, q),
        r is Some <==> has_key(old(v)@, k@),
        r matches Some(x) ==> x == entry(old(v)@, k@),
        final(v)@.len() == old(v)@.len() - (if has_key(old(v)@, k@) { 1int } else { 0int }),
{
    let (p, found) = find_key(v, k);
    if !found {
        return None;
    }
    let ghost before = v@;
    let x = v.remove(p);
    proof {
        lemma_entry(before, p as int);
        assert forall|i: int, j: int| 0 <= i < j < v@.len() implies
            text_lt(#[trigger] v@[i].key(), #[trigger] v@[j].key()) by {
            if j < p {
                assert(v@[i] == before[i] && v@[j] == before[j]);
            } else if i < p {
                assert(v@[i] == before[i] && v@[j] == before[j + 1]);
            } else {
                assert(v@[i] == before[i + 1] && v@[j] == before[j + 1]);
            }
        }
        assert forall|q: Seq<char>| has_key(v@, q) <==> (has_key(before, q) && q != k@) by {
            if has_key(v@, q) {
                let i = choose|i: int| 0 <= i < v@.len() && #[trigger] v@[i].key() == q;
                if i < p {
                    assert(before[i].key() == q);
                    assert(text_lt(before[i].key(), before[p as int].key()));
                    lemma_text_lt_irreflexive(q);
                } else {
                    assert(before[i + 1].key() == q);
                    assert(text_lt(before[p as int].key(), before[i + 1].key()));
                    lemma_text_lt_irreflexive(q);
                }
            }
            if has_key(before, q) && q != k@ {
                let i = choose|i: int| 0 <= i < before.len() && #[trigger] before[i].key() == q;
                if i < p {
                    assert(v@[i].key() == q);
                } else {
                    assert(i != p);
                    assert(v@[i - 1].key() == q);
                }
            }
        }
        assert forall|q: Seq<char>| q != k@ && has_key(before, q) implies entry(v@, q) == entry(before, q) by {
            let i = key_index(before, q);
            lemma_entry(before, i);
            if i < p {
                assert(v@[i] == before[i]);
                lemma_entry(v@, i);
            } else {
                assert(v@[i - 1] == before[i]);
                lemma_entry(v@, i - 1);
            }
        }
    }
    Some(x)
}

/// `v` back to front.
pub fn reversed<T>(v: Vec<T>) -> (r: Vec<T>)
    ensures
        r@.len() == v@.len(),
        forall|j: int| 0 <= j < r@.len() ==> #[trigger] r@[j] == v@[v@.len() - 1 - j],
{
    let ghost all = v@;
    let mut src = v;
    let mut r: Vec<T> = Vec::new();
    while src.len() > 0
        invariant
            src@.len() + r@.len() == all.len(),
            src@ == all.take(src@.len() as int),
            forall|j: int| 0 <= j < r@.len() ==> #[trigger] r@[j] == all[all.len() - 1 - j],
        decreases src@.len(),
    {
        let x = src.pop().unwrap();
        r.push(x);
        assert(src@ =~= all.take(src@.len() as int));
    }
    r
}

/// What is held under `k`, if anything.
pub fn get_keyed<'a, T: Keyed>(v: &'a Vec<T>, k: &str) -> (r: Option<&'a T>)
    requires
        keys_ordered(v@),
    ensures
        r is Some <==> has_key(v@, k@),
        r matches Some(x) ==> *x == entry(v@, k@),
{
    let (p, found) = find_key(v, k);
    if found {
        proof { lemma_entry(v@, p as int); }
        Some(&v[p])
    } else {
        None
    }
}

} // verus!

verus! {

/// How many leading items of `s` have keys not above `k`: where an item with
/// key `k` goes, after every item with the same key.
pub open spec fn upper_bound<T: Keyed>(s: Seq<T>, k: Seq<char>) -> nat
    decreases s.len(),
{
    if s.len() == 0 || text_lt(k, s[0].key()) { 0 } else { 1 + upper_bound(s.drop_first(), k) }
}

pub proof fn lemma_upper_bound<T: Keyed>(s: Seq<T>, k: Seq<char>)
    ensures
        upper_bound(s, k) <= s.len(),
    decreases s.len(),
{
    if s.len() > 0 && !text_lt(k, s[0].key()) {
        lemma_upper_bound(s.drop_first(), k);
    }
}

/// `s` with `x` inserted after the items whose keys are not above its own.
pub open spec fn insert_by_key<T: Keyed>(s: Seq<T>, x: T) -> Seq<T> {
    s.insert(upper_bound(s, x.key()) as int, x)
}

/// `s` in key order, items with equal keys in the order they came: a stable
/// sort by key.
pub open spec fn sorted_by_key<T: Keyed>(s: Seq<T>) -> Seq<T>
    decreases s.len(),
{
    if s.len() == 0 {
        seq![]
    } else {
        insert_by_key(sorted_by_key(s.drop_last()), s.last())
    }
}

pub proof fn lemma_sorted_len<T: Keyed>(s: Seq<T>)
    ensures
        sorted_by_key(s).len() == s.len(),
    decreases s.len(),
{
    if s.len() > 0 {
        lemma_sorted_len(s.drop_last());
        lemma_upper_bound(sorted_by_key(s.drop_last()), s.last().key());
    }
}

/// `v` sorted by key, stably.
pub fn sort_by_key<T: Keyed>(v: Vec<T>) -> (r: Vec<T>)
    ensures
        r@ == sorted_by_key(v@),
{
    let ghost all = v@;
    let n = v.len();
    let mut rest = reversed(v);
    let mut out: Vec<T> = Vec::new();
    let mut i: usize = 0;
    while rest.len() > 0
        invariant
            i + rest@.len() == all.len(),
            all.len() == n,
            forall|j: int| 0 <= j < rest@.len() ==> #[trigger] rest@[j] == all[all.len() - 1 - j],
            out@ == sorted_by_key(all.take(i as int)),
        decreases rest@.len(),
    {
        let x = rest.pop().unwrap();
        assert(x == all[i as int]);
        let ghost k = x.key();
        let mut p: usize = 0;
        assert(out@.skip(0) =~= out@);
        while p < out.len() && !text_less(x.key_text(), out[p].key_text())
            invariant
                p <= out@.len(),
                k == x.key(),
                upper_bound(out@, k) == p + upper_bound(out@.skip(p as int), k),
            decreases out@.len() - p,
        {
            assert(out@.skip(p as int)[0] == out@[p as int]);
            assert(out@.skip(p as int).drop_first() =~= out@.skip(p + 1));
            p = p + 1;
        }
        proof {
            if p < out@.len() {
                assert(out@.skip(p as int)[0] == out@[p as int]);
            }
        }
        assert(all.take(i + 1).drop_last() =~= all.take(i as int));
        assert(all.take(i + 1).last() == x);
        out.insert(p, x);
        i = i + 1;
    }
    assert(all.take(i as int) =~= all);
    out
}

/// Sorting by key loses nothing and adds nothing.
pub proof fn lemma_sorted_contains<T: Keyed>(s: Seq<T>, x: T)
    ensures
        sorted_by_key(s).contains(x) <==> s.contains(x),
    decreases s.len(),
{
    if s.len() > 0 {
        let t = sorted_by_key(s.drop_last());
        lemma_sorted_contains(s.drop_last(), x);
        lemma_upper_bound(t, s.last().key());
        let p = upper_bound(t, s.last().key()) as int;
        let u = t.insert(p, s.last());
        assert(sorted_by_key(s) == u);
        if u.contains(x) {
            let i = choose|i: int| 0 <= i < u.len() && u[i] == x;
            if i < p {
                assert(t[i] == x);
            } else if i > p {
                assert(t[i - 1] == x);
            }
        }
        if t.contains(x) {
            let i = choose|i: int| 0 <= i < t.len() && t[i] == x;
            if i < p {
                assert(u[i] == x);
            } else {
                assert(u[i + 1] == x);
            }
        }
        if x == s.last() {
            assert(u[p] == x);
        }
        if s.contains(x) {
            let i = choose|i: int| 0 <= i < s.len() && s[i] == x;
            if i < s.len() - 1 {
                assert(s.drop_last()[i] == x);
            }
        }
        if s.drop_last().contains(x) {
            let i = choose|i: int| 0 <= i < s.drop_last().len() && s.drop_last()[i] == x;
            assert(s[i] == x);
        }
    }
}

} // verus!
