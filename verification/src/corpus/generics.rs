//! Generics, and a suite that is configuration-dependent on purpose.
//!
//! **Monomorphization has something to find.** `Pipeline` is instantiated at
//! several unrelated type arguments, so the grouping has real instantiations
//! to collapse rather than a synthetic one.
//!
//! **The gates have something to reject.** `checksum` adds without checking.
//! Under `overflow-checks = false`, the release default, it wraps silently and
//! its test passes; under `overflow-checks = true` it panics and the suite
//! fails. So a sweep over this crate must reject every overflow-checked
//! configuration on the tests gate, and accept the rest. Here the wrap is
//! written out, because it is the behaviour the shipped build has.

use crate::text::chars_of;
use vstd::prelude::*;

verus! {

/// Lexicographic order on integer sequences, a proper prefix first.
pub open spec fn lex_lt(a: Seq<int>, b: Seq<int>) -> bool
    decreases a.len(),
{
    if b.len() == 0 {
        false
    } else if a.len() == 0 {
        true
    } else if a[0] != b[0] {
        a[0] < b[0]
    } else {
        lex_lt(a.drop_first(), b.drop_first())
    }
}

pub proof fn lemma_lex_lt_irreflexive(a: Seq<int>)
    ensures
        !lex_lt(a, a),
    decreases a.len(),
{
    if a.len() > 0 {
        lemma_lex_lt_irreflexive(a.drop_first());
    }
}

pub proof fn lemma_lex_lt_transitive(a: Seq<int>, b: Seq<int>, c: Seq<int>)
    requires
        lex_lt(a, b),
        lex_lt(b, c),
    ensures
        lex_lt(a, c),
    decreases a.len(),
{
    if a.len() > 0 && b.len() > 0 && c.len() > 0 && a[0] == b[0] && b[0] == c[0] {
        lemma_lex_lt_transitive(a.drop_first(), b.drop_first(), c.drop_first());
    }
}

pub proof fn lemma_lex_lt_total(a: Seq<int>, b: Seq<int>)
    requires
        a != b,
    ensures
        lex_lt(a, b) || lex_lt(b, a),
    decreases a.len(),
{
    if a.len() > 0 && b.len() > 0 && a[0] == b[0] {
        if a.drop_first() == b.drop_first() {
            assert(a =~= seq![a[0]] + a.drop_first());
            assert(b =~= seq![b[0]] + b.drop_first());
        }
        lemma_lex_lt_total(a.drop_first(), b.drop_first());
    } else if a.len() == 0 && b.len() == 0 {
        assert(a =~= b);
    }
}

/// A value a pipeline can carry: it has a rank, and ranks are compared
/// lexicographically, which is the order the standard library gives each of
/// the carried types.
pub trait Stage: Sized {
    spec fn rank(&self) -> Seq<int>;

    /// Whether `self` orders strictly before `other`.
    fn before(&self, other: &Self) -> (r: bool)
        ensures
            r == lex_lt(self.rank(), other.rank());

    /// A copy of the same rank.
    fn duplicate(&self) -> (r: Self)
        ensures
            r.rank() == self.rank();
}

impl Stage for u32 {
    open spec fn rank(&self) -> Seq<int> {
        seq![*self as int]
    }

    fn before(&self, other: &Self) -> (r: bool) {
        proof {
            reveal_with_fuel(lex_lt, 2);
            assert(seq![*self as int].drop_first() =~= Seq::<int>::empty());
            assert(seq![*other as int].drop_first() =~= Seq::<int>::empty());
        }
        *self < *other
    }

    fn duplicate(&self) -> (r: Self) {
        *self
    }
}

impl Stage for (u8, char) {
    open spec fn rank(&self) -> Seq<int> {
        seq![self.0 as int, self.1 as int]
    }

    fn before(&self, other: &Self) -> (r: bool) {
        proof {
            reveal_with_fuel(lex_lt, 3);
            let a = seq![self.0 as int, self.1 as int];
            let b = seq![other.0 as int, other.1 as int];
            assert(a.drop_first() =~= seq![self.1 as int]);
            assert(b.drop_first() =~= seq![other.1 as int]);
            assert(a.drop_first().drop_first() =~= Seq::<int>::empty());
            assert(b.drop_first().drop_first() =~= Seq::<int>::empty());
        }
        if self.0 != other.0 {
            self.0 < other.0
        } else {
            self.1 < other.1
        }
    }

    fn duplicate(&self) -> (r: Self) {
        *self
    }
}

/// The code points of `s`, as integers.
pub open spec fn code_points(s: Seq<char>) -> Seq<int> {
    s.map_values(|c: char| c as int)
}

impl Stage for String {
    open spec fn rank(&self) -> Seq<int> {
        code_points(self@)
    }

    fn before(&self, other: &Self) -> (r: bool) {
        let x = chars_of(self.as_str());
        let y = chars_of(other.as_str());
        let ghost a = code_points(self@);
        let ghost b = code_points(other@);
        let mut i: usize = 0;
        assert(a.skip(0) =~= a);
        assert(b.skip(0) =~= b);
        while i < x.len() && i < y.len() && x[i] == y[i]
            invariant
                i <= x@.len(),
                i <= y@.len(),
                x@ == self@,
                y@ == other@,
                a == code_points(self@),
                b == code_points(other@),
                lex_lt(a, b) == lex_lt(a.skip(i as int), b.skip(i as int)),
            decreases x@.len() - i,
        {
            assert(a.skip(i as int).drop_first() =~= a.skip(i + 1));
            assert(b.skip(i as int).drop_first() =~= b.skip(i + 1));
            i = i + 1;
        }
        if i < x.len() && i < y.len() {
            assert(a.skip(i as int)[0] == x@[i as int] as int);
            assert(b.skip(i as int)[0] == y@[i as int] as int);
            x[i] < y[i]
        } else {
            i < y.len()
        }
    }

    fn duplicate(&self) -> (r: Self) {
        self.clone()
    }
}

/// The elements of `v`, as integers.
pub open spec fn widened(v: Seq<i64>) -> Seq<int> {
    v.map_values(|x: i64| x as int)
}

impl Stage for Vec<i64> {
    open spec fn rank(&self) -> Seq<int> {
        widened(self@)
    }

    fn before(&self, other: &Self) -> (r: bool) {
        let ghost a = widened(self@);
        let ghost b = widened(other@);
        let mut i: usize = 0;
        assert(a.skip(0) =~= a);
        assert(b.skip(0) =~= b);
        while i < self.len() && i < other.len() && self[i] == other[i]
            invariant
                i <= self@.len(),
                i <= other@.len(),
                a == widened(self@),
                b == widened(other@),
                lex_lt(a, b) == lex_lt(a.skip(i as int), b.skip(i as int)),
            decreases self@.len() - i,
        {
            assert(a.skip(i as int).drop_first() =~= a.skip(i + 1));
            assert(b.skip(i as int).drop_first() =~= b.skip(i + 1));
            i = i + 1;
        }
        if i < self.len() && i < other.len() {
            assert(a.skip(i as int)[0] == self@[i as int] as int);
            assert(b.skip(i as int)[0] == other@[i as int] as int);
            self[i] < other[i]
        } else {
            i < other.len()
        }
    }

    fn duplicate(&self) -> (r: Self) {
        let r = self.clone();
        assert(r@ =~= self@);
        assert(widened(r@) =~= widened(self@));
        r
    }
}

/// The ranks of the values in `s`, in order.
pub open spec fn ranks<T: Stage>(s: Seq<T>) -> Seq<Seq<int>> {
    s.map_values(|x: T| x.rank())
}

/// Strictly increasing: ordered, and no rank twice.
pub open spec fn increasing(r: Seq<Seq<int>>) -> bool {
    forall|i: int, j: int| 0 <= i < j < r.len() ==> lex_lt(#[trigger] r[i], #[trigger] r[j])
}

/// A small transform chain, generic over what it carries.
///
/// Deliberately monomorphized at several unrelated type arguments below, each
/// of which the compiler emits separately.
#[derive(Debug)]
pub struct Pipeline<T> {
    stages: Vec<T>,
}

impl<T> View for Pipeline<T> {
    type V = Seq<T>;

    closed spec fn view(&self) -> Seq<T> {
        self.stages@
    }
}

impl<T: Stage> Pipeline<T> {
    pub fn new() -> (p: Self)
        ensures
            p@ == Seq::<T>::empty(),
    {
        Pipeline { stages: Vec::new() }
    }

    pub fn push(&mut self, stage: T) -> (r: &mut Self)
        ensures
            (*r)@ == old(self)@.push(stage),
            *final(self) == *final(r),
    {
        self.stages.push(stage);
        self
    }

    pub fn len(&self) -> (n: usize)
        ensures
            n == self@.len(),
    {
        self.stages.len()
    }

    pub fn is_empty(&self) -> (r: bool)
        ensures
            r == (self@.len() == 0),
    {
        self.stages.len() == 0
    }

    /// The stages in order, deduplicated: one of each rank, smallest first.
    pub fn distinct(&self) -> (r: Vec<T>)
        ensures
            increasing(ranks(r@)),
            forall|k: Seq<int>| ranks(r@).contains(k) <==> ranks(self@).contains(k),
    {
        let mut out: Vec<T> = Vec::new();
        let mut i: usize = 0;
        while i < self.stages.len()
            invariant
                i <= self.stages@.len(),
                increasing(ranks(out@)),
                forall|k: Seq<int>| ranks(out@).contains(k) <==> ranks(self.stages@.take(i as int)).contains(k),
            decreases self.stages@.len() - i,
        {
            let x = &self.stages[i];
            let ghost key = x.rank();
            let ghost before_out = ranks(out@);
            let ghost seen = ranks(self.stages@.take(i as int));
            assert(ranks(self.stages@.take(i + 1)) =~= seen.push(key));
            assert forall|k: Seq<int>| seen.push(key).contains(k) <==> (seen.contains(k) || k == key) by {
                if seen.push(key).contains(k) {
                    let j = choose|j: int| 0 <= j < seen.push(key).len() && seen.push(key)[j] == k;
                    if j < seen.len() {
                        assert(seen[j] == k);
                    }
                }
                if seen.contains(k) {
                    let j = choose|j: int| 0 <= j < seen.len() && seen[j] == k;
                    assert(seen.push(key)[j] == k);
                }
                if k == key {
                    assert(seen.push(key)[seen.len() as int] == k);
                }
            }
            let mut p: usize = 0;
            while p < out.len() && out[p].before(x)
                invariant
                    p <= out@.len(),
                    before_out == ranks(out@),
                    key == x.rank(),
                    forall|q: int| 0 <= q < p ==> lex_lt(#[trigger] out@[q].rank(), key),
                decreases out@.len() - p,
            {
                p = p + 1;
            }
            let present = p < out.len() && !x.before(&out[p]);
            if present {
                proof {
                    if out@[p as int].rank() != key {
                        lemma_lex_lt_total(out@[p as int].rank(), key);
                    }
                    assert(before_out[p as int] == key);
                    assert(before_out.contains(key));
                    assert(forall|k: Seq<int>| before_out.contains(k) <==> seen.contains(k));
                    assert(forall|k: Seq<int>| ranks(out@).contains(k) <==> seen.push(key).contains(k));
                }
            } else {
                let item = x.duplicate();
                out.insert(p, item);
                proof {
                    let now = ranks(out@);
                    assert(now =~= before_out.insert(p as int, key));
                    assert forall|a: int, b: int| 0 <= a < b < now.len() implies lex_lt(#[trigger] now[a], #[trigger] now[b]) by {
                        if b < p {
                        } else if a < p && b == p {
                        } else if a < p && b > p {
                            assert(lex_lt(before_out[a], key));
                            if p < before_out.len() {
                                assert(lex_lt(key, before_out[p as int]));
                                if b - 1 > p {
                                    assert(lex_lt(before_out[p as int], before_out[b - 1]));
                                    lemma_lex_lt_transitive(key, before_out[p as int], before_out[b - 1]);
                                }
                            }
                            lemma_lex_lt_transitive(before_out[a], key, before_out[b - 1]);
                        } else if a == p {
                            assert(p < before_out.len());
                            assert(lex_lt(key, before_out[p as int]));
                            if b - 1 > p {
                                assert(lex_lt(before_out[p as int], before_out[b - 1]));
                                lemma_lex_lt_transitive(key, before_out[p as int], before_out[b - 1]);
                            }
                        } else {
                            assert(lex_lt(before_out[a - 1], before_out[b - 1]));
                        }
                    }
                    assert forall|k: Seq<int>| now.contains(k) <==> (before_out.contains(k) || k == key) by {
                        if now.contains(k) {
                            let j = choose|j: int| 0 <= j < now.len() && now[j] == k;
                            if j < p {
                                assert(before_out[j] == k);
                            } else if j > p {
                                assert(before_out[j - 1] == k);
                            }
                        }
                        if before_out.contains(k) {
                            let j = choose|j: int| 0 <= j < before_out.len() && before_out[j] == k;
                            if j < p {
                                assert(now[j] == k);
                            } else {
                                assert(now[j + 1] == k);
                            }
                        }
                        if k == key {
                            assert(now[p as int] == k);
                        }
                    }
                }
            }
            assert(forall|k: Seq<int>| ranks(out@).contains(k) <==> seen.push(key).contains(k));
            i = i + 1;
        }
        assert(self.stages@.take(self.stages@.len() as int) =~= self.stages@);
        out
    }

    /// The stage at `index`.
    pub fn stage(&self, index: usize) -> (r: &T)
        requires
            index < self@.len(),
        ensures
            *r == self@[index as int],
    {
        &self.stages[index]
    }
}

/// The sum of `s`, wrapping at a byte.
pub open spec fn wrapping_sum(s: Seq<u8>) -> u8
    decreases s.len(),
{
    if s.len() == 0 { 0 } else { ((wrapping_sum(s.drop_last()) + s.last()) % 256) as u8 }
}

/// A checksum that adds bytes, wrapping, as the release profile builds it.
///
/// Under `overflow-checks = true` the same addition panics instead; the value
/// of a configuration sweep is that it tells you which of those you are
/// shipping.
pub fn checksum(bytes: &[u8]) -> (c: u8)
    ensures
        c == wrapping_sum(bytes@),
{
    let mut total: u8 = 0;
    let mut i: usize = 0;
    while i < bytes.len()
        invariant
            i <= bytes@.len(),
            total == wrapping_sum(bytes@.take(i as int)),
        decreases bytes@.len() - i,
    {
        assert(bytes@.take(i + 1).drop_last() =~= bytes@.take(i as int));
        total = total.wrapping_add(bytes[i]);
        i = i + 1;
    }
    assert(bytes@.take(bytes@.len() as int) =~= bytes@);
    total
}

/// A strictly increasing sequence holding exactly two different ranks has
/// two elements.
proof fn lemma_two_ranks(r: Seq<Seq<int>>, x: Seq<int>, y: Seq<int>)
    requires
        increasing(r),
        x != y,
        forall|k: Seq<int>| r.contains(k) <==> (k == x || k == y),
    ensures
        r.len() == 2,
{
    assert(r.contains(x));
    assert(r.contains(y));
    let i = choose|i: int| 0 <= i < r.len() && r[i] == x;
    let j = choose|j: int| 0 <= j < r.len() && r[j] == y;
    assert(i != j);
    if r.len() > 2 {
        assert(r.contains(r[0]));
        assert(r.contains(r[1]));
        assert(r.contains(r[2]));
        assert(lex_lt(r[0], r[1]));
        assert(lex_lt(r[1], r[2]));
        assert(lex_lt(r[0], r[2]));
        lemma_lex_lt_irreflexive(r[0]);
        lemma_lex_lt_irreflexive(r[1]);
        lemma_lex_lt_irreflexive(r[2]);
    }
}

/// Instantiate the generic several ways, so the artifact carries several
/// copies for size attribution to find.
pub fn exercise() -> (n: usize)
    ensures
        n == 8,
{
    let mut integers: Pipeline<u32> = Pipeline::new();
    integers.push(3).push(1).push(3);

    let mut strings: Pipeline<String> = Pipeline::new();
    strings.push(String::from_str("parse")).push(String::from_str("verify"));

    let mut pairs: Pipeline<(u8, char)> = Pipeline::new();
    pairs.push((1, 'a')).push((2, 'b'));

    let mut nested: Pipeline<Vec<i64>> = Pipeline::new();
    nested.push(vec![1, 2, 3]).push(vec![4]);

    let distinct_integers = integers.distinct();
    let distinct_strings = strings.distinct();
    proof {
        assert(ranks(integers@) =~= seq![seq![3int], seq![1int], seq![3int]]);
        assert forall|k: Seq<int>| ranks(integers@).contains(k) <==> (k == seq![3int] || k == seq![1int]) by {
            if ranks(integers@).contains(k) {
                let j = choose|j: int| 0 <= j < 3 && ranks(integers@)[j] == k;
            }
            if k == seq![3int] {
                assert(ranks(integers@)[0] == k);
            }
            if k == seq![1int] {
                assert(ranks(integers@)[1] == k);
            }
        }
        assert(seq![3int][0] != seq![1int][0]);
        lemma_two_ranks(ranks(distinct_integers@), seq![3int], seq![1int]);

        reveal_strlit("parse");
        reveal_strlit("verify");
        let p = code_points("parse"@);
        let v = code_points("verify"@);
        assert(p[0] != v[0]);
        assert(ranks(strings@) =~= seq![p, v]);
        assert forall|k: Seq<int>| ranks(strings@).contains(k) <==> (k == p || k == v) by {
            if ranks(strings@).contains(k) {
                let j = choose|j: int| 0 <= j < 2 && ranks(strings@)[j] == k;
            }
            if k == p {
                assert(ranks(strings@)[0] == k);
            }
            if k == v {
                assert(ranks(strings@)[1] == k);
            }
        }
        lemma_two_ranks(ranks(distinct_strings@), p, v);
    }
    distinct_integers.len() + distinct_strings.len() + pairs.len() + nested.len()
}

} // verus!
