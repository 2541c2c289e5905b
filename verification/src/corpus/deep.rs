//! A deep dependency tree. The point of this entry is proportion: here most
//! of the bytes belong to `regex` and its dependencies rather than to the
//! crate. Its logic keeps the records whose names match a pattern, heaviest
//! first.

use vstd::prelude::*;

verus! {

/// One unit of an artifact and what it weighs.
#[derive(Debug, PartialEq, Eq)]
pub struct Record {
    pub name: String,
    pub bytes: u64,
    pub tags: Vec<String>,
}

/// Whether `pattern` compiles to a regular expression.
pub uninterp spec fn regex_compiles(pattern: Seq<char>) -> bool;

/// Whether the regular expression `pattern` matches anywhere in `haystack`.
pub uninterp spec fn regex_matches(pattern: Seq<char>, haystack: Seq<char>) -> bool;

/// `regex::Regex::new(pattern)`, then `is_match(haystack)` on what it built.
///
/// Claimed: `None` exactly when the pattern does not compile, which depends
/// on the pattern alone; otherwise whether it matches, which depends on the
/// pattern and the haystack alone. Which patterns compile and what they match
/// is the crate's and is not stated here.
#[verifier::external_body]
fn pattern_match(pattern: &str, haystack: &str) -> (r: Option<bool>)
    ensures
        r is Some <==> regex_compiles(pattern@),
        r matches Some(b) ==> b == regex_matches(pattern@, haystack@),
{
    match regex::Regex::new(pattern) {
        Ok(re) => Some(re.is_match(haystack)),
        Err(_) => None,
    }
}

/// The records whose names `pattern` matches, in the order given.
pub open spec fn matching(records: Seq<Record>, pattern: Seq<char>) -> Seq<Record> {
    records.filter(|r: Record| regex_matches(pattern, r.name@))
}

/// How many leading records of `s` weigh at least `bytes`: where a record of
/// that weight goes, after every one at least as heavy.
pub open spec fn heavier_prefix(s: Seq<Record>, bytes: u64) -> nat
    decreases s.len(),
{
    if s.len() == 0 || s[0].bytes < bytes { 0 } else { 1 + heavier_prefix(s.drop_first(), bytes) }
}

/// `s` ordered heaviest first, records of equal weight in the order they
/// came: a stable sort by descending size.
pub open spec fn heaviest_first(s: Seq<Record>) -> Seq<Record>
    decreases s.len(),
{
    if s.len() == 0 {
        seq![]
    } else {
        let t = heaviest_first(s.drop_last());
        t.insert(heavier_prefix(t, s.last().bytes) as int, s.last())
    }
}

proof fn lemma_heavier_prefix(s: Seq<Record>, bytes: u64)
    ensures
        heavier_prefix(s, bytes) <= s.len(),
    decreases s.len(),
{
    if s.len() > 0 && s[0].bytes >= bytes {
        lemma_heavier_prefix(s.drop_first(), bytes);
    }
}

/// Keep the records whose name matches, ordered by size, heaviest first. A
/// pattern that does not compile keeps nothing rather than everything.
pub fn heaviest(records: Vec<Record>, pattern: &str) -> (r: Vec<Record>)
    ensures
        r@ == if regex_compiles(pattern@) { heaviest_first(matching(records@, pattern@)) } else { Seq::empty() },
{
    let ghost all = records@;
    let mut kept: Vec<Record> = Vec::new();
    let mut rest = records;
    let mut i: usize = 0;
    let n = rest.len();
    // Taken from the back, so reverse first to keep the given order.
    let mut queue: Vec<Record> = Vec::new();
    while rest.len() > 0
        invariant
            rest@.len() + queue@.len() == n,
            n == all.len(),
            forall|j: int| 0 <= j < rest@.len() ==> #[trigger] rest@[j] == all[j],
            forall|j: int| 0 <= j < queue@.len() ==> #[trigger] queue@[j] == all[n - 1 - j],
        decreases rest@.len(),
    {
        let x = rest.pop().unwrap();
        queue.push(x);
    }
    while queue.len() > 0
        invariant
            i + queue@.len() == n,
            n == all.len(),
            forall|j: int| 0 <= j < queue@.len() ==> #[trigger] queue@[j] == all[n - 1 - j],
            regex_compiles(pattern@) || i == 0,
            kept@ == heaviest_first(matching(all.take(i as int), pattern@)),
        decreases queue@.len(),
    {
        let x = queue.pop().unwrap();
        assert(x == all[i as int]);
        assert(all.take(i + 1) =~= all.take(i as int).push(x));
        assert(matching(all.take(i + 1), pattern@) =~= if regex_matches(pattern@, x.name@) {
            matching(all.take(i as int), pattern@).push(x)
        } else {
            matching(all.take(i as int), pattern@)
        }) by {
            all.take(i as int).lemma_filter_push(x, |r: Record| regex_matches(pattern@, r.name@));
        }
        match pattern_match(pattern, x.name.as_str()) {
            None => {
                return Vec::new();
            },
            Some(false) => {},
            Some(true) => {
                let ghost before = kept@;
                let mut p: usize = 0;
                assert(before.skip(0) =~= before);
                while p < kept.len() && kept[p].bytes >= x.bytes
                    invariant
                        p <= kept@.len(),
                        kept@ == before,
                        heavier_prefix(before, x.bytes) == p + heavier_prefix(before.skip(p as int), x.bytes),
                    decreases kept@.len() - p,
                {
                    assert(before.skip(p as int)[0] == before[p as int]);
                    assert(before.skip(p as int).drop_first() =~= before.skip(p + 1));
                    p = p + 1;
                }
                proof {
                    if p < before.len() {
                        assert(before.skip(p as int)[0] == before[p as int]);
                    }
                    let m = matching(all.take(i as int), pattern@);
                    assert(matching(all.take(i + 1), pattern@) == m.push(x));
                    assert(m.push(x).drop_last() =~= m);
                }
                kept.insert(p, x);
            },
        }
        i = i + 1;
    }
    assert(all.take(n as int) =~= all);
    proof {
        if !regex_compiles(pattern@) {
            assert(n == 0);
            assert(matching(all, pattern@) =~= Seq::<Record>::empty());
        }
    }
    kept
}

} // verus!
