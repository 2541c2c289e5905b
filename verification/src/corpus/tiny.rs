//! A binary that is bigger than it needs to be for the ordinary reasons:
//! formatting machinery, panic strings, unwinding tables and symbols nobody
//! reads. Its logic is a word count.

use crate::keyed::{entry, get_keyed, has_key, insert_keyed, keys_ordered, remove_keyed, Keyed};
use crate::text::{decimal, decimal_string, digit, digit_char, padded_end, padded_start, push_char, push_padded_end, push_padded_start, push_text, text_of};
use vstd::prelude::*;

verus! {

impl Keyed for (String, usize) {
    open spec fn key(&self) -> Seq<char> {
        self.0@
    }

    fn key_text(&self) -> (r: &str) {
        self.0.as_str()
    }
}

/// How many times `w` appears in `words`.
pub open spec fn occurrences(words: Seq<Seq<char>>, w: Seq<char>) -> nat
    decreases words.len(),
{
    if words.len() == 0 {
        0
    } else {
        occurrences(words.drop_last(), w) + if words.last() == w { 1nat } else { 0nat }
    }
}

proof fn lemma_occurrences_bound(words: Seq<Seq<char>>, w: Seq<char>)
    ensures
        occurrences(words, w) <= words.len(),
    decreases words.len(),
{
    if words.len() > 0 {
        lemma_occurrences_bound(words.drop_last(), w);
    }
}

/// `counts` counts `words`: keyed in order, each word that appears once,
/// with the number of times it appears.
pub open spec fn counts(m: Seq<(String, usize)>, words: Seq<Seq<char>>) -> bool {
    &&& keys_ordered(m)
    &&& forall|k: Seq<char>| #[trigger] has_key(m, k) <==> occurrences(words, k) > 0
    &&& forall|k: Seq<char>| has_key(m, k) ==> #[trigger] entry(m, k).1 == occurrences(words, k)
}

/// Every word with the number of times it appears, ordered by word.
pub fn tally(words: &[&str]) -> (r: Vec<(String, usize)>)
    ensures
        counts(r@, words@.map_values(|w: &str| w@)),
{
    let ghost all = words@.map_values(|w: &str| w@);
    let mut m: Vec<(String, usize)> = Vec::new();
    let mut i: usize = 0;
    while i < words.len()
        invariant
            i <= words@.len(),
            all == words@.map_values(|w: &str| w@),
            counts(m@, all.take(i as int)),
        decreases words@.len() - i,
    {
        let word = words[i];
        let ghost seen = all.take(i as int);
        assert(all.take(i + 1).drop_last() =~= seen);
        assert(all.take(i + 1).last() == word@);
        proof { lemma_occurrences_bound(seen, word@); }
        let count = match get_keyed(&m, word) {
            Some(entry) => entry.1,
            None => 0,
        };
        let _ = remove_keyed(&mut m, word);
        insert_keyed(&mut m, (text_of(word), count + 1));
        i = i + 1;
    }
    assert(all.take(words@.len() as int) =~= all);
    m
}

/// The share of the sample's six words that `count` is, in hundredths of a
/// per cent, rounded to the nearest: `count * 100 / 6` to two decimal places.
/// A third never ends in a five, so there is no tie to break.
pub open spec fn hundredths(count: nat) -> nat {
    (count * 10000 + 3) / 6
}

/// `h` hundredths as a number with two decimal places.
pub open spec fn two_places(h: nat) -> Seq<char> {
    decimal(h / 100) + "."@ + seq![digit_char((h / 10) % 10), digit_char(h % 10)]
}

/// One line of the report: the word, its count, and its share.
pub open spec fn report_line(word: Seq<char>, count: nat) -> Seq<char> {
    padded_end(word, 12) + " "@ + padded_start(decimal(count), 4) + " "@ + padded_start(two_places(hundredths(count)), 8)
        + "%\n"@
}

/// Every line of the report, in the order of `counts`.
pub open spec fn report(counts: Seq<(String, usize)>) -> Seq<char>
    decreases counts.len(),
{
    if counts.len() == 0 {
        seq![]
    } else {
        report(counts.drop_last()) + report_line(counts.last().0@, counts.last().1 as nat)
    }
}

/// The largest count whose share is still exact in double precision, which
/// is what the share is reported to.
pub const EXACT_COUNT: u64 = 0x20_0000_0000_0000;

/// `count` as a share of six, to two decimal places.
fn share(count: usize) -> (s: String)
    requires
        count <= EXACT_COUNT,
    ensures
        s@ == two_places(hundredths(count as nat)),
{
    let c = count as u128;
    assert(c * 10000 <= 0x20_0000_0000_0000u128 * 10000) by (nonlinear_arith)
        requires
            c <= 0x20_0000_0000_0000u128,
    ;
    let h: u128 = (c * 10000 + 3) / 6;
    let ghost n = hundredths(count as nat);
    assert(h == n);
    let whole = (h / 100) as u64;
    let tens = ((h / 10) % 10) as u64;
    let ones = (h % 10) as u64;
    let mut s = decimal_string(whole);
    push_char(&mut s, '.');
    push_char(&mut s, digit(tens));
    push_char(&mut s, digit(ones));
    proof { reveal_strlit("."); }
    assert(s@ =~= two_places(n));
    s
}

/// The report the binary prints: each word, its count, and its share of the
/// six words it counts, one line each, in word order.
pub fn render(counts: &Vec<(String, usize)>) -> (out: String)
    requires
        forall|i: int| 0 <= i < counts@.len() ==> (#[trigger] counts@[i]).1 <= EXACT_COUNT,
    ensures
        out@ == report(counts@),
{
    let mut out = String::new();
    let mut i: usize = 0;
    while i < counts.len()
        invariant
            i <= counts@.len(),
            forall|k: int| 0 <= k < counts@.len() ==> (#[trigger] counts@[k]).1 <= EXACT_COUNT,
            out@ == report(counts@.take(i as int)),
        decreases counts@.len() - i,
    {
        assert(counts@.take(i + 1).drop_last() =~= counts@.take(i as int));
        let ghost before = out@;
        let (word, count) = (&counts[i].0, counts[i].1);
        push_padded_end(&mut out, word.as_str(), 12);
        push_char(&mut out, ' ');
        let n = decimal_string(count as u64);
        push_padded_start(&mut out, n.as_str(), 4);
        push_char(&mut out, ' ');
        let p = share(count);
        push_padded_start(&mut out, p.as_str(), 8);
        push_text(&mut out, "%\n");
        proof { reveal_strlit(" "); reveal_strlit("%\n"); }
        assert(out@ =~= before + report_line(word@, count as nat));
        i = i + 1;
    }
    assert(counts@.take(counts@.len() as int) =~= counts@);
    out
}

} // verus!
