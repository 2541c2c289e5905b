//! A target served over a network, where size is the whole story: a
//! run-length encoder, the sort of small pure routine that ships to a browser.

use vstd::prelude::*;

verus! {

/// How many of the leading bytes of `s` equal `b`, counting at most `cap`.
pub open spec fn run_len(s: Seq<u8>, b: u8, cap: nat) -> nat
    decreases s.len(),
{
    if s.len() == 0 || s[0] != b || cap == 0 {
        0
    } else {
        1 + run_len(s.drop_first(), b, (cap - 1) as nat)
    }
}

/// The encoding of `s`: for each run of one byte, at most 255 long, its length
/// and then the byte.
pub open spec fn encoding(s: Seq<u8>) -> Seq<u8>
    decreases s.len(),
{
    if s.len() == 0 {
        seq![]
    } else {
        let r = run_len(s, s[0], 255);
        if r == 0 {
            seq![]
        } else {
            proof {
                lemma_run_len_facts(s, s[0], 255);
            }
            seq![r as u8, s[0]] + encoding(s.skip(r as int))
        }
    }
}

/// The bytes the first `n` pairs of `p` stand for.
pub open spec fn expand_pairs(p: Seq<u8>, n: nat) -> Seq<u8>
    decreases n,
{
    if n == 0 {
        seq![]
    } else {
        let k: int = n - 1;
        expand_pairs(p, k as nat) + Seq::new(p[2 * k] as nat, |i: int| p[2 * k + 1])
    }
}

/// The decoding of `p`: each whole pair, a count and a byte, stands for that
/// many copies of the byte. A trailing odd byte stands for nothing.
pub open spec fn decoding(p: Seq<u8>) -> Seq<u8> {
    expand_pairs(p, p.len() / 2)
}

proof fn lemma_run_len(s: Seq<u8>, b: u8, cap: nat, m: nat)
    requires
        m <= cap,
        m <= s.len(),
        forall|k: int| 0 <= k < m ==> s[k] == b,
        m == s.len() || s[m as int] != b || m == cap,
    ensures
        run_len(s, b, cap) == m,
    decreases m,
{
    if m > 0 {
        assert(s[0] == b);
        assert forall|k: int| 0 <= k < m - 1 implies s.drop_first()[k] == b by {
            assert(s[k + 1] == b);
        }
        if m < s.len() {
            assert(s.drop_first()[m - 1] == s[m as int]);
        }
        lemma_run_len(s.drop_first(), b, (cap - 1) as nat, (m - 1) as nat);
    }
}

pub proof fn lemma_run_len_facts(s: Seq<u8>, b: u8, cap: nat)
    ensures
        run_len(s, b, cap) <= cap,
        run_len(s, b, cap) <= s.len(),
        forall|k: int| 0 <= k < run_len(s, b, cap) ==> s[k] == b,
    decreases s.len(),
{
    if s.len() > 0 && s[0] == b && cap > 0 {
        lemma_run_len_facts(s.drop_first(), b, (cap - 1) as nat);
        assert forall|k: int| 0 <= k < run_len(s, b, cap) implies s[k] == b by {
            if k > 0 {
                assert(s[k] == s.drop_first()[k - 1]);
            }
        }
    }
}

/// Appending whole pairs after `p` adds their bytes after those of `p`.
proof fn lemma_expand_prefix(p: Seq<u8>, q: Seq<u8>, n: nat)
    requires
        2 * n <= p.len(),
    ensures
        expand_pairs(p + q, n) == expand_pairs(p, n),
    decreases n,
{
    if n > 0 {
        lemma_expand_prefix(p, q, (n - 1) as nat);
        let k: int = n - 1;
        assert((p + q)[2 * k] == p[2 * k]);
        assert((p + q)[2 * k + 1] == p[2 * k + 1]);
        assert(Seq::new((p + q)[2 * k] as nat, |i: int| (p + q)[2 * k + 1])
            =~= Seq::new(p[2 * k] as nat, |i: int| p[2 * k + 1]));
    }
}

/// The pairs after the first two bytes decode after the first pair.
proof fn lemma_expand_shift(head: Seq<u8>, rest: Seq<u8>, n: nat)
    requires
        head.len() == 2,
        2 * n <= rest.len(),
    ensures
        expand_pairs(head + rest, n + 1) =~= Seq::new(head[0] as nat, |i: int| head[1]) + expand_pairs(rest, n),
    decreases n,
{
    let p = head + rest;
    if n == 0 {
        assert(expand_pairs(p, 0) =~= Seq::<u8>::empty());
        assert(expand_pairs(rest, 0) =~= Seq::<u8>::empty());
    } else {
        lemma_expand_shift(head, rest, (n - 1) as nat);
        let k = n as int;
        assert(p[2 * k] == rest[2 * k - 2]);
        assert(p[2 * k + 1] == rest[2 * k - 1]);
        assert(Seq::new(p[2 * k] as nat, |i: int| p[2 * k + 1])
            =~= Seq::new(rest[2 * (n - 1)] as nat, |i: int| rest[2 * (n - 1) + 1]));
    }
}

proof fn lemma_encoding_even(s: Seq<u8>)
    ensures
        encoding(s).len() % 2 == 0,
    decreases s.len(),
{
    if s.len() > 0 {
        let r = run_len(s, s[0], 255);
        lemma_run_len_facts(s, s[0], 255);
        if r > 0 {
            lemma_encoding_even(s.skip(r as int));
        }
    }
}

/// Decoding an encoding gives back what was encoded.
pub proof fn lemma_round_trip(s: Seq<u8>)
    ensures
        decoding(encoding(s)) == s,
    decreases s.len(),
{
    if s.len() == 0 {
        assert(decoding(encoding(s)) =~= s);
    } else {
        let b = s[0];
        let r = run_len(s, b, 255);
        lemma_run_len_facts(s, b, 255);
        assert(s[0] == b);
        assert(r >= 1) by {
            assert(s.len() > 0 && s[0] == b);
        }
        let rest = s.skip(r as int);
        lemma_round_trip(rest);
        lemma_encoding_even(rest);
        let head = seq![r as u8, b];
        let e = encoding(rest);
        assert(encoding(s) == head + e);
        let n = e.len() / 2;
        assert((head + e).len() / 2 == n + 1);
        lemma_expand_shift(head, e, n);
        assert(Seq::new(head[0] as nat, |i: int| head[1]) =~= s.take(r as int));
        assert(s =~= s.take(r as int) + rest);
    }
}

/// A run-length encoder: each run of one byte becomes its length, at most
/// 255, and the byte.
pub fn encode(bytes: &[u8]) -> (out: Vec<u8>)
    ensures
        out@ == encoding(bytes@),
{
    let mut out: Vec<u8> = Vec::new();
    let mut index: usize = 0;
    assert(bytes@.skip(0) =~= bytes@);
    while index < bytes.len()
        invariant
            index <= bytes@.len(),
            out@ + encoding(bytes@.skip(index as int)) == encoding(bytes@),
        decreases bytes@.len() - index,
    {
        let byte = bytes[index];
        let mut run: usize = 1;
        while run < 255 && run < bytes.len() - index && bytes[index + run] == byte
            invariant
                index < bytes@.len(),
                1 <= run <= 255,
                index + run <= bytes@.len(),
                byte == bytes@[index as int],
                forall|k: int| index <= k < index + run ==> bytes@[k] == byte,
            decreases bytes@.len() - index - run,
        {
            run = run + 1;
        }
        proof {
            let s = bytes@.skip(index as int);
            assert forall|k: int| 0 <= k < run implies s[k] == byte by {
                assert(s[k] == bytes@[index + k]);
            }
            if index + run < bytes@.len() {
                assert(s[run as int] == bytes@[index + run]);
            }
            lemma_run_len(s, byte, 255, run as nat);
            assert(s.skip(run as int) =~= bytes@.skip(index + run));
            assert(encoding(s) == seq![run as u8, byte] + encoding(s.skip(run as int)));
        }
        let ghost before = out@;
        out.push(run as u8);
        out.push(byte);
        assert(out@ =~= before + seq![run as u8, byte]);
        index = index + run;
    }
    assert(bytes@.skip(index as int) =~= Seq::<u8>::empty());
    assert(out@ + encoding(bytes@.skip(index as int)) =~= out@);
    out
}

/// The bytes a run-length encoding stands for. A trailing odd byte is
/// ignored.
pub fn decode(pairs: &[u8]) -> (out: Vec<u8>)
    ensures
        out@ == decoding(pairs@),
{
    let mut out: Vec<u8> = Vec::new();
    let mut k: usize = 0;
    let len = pairs.len();
    let n = len / 2;
    while k < n
        invariant
            k <= n,
            len == pairs@.len(),
            n == pairs@.len() / 2,
            2 * n <= len,
            out@ == expand_pairs(pairs@, k as nat),
        decreases n - k,
    {
        let at = k + k;
        let count = pairs[at];
        let byte = pairs[at + 1];
        let ghost before = out@;
        let mut j: u8 = 0;
        while j < count
            invariant
                j <= count,
                out@ == before + Seq::new(j as nat, |i: int| byte),
            decreases count - j,
        {
            out.push(byte);
            assert(out@ =~= before + Seq::new((j + 1) as nat, |i: int| byte));
            j = j + 1;
        }
        assert(Seq::new(count as nat, |i: int| byte) =~= Seq::new(pairs@[2 * k as int] as nat, |i: int| pairs@[2 * k + 1]));
        k = k + 1;
    }
    out
}

} // verus!
