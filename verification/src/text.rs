//! Building and reading text one character at a time.

use vstd::prelude::*;
use vstd::string::*;

verus! {

/// The decimal digit for `d`, which is below ten.
pub open spec fn digit_char(d: nat) -> char {
    if d == 0 { '0' }
    else if d == 1 { '1' }
    else if d == 2 { '2' }
    else if d == 3 { '3' }
    else if d == 4 { '4' }
    else if d == 5 { '5' }
    else if d == 6 { '6' }
    else if d == 7 { '7' }
    else if d == 8 { '8' }
    else { '9' }
}

/// `n` written in decimal, without sign or leading zeros.
pub open spec fn decimal(n: nat) -> Seq<char>
    decreases n,
{
    if n < 10 {
        seq![digit_char(n)]
    } else {
        decimal(n / 10).push(digit_char(n % 10))
    }
}

/// Appends one character. `String::push` as std documents it.
#[verifier::external_body]
pub(crate) fn push_char(s: &mut String, c: char)
    ensures
        final(s)@ == old(s)@.push(c),
{
    s.push(c);
}

pub(crate) fn digit(d: u64) -> (c: char)
    requires
        d < 10,
    ensures
        c == digit_char(d as nat),
{
    if d == 0 { '0' }
    else if d == 1 { '1' }
    else if d == 2 { '2' }
    else if d == 3 { '3' }
    else if d == 4 { '4' }
    else if d == 5 { '5' }
    else if d == 6 { '6' }
    else if d == 7 { '7' }
    else if d == 8 { '8' }
    else { '9' }
}

/// Appends `n` in decimal.
pub fn push_decimal(s: &mut String, n: u64)
    ensures
        final(s)@ == old(s)@ + decimal(n as nat),
    decreases n,
{
    if n >= 10 {
        push_decimal(s, n / 10);
    }
    push_char(s, digit(n % 10));
    proof {
        assert(old(s)@ + decimal(n as nat) =~= (old(s)@ + decimal((n / 10) as nat)).push(digit_char((n % 10) as nat)) || n < 10);
    }
}

/// `n` in decimal.
pub fn decimal_string(n: u64) -> (s: String)
    ensures
        s@ == decimal(n as nat),
{
    let mut s = String::new();
    push_decimal(&mut s, n);
    assert(s@ =~= decimal(n as nat));
    s
}

} // verus!

verus! {

/// The characters of `s`, in order. `str::chars` collected, as std documents it.
#[verifier::external_body]
pub(crate) fn chars_of(s: &str) -> (r: Vec<char>)
    ensures
        r@ == s@,
{
    s.chars().collect()
}

/// Appends `t`.
pub fn push_text(s: &mut String, t: &str)
    ensures
        final(s)@ == old(s)@ + t@,
{
    s.append(t);
}

/// A string holding exactly `t`.
pub fn text_of(t: &str) -> (s: String)
    ensures
        s@ == t@,
{
    String::from_str(t)
}

/// Byte-wise ordering of UTF-8 text, which is the ordering of code points.
pub open spec fn text_lt(a: Seq<char>, b: Seq<char>) -> bool
    decreases a.len(),
{
    if b.len() == 0 {
        false
    } else if a.len() == 0 {
        true
    } else if a[0] != b[0] {
        a[0] < b[0]
    } else {
        text_lt(a.drop_first(), b.drop_first())
    }
}

pub proof fn lemma_text_lt_irreflexive(a: Seq<char>)
    ensures
        !text_lt(a, a),
    decreases a.len(),
{
    if a.len() > 0 {
        lemma_text_lt_irreflexive(a.drop_first());
    }
}

pub proof fn lemma_text_lt_transitive(a: Seq<char>, b: Seq<char>, c: Seq<char>)
    requires
        text_lt(a, b),
        text_lt(b, c),
    ensures
        text_lt(a, c),
    decreases a.len(),
{
    if a.len() > 0 && b.len() > 0 && c.len() > 0 && a[0] == b[0] && b[0] == c[0] {
        lemma_text_lt_transitive(a.drop_first(), b.drop_first(), c.drop_first());
    }
}

pub proof fn lemma_text_lt_total(a: Seq<char>, b: Seq<char>)
    requires
        a != b,
    ensures
        text_lt(a, b) || text_lt(b, a),
    decreases a.len(),
{
    if a.len() > 0 && b.len() > 0 && a[0] == b[0] {
        if a.drop_first() == b.drop_first() {
            assert(a =~= seq![a[0]] + a.drop_first());
            assert(b =~= seq![b[0]] + b.drop_first());
        }
        lemma_text_lt_total(a.drop_first(), b.drop_first());
    } else if a.len() == 0 && b.len() == 0 {
        assert(a =~= b);
    }
}

pub proof fn lemma_text_lt_asymmetric(a: Seq<char>, b: Seq<char>)
    requires
        text_lt(a, b),
    ensures
        !text_lt(b, a),
{
    if text_lt(b, a) {
        lemma_text_lt_transitive(a, b, a);
        lemma_text_lt_irreflexive(a);
    }
}

/// Whether `a` orders before `b`.
pub fn text_less(a: &str, b: &str) -> (r: bool)
    ensures
        r == text_lt(a@, b@),
{
    let x = chars_of(a);
    let y = chars_of(b);
    let mut i: usize = 0;
    assert(a@.skip(0) =~= a@);
    assert(b@.skip(0) =~= b@);
    while i < x.len() && i < y.len() && x[i] == y[i]
        invariant
            i <= x@.len(),
            i <= y@.len(),
            x@ == a@,
            y@ == b@,
            text_lt(a@, b@) == text_lt(a@.skip(i as int), b@.skip(i as int)),
        decreases x@.len() - i,
    {
        assert(a@.skip(i as int).drop_first() =~= a@.skip(i + 1));
        assert(b@.skip(i as int).drop_first() =~= b@.skip(i + 1));
        i = i + 1;
    }
    if i < x.len() && i < y.len() {
        assert(a@.skip(i as int)[0] == x@[i as int]);
        assert(b@.skip(i as int)[0] == y@[i as int]);
        x[i] < y[i]
    } else {
        i < y.len()
    }
}

/// Whether `a` and `b` hold the same text.
pub fn text_eq(a: &str, b: &str) -> (r: bool)
    ensures
        r == (a@ == b@),
{
    let x = chars_of(a);
    let y = chars_of(b);
    if x.len() != y.len() {
        return false;
    }
    let mut i: usize = 0;
    while i < x.len()
        invariant
            x@ == a@,
            y@ == b@,
            x@.len() == y@.len(),
            i <= x@.len(),
            forall|j: int| 0 <= j < i ==> x@[j] == y@[j],
        decreases x@.len() - i,
    {
        if x[i] != y[i] {
            return false;
        }
        i = i + 1;
    }
    assert(a@ =~= b@);
    true
}

/// `parts` joined with `sep` between consecutive parts.
pub open spec fn join(parts: Seq<Seq<char>>, sep: Seq<char>) -> Seq<char>
    decreases parts.len(),
{
    if parts.len() == 0 {
        seq![]
    } else if parts.len() == 1 {
        parts[0]
    } else {
        join(parts.drop_last(), sep) + sep + parts.last()
    }
}

/// Joins the views of `parts` with `sep`.
pub fn join_strings(parts: &Vec<String>, sep: &str) -> (r: String)
    ensures
        r@ == join(parts@.map_values(|p: String| p@), sep@),
{
    let ghost views = parts@.map_values(|p: String| p@);
    let mut r = String::new();
    let mut i: usize = 0;
    while i < parts.len()
        invariant
            i <= parts@.len(),
            views == parts@.map_values(|p: String| p@),
            r@ == join(views.take(i as int), sep@),
        decreases parts@.len() - i,
    {
        assert(views.take(i + 1).drop_last() =~= views.take(i as int));
        if i > 0 {
            push_text(&mut r, sep);
        } else {
            assert(r@ =~= seq![]);
        }
        push_text(&mut r, parts[i].as_str());
        proof {
            if i == 0 {
                assert(r@ =~= views.take(1)[0]);
            }
        }
        i = i + 1;
    }
    assert(views.take(parts@.len() as int) =~= views);
    r
}

} // verus!

verus! {

/// `part` joined onto the path `base`, as a path join does it: an absolute
/// `part` replaces `base`, and exactly one separator stands between them.
pub open spec fn path_join(base: Seq<char>, part: Seq<char>) -> Seq<char> {
    if part.len() > 0 && part[0] == '/' {
        part
    } else if base.len() == 0 {
        part
    } else if base.last() == '/' {
        base + part
    } else {
        base + "/"@ + part
    }
}

/// Joins `part` onto the path `base`.
pub fn join_path(base: &str, part: &str) -> (r: String)
    ensures
        r@ == path_join(base@, part@),
{
    let b = chars_of(base);
    let p = chars_of(part);
    if p.len() > 0 && p[0] == '/' {
        return text_of(part);
    }
    if b.len() == 0 {
        return text_of(part);
    }
    let mut r = text_of(base);
    if b[b.len() - 1] != '/' {
        push_char(&mut r, '/');
        proof { reveal_strlit("/"); }
        assert(r@ =~= base@ + "/"@);
    }
    push_text(&mut r, part);
    r
}

} // verus!

verus! {

pub open spec fn is_ascii_digit(c: char) -> bool {
    '0' <= c && c <= '9'
}

pub open spec fn all_digits(s: Seq<char>) -> bool {
    forall|i: int| 0 <= i < s.len() ==> is_ascii_digit(#[trigger] s[i])
}

/// The number the decimal digits `s` spell.
pub open spec fn digits_value(s: Seq<char>) -> nat
    decreases s.len(),
{
    if s.len() == 0 {
        0
    } else {
        digits_value(s.drop_last()) * 10 + ((s.last() as int) - ('0' as int)) as nat
    }
}

/// What parsing `s` as a `u64` gives: an optional `+`, then at least one
/// ASCII digit, with a value that fits.
pub open spec fn parse_u64_spec(s: Seq<char>) -> Option<u64> {
    let body = if s.len() > 0 && s[0] == '+' { s.drop_first() } else { s };
    if body.len() > 0 && all_digits(body) && digits_value(body) <= u64::MAX {
        Some(digits_value(body) as u64)
    } else {
        None
    }
}

proof fn lemma_digits_value_grows(s: Seq<char>, k: int)
    requires
        0 <= k <= s.len(),
        all_digits(s),
    ensures
        digits_value(s.take(k)) <= digits_value(s),
    decreases s.len() - k,
{
    if k < s.len() {
        lemma_digits_value_grows(s, k + 1);
        assert(s.take(k + 1).drop_last() =~= s.take(k));
        assert(s.take(k + 1).last() == s[k]);
    } else {
        assert(s.take(k) =~= s);
    }
}

fn digit_value(c: char) -> (d: u64)
    requires
        is_ascii_digit(c),
    ensures
        d as int == (c as int) - ('0' as int),
        d <= 9,
{
    if c == '0' { 0 }
    else if c == '1' { 1 }
    else if c == '2' { 2 }
    else if c == '3' { 3 }
    else if c == '4' { 4 }
    else if c == '5' { 5 }
    else if c == '6' { 6 }
    else if c == '7' { 7 }
    else if c == '8' { 8 }
    else { 9 }
}

/// Parses a `u64` the way `str::parse` does.
pub fn parse_u64(s: &str) -> (r: Option<u64>)
    ensures
        r == parse_u64_spec(s@),
{
    let c = chars_of(s);
    let mut start: usize = 0;
    if c.len() > 0 && c[0] == '+' {
        start = 1;
    }
    let ghost body = if s@.len() > 0 && s@[0] == '+' { s@.drop_first() } else { s@ };
    assert(body =~= s@.skip(start as int));
    if start >= c.len() {
        return None;
    }
    let mut value: u64 = 0;
    let mut i: usize = start;
    while i < c.len()
        invariant
            c@ == s@,
            start <= i <= c@.len(),
            body =~= s@.skip(start as int),
            body == (if s@.len() > 0 && s@[0] == '+' { s@.drop_first() } else { s@ }),
            all_digits(body.take(i - start)),
            value as nat == digits_value(body.take(i - start)),
        decreases c@.len() - i,
    {
        let ch = c[i];
        if !('0' <= ch && ch <= '9') {
            proof {
                assert(body[i - start] == ch);
                assert(!is_ascii_digit(body[i - start]));
                assert(!all_digits(body));
            }
            return None;
        }
        let d = digit_value(ch);
        assert(body.take(i + 1 - start).drop_last() =~= body.take(i - start));
        assert(body.take(i + 1 - start).last() == ch);
        if value > (u64::MAX - d) / 10 {
            proof {
                assert(all_digits(body.take(i + 1 - start)));
                assert(digits_value(body.take(i + 1 - start)) > u64::MAX) by (nonlinear_arith)
                    requires
                        value > (u64::MAX - d) / 10,
                        digits_value(body.take(i + 1 - start)) == value * 10 + d,
                        d <= 9;
                if all_digits(body) {
                    lemma_digits_value_grows(body, i + 1 - start);
                    assert(digits_value(body) > u64::MAX);
                }
            }
            return None;
        }
        assert(value * 10 + d <= u64::MAX) by (nonlinear_arith)
            requires value <= (u64::MAX - d) / 10, d <= 9;
        value = value * 10 + d;
        i = i + 1;
    }
    assert(body.take(i - start) =~= body);
    Some(value)
}

} // verus!

verus! {

/// The text of `s` from character `start` on.
pub fn text_after(s: &str, start: usize) -> (r: String)
    requires
        start <= s@.len(),
    ensures
        r@ == s@.skip(start as int),
{
    let c = chars_of(s);
    let mut r = String::new();
    let mut i: usize = start;
    while i < c.len()
        invariant
            c@ == s@,
            start <= i <= c@.len(),
            r@ == s@.subrange(start as int, i as int),
        decreases c@.len() - i,
    {
        push_char(&mut r, c[i]);
        assert(r@ =~= s@.subrange(start as int, i + 1));
        i = i + 1;
    }
    assert(s@.subrange(start as int, c@.len() as int) =~= s@.skip(start as int));
    r
}

} // verus!

verus! {

/// Where the first `c` in `s` is, or the length of `s` where there is none.
pub open spec fn position_of(s: Seq<char>, c: char) -> nat
    decreases s.len(),
{
    if s.len() == 0 || s[0] == c { 0 } else { 1 + position_of(s.drop_first(), c) }
}

pub proof fn lemma_position_of(s: Seq<char>, c: char)
    ensures
        position_of(s, c) <= s.len(),
        position_of(s, c) < s.len() ==> s[position_of(s, c) as int] == c,
        forall|k: int| 0 <= k < position_of(s, c) ==> s[k] != c,
    decreases s.len(),
{
    if s.len() > 0 && s[0] != c {
        lemma_position_of(s.drop_first(), c);
        assert forall|k: int| 0 <= k < position_of(s, c) implies s[k] != c by {
            if k > 0 {
                assert(s[k] == s.drop_first()[k - 1]);
            }
        }
    }
}

/// `s` without one trailing carriage return.
pub open spec fn strip_cr(s: Seq<char>) -> Seq<char> {
    if s.len() > 0 && s.last() == '\r' { s.drop_last() } else { s }
}

/// The lines of `s`, as `str::lines` gives them: split after each newline,
/// each line without its newline and then without one carriage return before
/// it. A final line ending adds no empty line.
pub open spec fn lines(s: Seq<char>) -> Seq<Seq<char>>
    decreases s.len(),
{
    if s.len() == 0 {
        seq![]
    } else {
        let i = position_of(s, '\n');
        if i >= s.len() {
            seq![s]
        } else {
            proof { lemma_position_of(s, '\n'); }
            seq![strip_cr(s.take(i as int))] + lines(s.skip(i + 1int))
        }
    }
}

/// The text of `c[start..end]`.
pub fn text_of_chars(c: &Vec<char>, start: usize, end: usize) -> (s: String)
    requires
        start <= end <= c@.len(),
    ensures
        s@ == c@.subrange(start as int, end as int),
{
    let mut s = String::new();
    let mut i = start;
    while i < end
        invariant
            start <= i <= end <= c@.len(),
            s@ == c@.subrange(start as int, i as int),
        decreases end - i,
    {
        push_char(&mut s, c[i]);
        assert(s@ =~= c@.subrange(start as int, i + 1));
        i = i + 1;
    }
    s
}

/// The lines of `text`, as `str::lines` gives them.
pub fn lines_of(text: &str) -> (r: Vec<String>)
    ensures
        r@.map_values(|l: String| l@) == lines(text@),
{
    let c = chars_of(text);
    let mut out: Vec<String> = Vec::new();
    let mut pos: usize = 0;
    assert(text@.skip(0) =~= text@);
    while pos < c.len()
        invariant
            c@ == text@,
            pos <= c@.len(),
            out@.map_values(|l: String| l@) + lines(text@.skip(pos as int)) == lines(text@),
        decreases c@.len() - pos,
    {
        let ghost rest = text@.skip(pos as int);
        let ghost before = out@.map_values(|l: String| l@);
        let mut end = pos;
        while end < c.len() && c[end] != '\n'
            invariant
                c@ == text@,
                pos <= end <= c@.len(),
                rest == text@.skip(pos as int),
                position_of(rest, '\n') == (end - pos) + position_of(text@.skip(end as int), '\n'),
            decreases c@.len() - end,
        {
            assert(text@.skip(end as int).drop_first() =~= text@.skip(end + 1));
            end = end + 1;
        }
        proof {
            lemma_position_of(rest, '\n');
            if end < c@.len() {
                assert(text@.skip(end as int)[0] == '\n');
            } else {
                assert(text@.skip(end as int) =~= Seq::<char>::empty());
            }
        }
        if end == c.len() {
            let line = text_of_chars(&c, pos, end);
            assert(line@ =~= rest);
            out.push(line);
            assert(out@.map_values(|l: String| l@) =~= before.push(rest));
            assert(lines(rest) =~= seq![rest]);
            assert(text@.skip(end as int) =~= Seq::<char>::empty());
            assert(lines(text@.skip(end as int)) =~= Seq::<Seq<char>>::empty());
            pos = end;
        } else {
            let stop = if end > pos && c[end - 1] == '\r' { end - 1 } else { end };
            let line = text_of_chars(&c, pos, stop);
            assert(rest.take((end - pos) as int) =~= c@.subrange(pos as int, end as int));
            assert(line@ =~= strip_cr(rest.take((end - pos) as int)));
            out.push(line);
            assert(rest.skip(end - pos + 1) =~= text@.skip(end + 1));
            assert(out@.map_values(|l: String| l@) =~= before.push(line@));
            assert(lines(rest) =~= seq![line@] + lines(text@.skip(end + 1)));
            pos = end + 1;
        }
    }
    assert(text@.skip(pos as int) =~= Seq::<char>::empty());
    assert(out@.map_values(|l: String| l@) + lines(text@.skip(pos as int)) =~= out@.map_values(|l: String| l@));
    out
}

/// Whether `s` begins with `p`.
pub open spec fn starts_with(s: Seq<char>, p: Seq<char>) -> bool {
    p.len() <= s.len() && s.take(p.len() as int) == p
}

/// Whether `t` occurs in `s`.
pub open spec fn contains_text(s: Seq<char>, t: Seq<char>) -> bool {
    exists|i: int| 0 <= i && i + t.len() <= s.len() && #[trigger] s.subrange(i, i + t.len()) == t
}

/// Whether `s` begins with `p`.
pub fn text_starts_with(s: &str, p: &str) -> (r: bool)
    ensures
        r == starts_with(s@, p@),
{
    let x = chars_of(s);
    let y = chars_of(p);
    if y.len() > x.len() {
        return false;
    }
    let mut i: usize = 0;
    while i < y.len()
        invariant
            x@ == s@,
            y@ == p@,
            y@.len() <= x@.len(),
            i <= y@.len(),
            forall|j: int| 0 <= j < i ==> x@[j] == y@[j],
        decreases y@.len() - i,
    {
        if x[i] != y[i] {
            assert(s@.take(p@.len() as int)[i as int] != p@[i as int]);
            return false;
        }
        i = i + 1;
    }
    assert(s@.take(p@.len() as int) =~= p@);
    true
}

/// Whether `t` occurs in `s`.
pub fn text_contains(s: &str, t: &str) -> (r: bool)
    ensures
        r == contains_text(s@, t@),
{
    let x = chars_of(s);
    let y = chars_of(t);
    if y.len() > x.len() {
        return false;
    }
    let mut i: usize = 0;
    while i <= x.len() - y.len()
        invariant
            x@ == s@,
            y@ == t@,
            y@.len() <= x@.len(),
            i <= x@.len() - y@.len() + 1,
            forall|k: int| 0 <= k < i ==> #[trigger] s@.subrange(k, k + t@.len()) != t@,
        decreases x@.len() - y@.len() + 1 - i,
    {
        let mut j: usize = 0;
        while j < y.len() && x[i + j] == y[j]
            invariant
                x@ == s@,
                y@ == t@,
                i + y@.len() <= x@.len(),
                x@.len() == x.len(),
                j <= y@.len(),
                forall|q: int| 0 <= q < j ==> x@[i + q] == y@[q],
            decreases y@.len() - j,
        {
            j = j + 1;
        }
        if j == y.len() {
            assert(s@.subrange(i as int, i + t@.len()) =~= t@);
            return true;
        }
        assert(s@.subrange(i as int, i + t@.len())[j as int] != t@[j as int]);
        i = i + 1;
    }
    false
}

} // verus!

verus! {

/// Whether `c` is white space in Unicode's sense, as `char::is_whitespace`
/// defines it.
pub open spec fn is_space(c: char) -> bool {
    ||| c == ' '
    ||| ('\u{9}' <= c && c <= '\u{D}')
    ||| c == '\u{85}'
    ||| c == '\u{A0}'
    ||| c == '\u{1680}'
    ||| ('\u{2000}' <= c && c <= '\u{200A}')
    ||| c == '\u{2028}'
    ||| c == '\u{2029}'
    ||| c == '\u{202F}'
    ||| c == '\u{205F}'
    ||| c == '\u{3000}'
}

pub fn space(c: char) -> (r: bool)
    ensures
        r == is_space(c),
{
    c == ' ' || ('\u{9}' <= c && c <= '\u{D}') || c == '\u{85}' || c == '\u{A0}' || c == '\u{1680}'
        || ('\u{2000}' <= c && c <= '\u{200A}') || c == '\u{2028}' || c == '\u{2029}' || c == '\u{202F}'
        || c == '\u{205F}' || c == '\u{3000}'
}

/// `s` without its leading white space.
pub open spec fn trim_start(s: Seq<char>) -> Seq<char>
    decreases s.len(),
{
    if s.len() > 0 && is_space(s[0]) { trim_start(s.drop_first()) } else { s }
}

/// `s` without its trailing white space.
pub open spec fn trim_end(s: Seq<char>) -> Seq<char>
    decreases s.len(),
{
    if s.len() > 0 && is_space(s.last()) { trim_end(s.drop_last()) } else { s }
}

/// `s` without white space at either end.
pub open spec fn trim(s: Seq<char>) -> Seq<char> {
    trim_end(trim_start(s))
}

/// `s` without white space at its start, as `str::trim_start` gives it.
pub fn trim_start_text(s: &str) -> (r: String)
    ensures
        r@ == trim_start(s@),
{
    let c = chars_of(s);
    let mut a: usize = 0;
    assert(s@.skip(0) =~= s@);
    while a < c.len() && space(c[a])
        invariant
            c@ == s@,
            a <= c@.len(),
            trim_start(s@) == trim_start(s@.skip(a as int)),
        decreases c@.len() - a,
    {
        assert(s@.skip(a as int).drop_first() =~= s@.skip(a + 1));
        a = a + 1;
    }
    let r = text_of_chars(&c, a, c.len());
    assert(r@ =~= s@.skip(a as int));
    r
}

/// `s` without white space at either end, as `str::trim` gives it.
pub fn trim_text(s: &str) -> (r: String)
    ensures
        r@ == trim(s@),
{
    let c = chars_of(s);
    let start = trim_start_text(s);
    let d = chars_of(start.as_str());
    let mut b: usize = d.len();
    assert(d@.take(d@.len() as int) =~= d@);
    while b > 0 && space(d[b - 1])
        invariant
            d@ == trim_start(s@),
            b <= d@.len(),
            trim_end(d@) == trim_end(d@.take(b as int)),
        decreases b,
    {
        assert(d@.take(b as int).drop_last() =~= d@.take(b - 1));
        b = b - 1;
    }
    assert(d@.take(d@.len() as int) =~= d@);
    let r = text_of_chars(&d, 0, b);
    assert(r@ =~= d@.take(b as int));
    r
}

/// `c` with an ASCII capital lowered; every other character unchanged.
pub open spec fn lower_char(c: char) -> char {
    if 'A' <= c && c <= 'Z' {
        ((c as u8) + 32) as u8 as char
    } else {
        c
    }
}

/// `s` with its ASCII capitals lowered.
pub open spec fn ascii_lowercase(s: Seq<char>) -> Seq<char> {
    s.map_values(|c: char| lower_char(c))
}

/// `t` with its ASCII capitals lowered, as `str::to_ascii_lowercase` does.
pub fn lowercase_text(t: &str) -> (s: String)
    ensures
        s@ == ascii_lowercase(t@),
{
    let c = chars_of(t);
    let mut s = String::new();
    let mut i: usize = 0;
    while i < c.len()
        invariant
            i <= c@.len(),
            c@ == t@,
            s@ =~= ascii_lowercase(t@.take(i as int)),
        decreases c@.len() - i,
    {
        let x = c[i];
        let y = if 'A' <= x && x <= 'Z' { ((x as u8) + 32) as char } else { x };
        push_char(&mut s, y);
        assert(t@.take(i + 1) =~= t@.take(i as int).push(x));
        i = i + 1;
    }
    assert(t@.take(c@.len() as int) =~= t@);
    s
}

/// `c` with an ASCII small letter raised; every other character unchanged.
pub open spec fn upper_char(c: char) -> char {
    if 'a' <= c && c <= 'z' {
        ((c as u8) - 32) as u8 as char
    } else {
        c
    }
}

/// `s` with its ASCII small letters raised.
pub open spec fn ascii_uppercase(s: Seq<char>) -> Seq<char> {
    s.map_values(|c: char| upper_char(c))
}

/// `t` with its ASCII small letters raised, as `str::to_ascii_uppercase` does.
pub fn uppercase_text(t: &str) -> (s: String)
    ensures
        s@ == ascii_uppercase(t@),
{
    let c = chars_of(t);
    let mut s = String::new();
    let mut i: usize = 0;
    while i < c.len()
        invariant
            i <= c@.len(),
            c@ == t@,
            s@ =~= ascii_uppercase(t@.take(i as int)),
        decreases c@.len() - i,
    {
        let x = c[i];
        let y = if 'a' <= x && x <= 'z' { ((x as u8) - 32) as char } else { x };
        push_char(&mut s, y);
        assert(t@.take(i + 1) =~= t@.take(i as int).push(x));
        i = i + 1;
    }
    assert(t@.take(c@.len() as int) =~= t@);
    s
}

/// `n` spaces.
pub open spec fn spaces(n: nat) -> Seq<char> {
    Seq::new(n, |i: int| ' ')
}

/// `t` padded with spaces on the right to `width` characters, as `{:<width}`
/// formats it.
pub open spec fn padded_end(t: Seq<char>, width: nat) -> Seq<char> {
    if t.len() >= width { t } else { t + spaces((width - t.len()) as nat) }
}

/// `t` padded with spaces on the left to `width` characters, as `{:>width}`
/// formats it.
pub open spec fn padded_start(t: Seq<char>, width: nat) -> Seq<char> {
    if t.len() >= width { t } else { spaces((width - t.len()) as nat) + t }
}

/// Append `n` spaces.
fn push_spaces(s: &mut String, n: usize)
    ensures
        final(s)@ == old(s)@ + spaces(n as nat),
{
    let mut i: usize = 0;
    while i < n
        invariant
            i <= n,
            s@ == old(s)@ + spaces(i as nat),
        decreases n - i,
    {
        push_char(s, ' ');
        assert(s@ =~= old(s)@ + spaces((i + 1) as nat));
        i = i + 1;
    }
}

/// Append `t`, padded on the right to `width` characters.
pub fn push_padded_end(s: &mut String, t: &str, width: usize)
    ensures
        final(s)@ == old(s)@ + padded_end(t@, width as nat),
{
    let n = chars_of(t).len();
    push_text(s, t);
    if n < width {
        push_spaces(s, width - n);
    }
    assert(final(s)@ =~= old(s)@ + padded_end(t@, width as nat));
}

/// Append `t`, padded on the left to `width` characters.
pub fn push_padded_start(s: &mut String, t: &str, width: usize)
    ensures
        final(s)@ == old(s)@ + padded_start(t@, width as nat),
{
    let n = chars_of(t).len();
    if n < width {
        push_spaces(s, width - n);
    }
    push_text(s, t);
    assert(final(s)@ =~= old(s)@ + padded_start(t@, width as nat));
}

} // verus!
