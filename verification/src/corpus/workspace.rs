//! A workspace with real shape: a leaf parser of `key = value` lines, and the
//! resolution that sits on top of it.

use crate::keyed::{entry, has_key, insert_keyed, keys_ordered, Keyed};
use crate::text::{chars_of, is_space, join, join_strings, push_char, push_text, space, text_of, trim, trim_end, trim_start};
use vstd::prelude::*;

verus! {

/// Where the first `c` in `s` is, or the length of `s` where there is none.
pub open spec fn first_of(s: Seq<char>, c: char) -> nat
    decreases s.len(),
{
    if s.len() == 0 || s[0] == c { 0 } else { 1 + first_of(s.drop_first(), c) }
}

/// The pieces of `s` between newlines, in order.
pub open spec fn pieces(s: Seq<char>) -> Seq<Seq<char>>
    decreases s.len(),
{
    let i = first_of(s, '\n');
    if i >= s.len() {
        seq![s]
    } else {
        proof { lemma_first_of(s, '\n'); }
        seq![s.take(i as int)] + pieces(s.skip(i + 1int))
    }
}

pub proof fn lemma_first_of(s: Seq<char>, c: char)
    ensures
        first_of(s, c) <= s.len(),
        first_of(s, c) < s.len() ==> s[first_of(s, c) as int] == c,
        forall|k: int| 0 <= k < first_of(s, c) ==> s[k] != c,
    decreases s.len(),
{
    if s.len() > 0 && s[0] != c {
        lemma_first_of(s.drop_first(), c);
        assert forall|k: int| 0 <= k < first_of(s, c) implies s[k] != c by {
            if k > 0 {
                assert(s[k] == s.drop_first()[k - 1]);
            }
        }
    }
}

/// One key/value pair from a configuration line.
#[derive(Debug, PartialEq, Eq)]
pub struct Setting {
    pub key: String,
    pub value: String,
}

impl Clone for Setting {
    fn clone(&self) -> (r: Self)
        ensures
            r == *self,
    {
        Setting { key: self.key.clone(), value: self.value.clone() }
    }
}

impl Keyed for Setting {
    open spec fn key(&self) -> Seq<char> {
        self.key@
    }

    fn key_text(&self) -> (r: &str) {
        self.key.as_str()
    }
}

/// The setting one line holds, as `(key, value)`: none for a blank line, a
/// `#` comment, or a line without `=`. Key and value are trimmed.
pub open spec fn setting_in(line: Seq<char>) -> Option<(Seq<char>, Seq<char>)> {
    let t = trim(line);
    let e = first_of(t, '=');
    if t.len() == 0 || t[0] == '#' || e >= t.len() {
        None
    } else {
        Some((trim(t.take(e as int)), trim(t.skip(e + 1int))))
    }
}

/// The settings the lines hold, in order.
pub open spec fn settings_in(lines: Seq<Seq<char>>) -> Seq<(Seq<char>, Seq<char>)>
    decreases lines.len(),
{
    if lines.len() == 0 {
        seq![]
    } else {
        match setting_in(lines[0]) {
            Some(kv) => seq![kv] + settings_in(lines.drop_first()),
            None => settings_in(lines.drop_first()),
        }
    }
}

/// What `parse` makes of `text`.
pub open spec fn parsed(text: Seq<char>) -> Seq<(Seq<char>, Seq<char>)> {
    settings_in(pieces(text))
}

pub open spec fn setting_view(s: Setting) -> (Seq<char>, Seq<char>) {
    (s.key@, s.value@)
}

/// The bounds of `c[start..end]` with white space trimmed from both ends.
fn trimmed(c: &Vec<char>, start: usize, end: usize) -> (r: (usize, usize))
    requires
        start <= end <= c@.len(),
    ensures
        start <= r.0 <= r.1 <= end,
        c@.subrange(r.0 as int, r.1 as int) == trim(c@.subrange(start as int, end as int)),
{
    let mut a = start;
    while a < end && space(c[a])
        invariant
            start <= a <= end <= c@.len(),
            trim_start(c@.subrange(start as int, end as int)) == trim_start(c@.subrange(a as int, end as int)),
        decreases end - a,
    {
        assert(c@.subrange(a as int, end as int).drop_first() =~= c@.subrange(a + 1, end as int));
        a = a + 1;
    }
    let mut b = end;
    while b > a && space(c[b - 1])
        invariant
            start <= a <= b <= end <= c@.len(),
            trim_start(c@.subrange(start as int, end as int)) == c@.subrange(a as int, end as int),
            trim_end(c@.subrange(a as int, end as int)) == trim_end(c@.subrange(a as int, b as int)),
        decreases b - a,
    {
        assert(c@.subrange(a as int, b as int).drop_last() =~= c@.subrange(a as int, b - 1));
        b = b - 1;
    }
    (a, b)
}

/// Where the first `ch` in `c[start..end]` is, or `end`.
fn find_in(c: &Vec<char>, start: usize, end: usize, ch: char) -> (r: usize)
    requires
        start <= end <= c@.len(),
    ensures
        r == start + first_of(c@.subrange(start as int, end as int), ch),
        start <= r <= end,
{
    let mut i = start;
    while i < end && c[i] != ch
        invariant
            start <= i <= end <= c@.len(),
            first_of(c@.subrange(start as int, end as int), ch) == (i - start) + first_of(c@.subrange(i as int, end as int), ch),
        decreases end - i,
    {
        assert(c@.subrange(i as int, end as int).drop_first() =~= c@.subrange(i + 1, end as int));
        i = i + 1;
    }
    proof { lemma_first_of(c@.subrange(start as int, end as int), ch); }
    i
}

/// The text of `c[start..end]`.
fn text_between(c: &Vec<char>, start: usize, end: usize) -> (s: String)
    requires
        start <= end <= c@.len(),
    ensures
        s@ == c@.subrange(start as int, end as int),
{
    let mut s = String::new();
    let mut i = start;
    while i < end
        invariant
            start <= i <= end <= c@.len(),
            s@ == c@.subrange(start as int, i as int),
        decreases end - i,
    {
        push_char(&mut s, c[i]);
        assert(s@ =~= c@.subrange(start as int, i + 1));
        i = i + 1;
    }
    s
}

/// The setting on the line `c[start..end]`, if it holds one.
fn line_setting(c: &Vec<char>, start: usize, end: usize) -> (r: Option<Setting>)
    requires
        start <= end <= c@.len(),
    ensures
        match r {
            Some(s) => setting_in(c@.subrange(start as int, end as int)) == Some(setting_view(s)),
            None => setting_in(c@.subrange(start as int, end as int)) is None,
        },
{
    let (a, b) = trimmed(c, start, end);
    let ghost t = c@.subrange(a as int, b as int);
    if a == b || c[a] == '#' {
        return None;
    }
    let e = find_in(c, a, b, '=');
    if e == b {
        return None;
    }
    proof {
        lemma_first_of(t, '=');
        assert(t.take((e - a) as int) =~= c@.subrange(a as int, e as int));
        assert(t.skip(e - a + 1) =~= c@.subrange(e + 1, b as int));
    }
    let (ka, kb) = trimmed(c, a, e);
    let (va, vb) = trimmed(c, e + 1, b);
    Some(Setting { key: text_between(c, ka, kb), value: text_between(c, va, vb) })
}

/// Parse `key = value` lines, ignoring blanks and `#` comments.
///
/// Deliberately small: the corpus needs a workspace with real shape, not a
/// second product.
pub fn parse(text: &str) -> (r: Vec<Setting>)
    ensures
        r@.map_values(|s: Setting| setting_view(s)) == parsed(text@),
{
    let c = chars_of(text);
    let mut out: Vec<Setting> = Vec::new();
    let mut pos: usize = 0;
    let mut done = false;
    assert(text@.skip(0) =~= text@);
    while !done
        invariant
            c@ == text@,
            pos <= c@.len(),
            !done ==> out@.map_values(|s: Setting| setting_view(s)) + settings_in(pieces(text@.skip(pos as int)))
                == parsed(text@),
            done ==> out@.map_values(|s: Setting| setting_view(s)) == parsed(text@),
        decreases c@.len() - pos + (if done { 0int } else { 1int }),
    {
        let ghost before = out@.map_values(|s: Setting| setting_view(s));
        let ghost rest = text@.skip(pos as int);
        let end = find_in(&c, pos, c.len(), '\n');
        assert(c@.subrange(pos as int, c@.len() as int) =~= rest);
        let line = line_setting(&c, pos, end);
        let ghost this = c@.subrange(pos as int, end as int);
        assert(rest.take((end - pos) as int) =~= this);
        match line {
            Some(s) => {
                out.push(s);
            },
            None => {},
        }
        assert(out@.map_values(|s: Setting| setting_view(s)) =~= before + match setting_in(this) {
            Some(kv) => seq![kv],
            None => Seq::<(Seq<char>, Seq<char>)>::empty(),
        });
        if end == c.len() {
            assert(pieces(rest) == seq![rest]);
            assert(settings_in(seq![rest]).len() == settings_in(seq![rest].drop_first()).len() + (if setting_in(rest) is Some { 1int } else { 0int }));
            assert(seq![rest].drop_first() =~= Seq::<Seq<char>>::empty());
            assert(this =~= rest);
            done = true;
        } else {
            proof {
                lemma_first_of(rest, '\n');
                assert(rest.skip(end - pos + 1) =~= text@.skip(end + 1));
                let ps = pieces(rest);
                assert(ps == seq![this] + pieces(text@.skip(end + 1)));
                assert(ps[0] == this);
                assert(ps.drop_first() =~= pieces(text@.skip(end + 1)));
            }
            pos = end + 1;
        }
    }
    out
}

/// The value the last setting with key `k` gives it, where one does.
pub open spec fn last_value(s: Seq<(Seq<char>, Seq<char>)>, k: Seq<char>) -> Option<Seq<char>>
    decreases s.len(),
{
    if s.len() == 0 {
        None
    } else if s.last().0 == k {
        Some(s.last().1)
    } else {
        last_value(s.drop_last(), k)
    }
}

/// `m` resolves `s`: keyed in order, each key of `s` once, holding the value
/// its last setting gives.
pub open spec fn resolves(m: Seq<Setting>, s: Seq<(Seq<char>, Seq<char>)>) -> bool {
    &&& keys_ordered(m)
    &&& forall|k: Seq<char>| #[trigger] has_key(m, k) <==> last_value(s, k) is Some
    &&& forall|k: Seq<char>| has_key(m, k) ==> Some(#[trigger] entry(m, k).value@) == last_value(s, k)
}

/// Settings resolved into a map, with later lines winning, ordered by key.
pub fn resolve(text: &str) -> (r: Vec<Setting>)
    ensures
        resolves(r@, parsed(text@)),
{
    let settings = parse(text);
    let ghost views = settings@.map_values(|s: Setting| setting_view(s));
    let mut resolved: Vec<Setting> = Vec::new();
    let mut i: usize = 0;
    while i < settings.len()
        invariant
            i <= settings@.len(),
            views == settings@.map_values(|s: Setting| setting_view(s)),
            resolves(resolved@, views.take(i as int)),
        decreases settings@.len() - i,
    {
        let s = settings[i].clone();
        let ghost before = resolved@;
        assert(views.take(i + 1).drop_last() =~= views.take(i as int));
        assert(views.take(i + 1).last() == setting_view(s));
        insert_keyed(&mut resolved, s);
        i = i + 1;
    }
    assert(views.take(settings@.len() as int) =~= views);
    resolved
}

/// A one-line summary of settings: `key=value`, space-separated.
pub open spec fn summary_line(m: Seq<Setting>) -> Seq<char> {
    join(m.map_values(|s: Setting| s.key@ + "="@ + s.value@), " "@)
}

/// A one-line summary of what `text` resolves to, in a stable order.
pub fn describe(text: &str) -> (s: String)
    ensures
        exists|m: Seq<Setting>| resolves(m, parsed(text@)) && s@ == summary_line(m),
{
    let resolved = resolve(text);
    let mut parts: Vec<String> = Vec::new();
    let mut i: usize = 0;
    while i < resolved.len()
        invariant
            i <= resolved@.len(),
            parts@.map_values(|p: String| p@)
                =~= resolved@.take(i as int).map_values(|s: Setting| s.key@ + "="@ + s.value@),
        decreases resolved@.len() - i,
    {
        let ghost before = parts@;
        let mut part = text_of(resolved[i].key.as_str());
        push_char(&mut part, '=');
        push_text(&mut part, resolved[i].value.as_str());
        proof { reveal_strlit("="); }
        assert(part@ =~= resolved@[i as int].key@ + "="@ + resolved@[i as int].value@);
        parts.push(part);
        assert(resolved@.take(i + 1) =~= resolved@.take(i as int).push(resolved@[i as int]));
        assert(parts@.map_values(|p: String| p@) =~= before.map_values(|p: String| p@).push(
            resolved@[i as int].key@ + "="@ + resolved@[i as int].value@,
        ));
        i = i + 1;
    }
    assert(resolved@.take(resolved@.len() as int) =~= resolved@);
    let line = join_strings(&parts, " ");
    assert(resolves(resolved@, parsed(text@)) && line@ == summary_line(resolved@));
    line
}

} // verus!
