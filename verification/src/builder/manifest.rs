//! Turning a configuration into a `Cargo.toml` edit, and showing the edit
//! before anything is written.
//!
//! Nothing in this module writes. It produces the new text and the diff, and
//! the apply dialog states what it will write; writing is a separate act at a
//! tier that permits it.
//!
//! `toml_edit` does the editing because it is format-preserving: comments,
//! ordering, spacing and the user's own quoting style all survive, so the diff
//! shows their file with a few values changed rather than a section we
//! regenerated.

use crate::config::{
    debug_toml, lto_text, lto_toml, opt_level_text, opt_level_toml, panic_text, panic_toml, strip_text, strip_toml, DebugInfo,
    Lto, OptLevel, PanicStrategy, Strip,
};
use crate::configuration::{bool_text, config_arg, config_args_of, units_shown, bool_shown, BuildConfiguration};
use crate::builder::settings::{parse_document, toml_parses};
use crate::text::{decimal, text_eq, text_of};
use vstd::prelude::*;

verus! {

/// A TOML value, typed as cargo reads it.
#[derive(Debug, PartialEq, Eq)]
pub enum ReleaseValue {
    Integer(i64),
    Boolean(bool),
    Text(String),
}

/// A TOML value as plain values.
pub enum ReleaseValueView {
    Integer(int),
    Boolean(bool),
    Text(Seq<char>),
}

impl View for ReleaseValue {
    type V = ReleaseValueView;

    open spec fn view(&self) -> ReleaseValueView {
        match self {
            ReleaseValue::Integer(n) => ReleaseValueView::Integer(*n as int),
            ReleaseValue::Boolean(b) => ReleaseValueView::Boolean(*b),
            ReleaseValue::Text(s) => ReleaseValueView::Text(s@),
        }
    }
}

pub open spec fn opt_level_value(v: OptLevel) -> ReleaseValueView {
    match v {
        OptLevel::Zero => ReleaseValueView::Integer(0),
        OptLevel::One => ReleaseValueView::Integer(1),
        OptLevel::Two => ReleaseValueView::Integer(2),
        OptLevel::Three => ReleaseValueView::Integer(3),
        _ => ReleaseValueView::Text(opt_level_text(v)),
    }
}

pub open spec fn lto_value(v: Lto) -> ReleaseValueView {
    match v {
        Lto::Off => ReleaseValueView::Boolean(false),
        _ => ReleaseValueView::Text(lto_text(v)),
    }
}

pub open spec fn debug_value(v: DebugInfo) -> ReleaseValueView {
    match v {
        DebugInfo::Nothing => ReleaseValueView::Integer(0),
        DebugInfo::Limited => ReleaseValueView::Integer(1),
        DebugInfo::Full => ReleaseValueView::Integer(2),
        DebugInfo::LineTablesOnly => ReleaseValueView::Text("line-tables-only"@),
    }
}

/// Each axis a configuration sets, as the TOML value cargo reads, paired
/// with its key.
///
/// Typed values rather than rendered strings: `opt-level = 3` is an integer
/// and `opt-level = "s"` is a string, and the distinction is cargo's, not a
/// formatting preference.
pub open spec fn release_values_of(c: BuildConfiguration) -> Seq<(Seq<char>, ReleaseValueView)> {
    let opt = match c.opt_level { Some(v) => seq![("opt-level"@, opt_level_value(v))], None => seq![] };
    let lto = match c.lto { Some(v) => seq![("lto"@, lto_value(v))], None => seq![] };
    let units = match c.codegen_units {
        Some(v) => seq![("codegen-units"@, ReleaseValueView::Integer(v as int))],
        None => seq![],
    };
    let panic = match c.panic { Some(v) => seq![("panic"@, ReleaseValueView::Text(panic_text(v)))], None => seq![] };
    let strip = match c.strip { Some(v) => seq![("strip"@, ReleaseValueView::Text(strip_text(v)))], None => seq![] };
    let debug = match c.debug { Some(v) => seq![("debug"@, debug_value(v))], None => seq![] };
    let checks = match c.overflow_checks {
        Some(v) => seq![("overflow-checks"@, ReleaseValueView::Boolean(v))],
        None => seq![],
    };
    opt + lto + units + panic + strip + debug + checks
}

/// A value as TOML spells it: integers in decimal, booleans as words,
/// strings quoted.
pub open spec fn toml_value_text(v: ReleaseValueView) -> Seq<char> {
    match v {
        ReleaseValueView::Integer(n) => if n >= 0 { decimal(n as nat) } else { "-"@ + decimal((-n) as nat) },
        ReleaseValueView::Boolean(b) => bool_text(b),
        ReleaseValueView::Text(s) => "\""@ + s + "\""@,
    }
}

/// The `--config profile.release.<key>=<value>` arguments that set `rows`.
pub open spec fn as_config_args(rows: Seq<(Seq<char>, ReleaseValueView)>) -> Seq<Seq<char>>
    decreases rows.len(),
{
    if rows.len() == 0 {
        seq![]
    } else {
        as_config_args(rows.drop_last()) + seq!["--config"@, "profile.release."@ + rows.last().0 + "="@
            + toml_value_text(rows.last().1)]
    }
}

proof fn lemma_as_config_args_concat(a: Seq<(Seq<char>, ReleaseValueView)>, b: Seq<(Seq<char>, ReleaseValueView)>)
    ensures
        as_config_args(a + b) == as_config_args(a) + as_config_args(b),
    decreases b.len(),
{
    if b.len() == 0 {
        assert(a + b =~= a);
        assert(as_config_args(b) =~= Seq::<Seq<char>>::empty());
        assert(as_config_args(a) + as_config_args(b) =~= as_config_args(a));
    } else {
        lemma_as_config_args_concat(a, b.drop_last());
        assert((a + b).drop_last() =~= a + b.drop_last());
        assert((a + b).last() == b.last());
    }
}

proof fn lemma_as_config_args_one(k: Seq<char>, v: ReleaseValueView)
    ensures
        as_config_args(seq![(k, v)]) == seq!["--config"@, "profile.release."@ + k + "="@ + toml_value_text(v)],
        as_config_args(Seq::<(Seq<char>, ReleaseValueView)>::empty()) == Seq::<Seq<char>>::empty(),
{
    let one = seq![(k, v)];
    assert(one.drop_last() =~= Seq::<(Seq<char>, ReleaseValueView)>::empty());
    assert(as_config_args(one.drop_last()) =~= Seq::<Seq<char>>::empty());
    assert(as_config_args(one) =~= seq!["--config"@, "profile.release."@ + k + "="@ + toml_value_text(v)]);
}

proof fn lemma_quoted(s: Seq<char>, t: Seq<char>)
    requires
        t.len() == s.len() + 2,
        t[0] == '"',
        t[t.len() - 1] == '"',
        forall|i: int| 0 <= i < s.len() ==> t[i + 1] == s[i],
    ensures
        "\""@ + s + "\""@ == t,
{
    reveal_strlit("\"");
    assert("\""@ + s + "\""@ =~= t);
}

/// The value written for each axis is the one cargo reads as that setting
/// when the build passes it on the command line.
proof fn lemma_axis_values_match(o: OptLevel, l: Lto, p: PanicStrategy, s: Strip, d: DebugInfo)
    ensures
        toml_value_text(opt_level_value(o)) == opt_level_toml(o),
        toml_value_text(lto_value(l)) == lto_toml(l),
        toml_value_text(ReleaseValueView::Text(panic_text(p))) == panic_toml(p),
        toml_value_text(ReleaseValueView::Text(strip_text(s))) == strip_toml(s),
        toml_value_text(debug_value(d)) == debug_toml(d),
{
    reveal_strlit("0");
    reveal_strlit("1");
    reveal_strlit("2");
    reveal_strlit("3");
    assert(decimal(0) =~= "0"@);
    assert(decimal(1) =~= "1"@);
    assert(decimal(2) =~= "2"@);
    assert(decimal(3) =~= "3"@);
    reveal_strlit("s");
    reveal_strlit("\"s\"");
    lemma_quoted("s"@, "\"s\""@);
    reveal_strlit("z");
    reveal_strlit("\"z\"");
    lemma_quoted("z"@, "\"z\""@);
    reveal_strlit("thin");
    reveal_strlit("\"thin\"");
    lemma_quoted("thin"@, "\"thin\""@);
    reveal_strlit("fat");
    reveal_strlit("\"fat\"");
    lemma_quoted("fat"@, "\"fat\""@);
    reveal_strlit("unwind");
    reveal_strlit("\"unwind\"");
    lemma_quoted("unwind"@, "\"unwind\""@);
    reveal_strlit("abort");
    reveal_strlit("\"abort\"");
    lemma_quoted("abort"@, "\"abort\""@);
    reveal_strlit("none");
    reveal_strlit("\"none\"");
    lemma_quoted("none"@, "\"none\""@);
    reveal_strlit("debuginfo");
    reveal_strlit("\"debuginfo\"");
    lemma_quoted("debuginfo"@, "\"debuginfo\""@);
    reveal_strlit("symbols");
    reveal_strlit("\"symbols\"");
    lemma_quoted("symbols"@, "\"symbols\""@);
    reveal_strlit("line-tables-only");
    reveal_strlit("\"line-tables-only\"");
    lemma_quoted("line-tables-only"@, "\"line-tables-only\""@);
}

/// Writing a configuration into `Cargo.toml` sets exactly what building it
/// passes cargo: the `[profile.release]` values, read as the `--config`
/// arguments that would set them, are the build's own `--config` arguments,
/// key for key and value for value, in the same order.
pub proof fn lemma_manifest_edit_matches_the_build(c: BuildConfiguration)
    ensures
        as_config_args(release_values_of(c)) == config_args_of(c),
{
    reveal_strlit("--config");
    let opt = match c.opt_level { Some(v) => seq![("opt-level"@, opt_level_value(v))], None => seq![] };
    let lto = match c.lto { Some(v) => seq![("lto"@, lto_value(v))], None => seq![] };
    let units = match c.codegen_units {
        Some(v) => seq![("codegen-units"@, ReleaseValueView::Integer(v as int))],
        None => seq![],
    };
    let panic = match c.panic { Some(v) => seq![("panic"@, ReleaseValueView::Text(panic_text(v)))], None => seq![] };
    let strip = match c.strip { Some(v) => seq![("strip"@, ReleaseValueView::Text(strip_text(v)))], None => seq![] };
    let debug = match c.debug { Some(v) => seq![("debug"@, debug_value(v))], None => seq![] };
    let checks = match c.overflow_checks {
        Some(v) => seq![("overflow-checks"@, ReleaseValueView::Boolean(v))],
        None => seq![],
    };
    lemma_as_config_args_concat(opt, lto);
    lemma_as_config_args_concat(opt + lto, units);
    lemma_as_config_args_concat(opt + lto + units, panic);
    lemma_as_config_args_concat(opt + lto + units + panic, strip);
    lemma_as_config_args_concat(opt + lto + units + panic + strip, debug);
    lemma_as_config_args_concat(opt + lto + units + panic + strip + debug, checks);
    let o = match c.opt_level { Some(v) => v, None => OptLevel::Zero };
    let l = match c.lto { Some(v) => v, None => Lto::Off };
    let p = match c.panic { Some(v) => v, None => PanicStrategy::Unwind };
    let s = match c.strip { Some(v) => v, None => Strip::Nothing };
    let d = match c.debug { Some(v) => v, None => DebugInfo::Nothing };
    lemma_axis_values_match(o, l, p, s, d);
    lemma_as_config_args_one("opt-level"@, opt_level_value(o));
    lemma_as_config_args_one("lto"@, lto_value(l));
    lemma_as_config_args_one("codegen-units"@, ReleaseValueView::Integer(match c.codegen_units { Some(v) => v as int, None => 0 }));
    lemma_as_config_args_one("panic"@, ReleaseValueView::Text(panic_text(p)));
    lemma_as_config_args_one("strip"@, ReleaseValueView::Text(strip_text(s)));
    lemma_as_config_args_one("debug"@, debug_value(d));
    lemma_as_config_args_one("overflow-checks"@, ReleaseValueView::Boolean(match c.overflow_checks { Some(v) => v, None => false }));
    assert(as_config_args(opt) =~= config_arg("opt-level"@, match c.opt_level { Some(v) => Some(opt_level_toml(v)), None => None }));
    assert(as_config_args(lto) =~= config_arg("lto"@, match c.lto { Some(v) => Some(lto_toml(v)), None => None }));
    assert(as_config_args(units) =~= config_arg("codegen-units"@, units_shown(c.codegen_units)));
    assert(as_config_args(panic) =~= config_arg("panic"@, match c.panic { Some(v) => Some(panic_toml(v)), None => None }));
    assert(as_config_args(strip) =~= config_arg("strip"@, match c.strip { Some(v) => Some(strip_toml(v)), None => None }));
    assert(as_config_args(debug) =~= config_arg("debug"@, match c.debug { Some(v) => Some(debug_toml(v)), None => None }));
    assert(as_config_args(checks) =~= config_arg("overflow-checks"@, bool_shown(c.overflow_checks)));
}

pub open spec fn value_row(p: (&str, ReleaseValue)) -> (Seq<char>, ReleaseValueView) {
    (p.0@, p.1@)
}

fn add_value<'a>(values: &mut Vec<(&'a str, ReleaseValue)>, key: &'a str, value: Option<ReleaseValue>)
    ensures
        final(values)@.map_values(|p: (&str, ReleaseValue)| value_row(p)) == old(values)@.map_values(
            |p: (&str, ReleaseValue)| value_row(p),
        ) + match value {
            Some(v) => seq![(key@, v@)],
            None => Seq::<(Seq<char>, ReleaseValueView)>::empty(),
        },
{
    let ghost before = values@.map_values(|p: (&str, ReleaseValue)| value_row(p));
    match value {
        Some(v) => {
            values.push((key, v));
        },
        None => {},
    }
    assert(values@.map_values(|p: (&str, ReleaseValue)| value_row(p)) =~= before + match value {
        Some(v) => seq![(key@, v@)],
        None => Seq::<(Seq<char>, ReleaseValueView)>::empty(),
    });
}

/// Each axis the configuration sets, as the TOML value cargo reads, paired
/// with its key, in axis order.
pub fn release_values(configuration: &BuildConfiguration) -> (r: Vec<(&'static str, ReleaseValue)>)
    ensures
        r@.map_values(|p: (&str, ReleaseValue)| value_row(p)) == release_values_of(*configuration),
{
    let c = configuration;
    let mut values: Vec<(&'static str, ReleaseValue)> = Vec::new();
    assert(values@.map_values(|p: (&str, ReleaseValue)| value_row(p)) =~= seq![]);
    let opt = match c.opt_level {
        Some(OptLevel::Zero) => Some(ReleaseValue::Integer(0)),
        Some(OptLevel::One) => Some(ReleaseValue::Integer(1)),
        Some(OptLevel::Two) => Some(ReleaseValue::Integer(2)),
        Some(OptLevel::Three) => Some(ReleaseValue::Integer(3)),
        Some(other) => Some(ReleaseValue::Text(other.to_string())),
        None => None,
    };
    add_value(&mut values, "opt-level", opt);
    let lto = match c.lto {
        Some(Lto::Off) => Some(ReleaseValue::Boolean(false)),
        Some(other) => Some(ReleaseValue::Text(other.to_string())),
        None => None,
    };
    add_value(&mut values, "lto", lto);
    let units = match c.codegen_units {
        Some(v) => Some(ReleaseValue::Integer(v as i64)),
        None => None,
    };
    add_value(&mut values, "codegen-units", units);
    let panic = match c.panic {
        Some(v) => Some(ReleaseValue::Text(v.to_string())),
        None => None,
    };
    add_value(&mut values, "panic", panic);
    let strip = match c.strip {
        Some(v) => Some(ReleaseValue::Text(v.to_string())),
        None => None,
    };
    add_value(&mut values, "strip", strip);
    let debug = match c.debug {
        Some(DebugInfo::Nothing) => Some(ReleaseValue::Integer(0)),
        Some(DebugInfo::Limited) => Some(ReleaseValue::Integer(1)),
        Some(DebugInfo::Full) => Some(ReleaseValue::Integer(2)),
        Some(other) => Some(ReleaseValue::Text(other.to_string())),
        None => None,
    };
    add_value(&mut values, "debug", debug);
    let checks = match c.overflow_checks {
        Some(v) => Some(ReleaseValue::Boolean(v)),
        None => None,
    };
    add_value(&mut values, "overflow-checks", checks);
    assert(values@.map_values(|p: (&str, ReleaseValue)| value_row(p)) =~= release_values_of(*c));
    values
}

/// One edit made to a parsed manifest, as plain values: a table created at
/// `path` + `key` where nothing was, a table at `path` marked implicit (so it
/// renders as a dotted header such as `[profile.release]`), or `key` set to a
/// value in the table at `path`.
pub enum ManifestEdit {
    TableAt(Seq<Seq<char>>, Seq<char>),
    Implicit(Seq<Seq<char>>),
    Assign(Seq<Seq<char>>, Seq<char>, ReleaseValueView),
}

/// Whether, in the document `toml_edit` parses from `text` and then edits by
/// `edits`, the item at `path` is a table (`Item::as_table_mut` gives one).
pub uninterp spec fn toml_is_table(text: Seq<char>, edits: Seq<ManifestEdit>, path: Seq<Seq<char>>) -> bool;

/// The text `toml_edit` renders for the document it parses from `text` and
/// then edits by `edits`.
pub uninterp spec fn toml_render(text: Seq<char>, edits: Seq<ManifestEdit>) -> Seq<char>;

/// A manifest being edited: the document `toml_edit` parsed, the text it was
/// parsed from, and the edits made to it since, in order.
pub struct ManifestDocument {
    document: toml_edit::DocumentMut,
    source: Ghost<Seq<char>>,
    edits: Ghost<Seq<ManifestEdit>>,
}

impl View for ManifestDocument {
    type V = (Seq<char>, Seq<ManifestEdit>);

    closed spec fn view(&self) -> (Seq<char>, Seq<ManifestEdit>) {
        (self.source@, self.edits@)
    }
}

pub open spec fn profile_path() -> Seq<Seq<char>> {
    seq!["profile"@]
}

pub open spec fn release_path() -> Seq<Seq<char>> {
    seq!["profile"@, "release"@]
}

/// `DocumentMut::entry(key).or_insert(Item::Table(..))` on the root: a table
/// under `key` where nothing is, and whatever is there left as it is.
#[verifier::external_body]
fn root_table_entry(d: &mut ManifestDocument, key: &str)
    ensures
        final(d)@ == (old(d)@.0, old(d)@.1.push(ManifestEdit::TableAt(seq![], key@))),
{
    d.document.entry(key).or_insert(toml_edit::Item::Table(toml_edit::Table::new()));
    d.edits = Ghost(d.edits@.push(ManifestEdit::TableAt(seq![], key@)));
}

/// `Item::as_table_mut` on the root's `key`: whether a table is there.
#[verifier::external_body]
fn root_is_table(d: &mut ManifestDocument, key: &str) -> (r: bool)
    ensures
        final(d)@ == old(d)@,
        r == toml_is_table(old(d)@.0, old(d)@.1, seq![key@]),
{
    d.document.get_mut(key).and_then(toml_edit::Item::as_table_mut).is_some()
}

/// `Table::set_implicit(true)` on the root's table `key`.
#[verifier::external_body]
fn root_set_implicit(d: &mut ManifestDocument, key: &str)
    requires
        toml_is_table(old(d)@.0, old(d)@.1, seq![key@]),
    ensures
        final(d)@ == (old(d)@.0, old(d)@.1.push(ManifestEdit::Implicit(seq![key@]))),
        toml_is_table(final(d)@.0, final(d)@.1, seq![key@]),
{
    if let Some(table) = d.document.get_mut(key).and_then(toml_edit::Item::as_table_mut) {
        table.set_implicit(true);
    }
    d.edits = Ghost(d.edits@.push(ManifestEdit::Implicit(seq![key@])));
}

/// `Table::entry(key).or_insert(Item::Table(..))` in the root's table
/// `outer`: a table under `key` where nothing is.
#[verifier::external_body]
fn nested_table_entry(d: &mut ManifestDocument, outer: &str, key: &str)
    requires
        toml_is_table(old(d)@.0, old(d)@.1, seq![outer@]),
    ensures
        final(d)@ == (old(d)@.0, old(d)@.1.push(ManifestEdit::TableAt(seq![outer@], key@))),
        toml_is_table(final(d)@.0, final(d)@.1, seq![outer@]),
{
    if let Some(table) = d.document.get_mut(outer).and_then(toml_edit::Item::as_table_mut) {
        table.entry(key).or_insert(toml_edit::Item::Table(toml_edit::Table::new()));
    }
    d.edits = Ghost(d.edits@.push(ManifestEdit::TableAt(seq![outer@], key@)));
}

/// `Item::as_table_mut` on `key` in the root's table `outer`: whether a
/// table is there.
#[verifier::external_body]
fn nested_is_table(d: &mut ManifestDocument, outer: &str, key: &str) -> (r: bool)
    requires
        toml_is_table(old(d)@.0, old(d)@.1, seq![outer@]),
    ensures
        final(d)@ == old(d)@,
        r == toml_is_table(old(d)@.0, old(d)@.1, seq![outer@, key@]),
{
    match d.document.get_mut(outer).and_then(toml_edit::Item::as_table_mut) {
        Some(table) => table.get_mut(key).and_then(toml_edit::Item::as_table_mut).is_some(),
        None => false,
    }
}

/// `table[key] = Item::Value(value)` in the table `inner` of the root's
/// table `outer`.
#[verifier::external_body]
fn nested_assign(d: &mut ManifestDocument, outer: &str, inner: &str, key: &str, value: &ReleaseValue)
    requires
        toml_is_table(old(d)@.0, old(d)@.1, seq![outer@, inner@]),
    ensures
        final(d)@ == (old(d)@.0, old(d)@.1.push(ManifestEdit::Assign(seq![outer@, inner@], key@, value@))),
        toml_is_table(final(d)@.0, final(d)@.1, seq![outer@, inner@]),
{
    let item = toml_edit::Item::Value(match value {
        ReleaseValue::Integer(n) => toml_edit::Value::from(*n),
        ReleaseValue::Boolean(b) => toml_edit::Value::from(*b),
        ReleaseValue::Text(s) => toml_edit::Value::from(s.as_str()),
    });
    if let Some(table) = d.document.get_mut(outer).and_then(toml_edit::Item::as_table_mut) {
        if let Some(release) = table.get_mut(inner).and_then(toml_edit::Item::as_table_mut) {
            release[key] = item;
        }
    }
    d.edits = Ghost(d.edits@.push(ManifestEdit::Assign(seq![outer@, inner@], key@, value@)));
}

/// `DocumentMut::to_string`: the document rendered.
#[verifier::external_body]
fn render_document(d: &ManifestDocument) -> (r: String)
    ensures
        r@ == toml_render(d@.0, d@.1),
{
    d.document.to_string()
}

/// The edits that set each of `values` in `[profile.release]`, in order.
pub open spec fn assignments(values: Seq<(Seq<char>, ReleaseValueView)>) -> Seq<ManifestEdit> {
    values.map_values(|v: (Seq<char>, ReleaseValueView)| ManifestEdit::Assign(release_path(), v.0, v.1))
}

/// The edits that make sure `[profile.release]` is there, as a dotted header.
pub open spec fn release_table_edits() -> Seq<ManifestEdit> {
    seq![
        ManifestEdit::TableAt(seq![], "profile"@),
        ManifestEdit::Implicit(profile_path()),
        ManifestEdit::TableAt(profile_path(), "release"@),
    ]
}

/// `manifest` with `values` set in `[profile.release]`, or none where it is
/// left alone: it sets nothing, it does not parse, or its `profile` or
/// `profile.release` is something other than a table. Otherwise it is the
/// document rendered after exactly these edits: `[profile]` added where it
/// is missing and marked implicit, `[profile.release]` added where it is
/// missing, and each value assigned under its key; no other edit is made.
pub open spec fn edited(manifest: Seq<char>, values: Seq<(Seq<char>, ReleaseValueView)>) -> Option<Seq<char>> {
    let first = seq![ManifestEdit::TableAt(seq![], "profile"@)];
    let tables = release_table_edits();
    if values.len() == 0 || !toml_parses(manifest) {
        None
    } else if !toml_is_table(manifest, first, profile_path()) {
        None
    } else if !toml_is_table(manifest, tables, release_path()) {
        None
    } else {
        Some(toml_render(manifest, tables + assignments(values)))
    }
}

/// Rewrite a manifest so `[profile.release]` carries this configuration.
///
/// Keys the configuration sets are replaced; keys it does not set are left
/// exactly alone. Returns the manifest unchanged when the configuration sets
/// nothing, and when the manifest cannot be edited: refusing to guess is
/// better than writing a broken file.
pub fn with_release_profile(manifest: &str, configuration: &BuildConfiguration) -> (r: String)
    ensures
        release_values_of(*configuration).len() == 0 ==> r@ == manifest@,
        !toml_parses(manifest@) ==> r@ == manifest@,
        r@ == match edited(manifest@, release_values_of(*configuration)) {
            Some(t) => t,
            None => manifest@,
        },
{
    let values = release_values(configuration);
    let ghost rows = values@.map_values(|p: (&str, ReleaseValue)| value_row(p));
    if values.len() == 0 {
        return text_of(manifest);
    }
    let parsed = match parse_document(text_of(manifest)) {
        Ok(p) => p,
        Err(_) => return text_of(manifest),
    };
    let (source, document) = parsed.into_parts();
    let mut d = ManifestDocument { document, source: Ghost(source@), edits: Ghost(Seq::empty()) };
    assert(d@.0 == manifest@);
    root_table_entry(&mut d, "profile");
    proof { reveal_strlit("profile"); }
    assert(d@.1 =~= seq![ManifestEdit::TableAt(seq![], "profile"@)]);
    if !root_is_table(&mut d, "profile") {
        return text_of(manifest);
    }
    root_set_implicit(&mut d, "profile");
    nested_table_entry(&mut d, "profile", "release");
    proof { reveal_strlit("release"); }
    assert(d@.1 =~= release_table_edits());
    if !nested_is_table(&mut d, "profile", "release") {
        return text_of(manifest);
    }
    let mut i: usize = 0;
    while i < values.len()
        invariant
            i <= values@.len(),
            rows == values@.map_values(|p: (&str, ReleaseValue)| value_row(p)),
            rows == release_values_of(*configuration),
            d@.0 == manifest@,
            d@.1 == release_table_edits() + assignments(rows.take(i as int)),
            toml_is_table(manifest@, d@.1, release_path()),
        decreases values@.len() - i,
    {
        let (key, value) = &values[i];
        nested_assign(&mut d, "profile", "release", key, value);
        proof {
            assert(rows.take(i + 1) =~= rows.take(i as int).push(rows[i as int]));
            assert(rows[i as int] == (key@, value@));
        }
        i = i + 1;
    }
    assert(rows.take(i as int) =~= rows);
    render_document(&d)
}

/// The unified diff `similar` renders between `before` and `after`, with three
/// lines of context and headers naming `a/<path>` and `b/<path>`.
pub uninterp spec fn unified_diff_of(path: Seq<char>, before: Seq<char>, after: Seq<char>) -> Seq<char>;

/// `similar::TextDiff::from_lines`, rendered as a unified diff with three
/// lines of context and `a/` and `b/` headers for `path`. The contract claims
/// only that the text is the one `unified_diff_of` names for these arguments.
#[verifier::external_body]
fn render_diff(path: &str, before: &str, after: &str) -> (r: String)
    ensures
        r@ == unified_diff_of(path@, before@, after@),
{
    similar::TextDiff::from_lines(before, after)
        .unified_diff()
        .context_radius(3)
        .header(&format!("a/{path}"), &format!("b/{path}"))
        .to_string()
}

/// A unified diff, as the proposal tab renders it: nothing at all where the
/// two texts are the same.
pub fn unified_diff(path: &str, before: &str, after: &str) -> (r: String)
    ensures
        r@ == if before@ == after@ { Seq::<char>::empty() } else { unified_diff_of(path@, before@, after@) },
{
    if text_eq(before, after) {
        return String::new();
    }
    render_diff(path, before, after)
}

} // verus!
