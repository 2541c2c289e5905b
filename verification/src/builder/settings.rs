//! `binmap.toml`: the project's own settings.
//!
//! The sweep matrix is configurable: a user who wants to sweep
//! `overflow-checks`, or narrow a matrix that takes an hour, says so here.
//!
//! Everything is optional. A project with no `binmap.toml` gets the defaults,
//! which is the case this must not make worse: the file exists to let someone
//! narrow or widen a sweep, not to become a thing they have to write before
//! the tool works. Reading the file is the caller's; this module reads what
//! it says.

use crate::config::{
    debug_text, lto_text, opt_level_text, panic_text, strip_text, BenchmarkCommand, DebugInfo, Lto, OptLevel, PanicStrategy,
    ProjectConfig, Strip,
};
use crate::configuration::bool_text;
use crate::error::Error;
use crate::text::{decimal, decimal_string, path_join, push_char, push_text, text_eq, text_of};
use vstd::prelude::*;

verus! {

/// The file's name, in the project root.
pub const FILE: &'static str = "binmap.toml";

#[verifier::external_type_specification]
#[verifier::external_body]
pub struct ExDocumentMut(toml_edit::DocumentMut);

/// A TOML value, as the settings read it.
#[derive(Debug, PartialEq, Eq)]
pub enum SettingValue {
    Text(String),
    Integer(i64),
    Boolean(bool),
    /// A float, a date, an array or a table: nothing an axis is spelled with.
    Other,
}

pub enum SettingValueView {
    Text(Seq<char>),
    Integer(int),
    Boolean(bool),
    Other,
}

impl View for SettingValue {
    type V = SettingValueView;

    open spec fn view(&self) -> SettingValueView {
        match self {
            SettingValue::Text(s) => SettingValueView::Text(s@),
            SettingValue::Integer(n) => SettingValueView::Integer(*n as int),
            SettingValue::Boolean(b) => SettingValueView::Boolean(*b),
            SettingValue::Other => SettingValueView::Other,
        }
    }
}

/// A parsed settings file, and the text it was parsed from.
pub struct SettingsDocument {
    text: String,
    document: toml_edit::DocumentMut,
}

impl View for SettingsDocument {
    type V = Seq<char>;

    closed spec fn view(&self) -> Seq<char> {
        self.text@
    }
}

impl SettingsDocument {
    /// The text and the document parsed from it, apart.
    pub(crate) fn into_parts(self) -> (r: (String, toml_edit::DocumentMut))
        ensures
            r.0@ == self@,
    {
        (self.text, self.document)
    }
}

/// Whether `toml_edit` parses `text` as a document.
pub uninterp spec fn toml_parses(text: Seq<char>) -> bool;

/// The message `toml_edit` gives for text it does not parse.
pub uninterp spec fn toml_error(text: Seq<char>) -> Seq<char>;

/// Whether the document in `text` has a table `section`.
pub uninterp spec fn toml_section(text: Seq<char>, section: Seq<char>) -> bool;

/// The array under `key` in the table `section`, item by item, where there
/// is one.
pub uninterp spec fn toml_array(text: Seq<char>, section: Seq<char>, key: Seq<char>) -> Option<Seq<SettingValueView>>;

/// The string under `key` in the table `section`, where there is one.
pub uninterp spec fn toml_text(text: Seq<char>, section: Seq<char>, key: Seq<char>) -> Option<Seq<char>>;

/// The integer under `key` in the table `section`, where there is one.
pub uninterp spec fn toml_integer(text: Seq<char>, section: Seq<char>, key: Seq<char>) -> Option<int>;

/// The integer under `key` in the item `section`, a table or an inline table,
/// where there is one.
pub uninterp spec fn toml_item_integer(text: Seq<char>, section: Seq<char>, key: Seq<char>) -> Option<int>;

/// `toml_edit`: parses `text` as a `DocumentMut`, keeping the text beside it,
/// or gives the parser's message.
#[verifier::external_body]
pub(crate) fn parse_document(text: String) -> (r: Result<SettingsDocument, String>)
    ensures
        match r {
            Ok(d) => toml_parses(text@) && d@ == text@,
            Err(m) => !toml_parses(text@) && m@ == toml_error(text@),
        },
{
    match text.parse::<toml_edit::DocumentMut>() {
        Ok(document) => Ok(SettingsDocument { text, document }),
        Err(error) => Err(error.to_string()),
    }
}

/// `toml_edit`: whether `section` is a table of the document.
#[verifier::external_body]
fn has_section(d: &SettingsDocument, section: &str) -> (r: bool)
    ensures
        r == toml_section(d@, section@),
{
    d.document.get(section).and_then(toml_edit::Item::as_table).is_some()
}

/// `toml_edit`: the array under `key` in the table `section`, each item
/// turned into a `SettingValue` by its type.
#[verifier::external_body]
fn section_array(d: &SettingsDocument, section: &str, key: &str) -> (r: Option<Vec<SettingValue>>)
    ensures
        match r {
            Some(v) => toml_array(d@, section@, key@) == Some(v@.map_values(|x: SettingValue| x@)),
            None => toml_array(d@, section@, key@) is None,
        },
{
    let array = d.document.get(section)?.as_table()?.get(key)?.as_array()?;
    Some(array.iter().map(|value| match value {
        toml_edit::Value::String(s) => SettingValue::Text(s.value().clone()),
        toml_edit::Value::Integer(n) => SettingValue::Integer(*n.value()),
        toml_edit::Value::Boolean(b) => SettingValue::Boolean(*b.value()),
        _ => SettingValue::Other,
    }).collect())
}

/// `toml_edit`: the string under `key` in the table `section`.
#[verifier::external_body]
fn section_text(d: &SettingsDocument, section: &str, key: &str) -> (r: Option<String>)
    ensures
        match r {
            Some(s) => toml_text(d@, section@, key@) == Some(s@),
            None => toml_text(d@, section@, key@) is None,
        },
{
    Some(d.document.get(section)?.as_table()?.get(key)?.as_str()?.to_string())
}

/// `toml_edit`: the integer under `key` in the table `section`.
#[verifier::external_body]
fn section_integer(d: &SettingsDocument, section: &str, key: &str) -> (r: Option<i64>)
    ensures
        match r {
            Some(n) => toml_integer(d@, section@, key@) == Some(n as int),
            None => toml_integer(d@, section@, key@) is None,
        },
{
    d.document.get(section)?.as_table()?.get(key)?.as_integer()
}

/// `toml_edit`: the integer under `key` in the item `section`.
#[verifier::external_body]
fn item_integer(d: &SettingsDocument, section: &str, key: &str) -> (r: Option<i64>)
    ensures
        match r {
            Some(n) => toml_item_integer(d@, section@, key@) == Some(n as int),
            None => toml_item_integer(d@, section@, key@) is None,
        },
{
    d.document.get(section)?.get(key)?.as_integer()
}

/// An integer in decimal, with a minus sign where it is negative.
pub open spec fn signed_decimal(n: int) -> Seq<char> {
    if n < 0 { "-"@ + decimal((-n) as nat) } else { decimal(n as nat) }
}

fn signed_string(n: i64) -> (s: String)
    ensures
        s@ == signed_decimal(n as int),
{
    if n < 0 {
        let magnitude: u64 = if n == i64::MIN { 9223372036854775808u64 } else { (-n) as u64 };
        let mut s = text_of("-");
        let digits = decimal_string(magnitude);
        push_text(&mut s, digits.as_str());
        s
    } else {
        decimal_string(n as u64)
    }
}

/// How a value spells a name: a string as itself, a number or a boolean as
/// written. Other values spell nothing.
pub open spec fn spelling(v: SettingValueView) -> Option<Seq<char>> {
    match v {
        SettingValueView::Text(s) => Some(s),
        SettingValueView::Integer(n) => Some(signed_decimal(n)),
        SettingValueView::Boolean(b) => Some(bool_text(b)),
        SettingValueView::Other => None,
    }
}

fn spell(v: &SettingValue) -> (r: Option<String>)
    ensures
        match r {
            Some(s) => spelling(v@) == Some(s@),
            None => spelling(v@) is None,
        },
{
    match v {
        SettingValue::Text(s) => Some(s.clone()),
        SettingValue::Integer(n) => Some(signed_string(*n)),
        SettingValue::Boolean(b) => Some(if *b { text_of("true") } else { text_of("false") }),
        SettingValue::Other => None,
    }
}

/// A value of one sweep axis, read from the name it is spelled with.
pub trait AxisValue: Sized {
    spec fn named(name: Seq<char>) -> Option<Self>;

    fn from_name(name: &str) -> (r: Option<Self>)
        ensures
            r == Self::named(name@);
}

impl AxisValue for OptLevel {
    open spec fn named(name: Seq<char>) -> Option<Self> {
        if name == "0"@ { Some(OptLevel::Zero) }
        else if name == "1"@ { Some(OptLevel::One) }
        else if name == "2"@ { Some(OptLevel::Two) }
        else if name == "3"@ { Some(OptLevel::Three) }
        else if name == "s"@ { Some(OptLevel::Size) }
        else if name == "z"@ { Some(OptLevel::SizeNoLoopVec) }
        else { None }
    }

    fn from_name(name: &str) -> (r: Option<Self>) {
        if text_eq(name, "0") { Some(OptLevel::Zero) }
        else if text_eq(name, "1") { Some(OptLevel::One) }
        else if text_eq(name, "2") { Some(OptLevel::Two) }
        else if text_eq(name, "3") { Some(OptLevel::Three) }
        else if text_eq(name, "s") { Some(OptLevel::Size) }
        else if text_eq(name, "z") { Some(OptLevel::SizeNoLoopVec) }
        else { None }
    }
}

impl AxisValue for Lto {
    open spec fn named(name: Seq<char>) -> Option<Self> {
        if name == "false"@ || name == "off"@ { Some(Lto::Off) }
        else if name == "thin"@ { Some(Lto::Thin) }
        else if name == "fat"@ || name == "true"@ { Some(Lto::Fat) }
        else { None }
    }

    fn from_name(name: &str) -> (r: Option<Self>) {
        if text_eq(name, "false") || text_eq(name, "off") { Some(Lto::Off) }
        else if text_eq(name, "thin") { Some(Lto::Thin) }
        else if text_eq(name, "fat") || text_eq(name, "true") { Some(Lto::Fat) }
        else { None }
    }
}

impl AxisValue for PanicStrategy {
    open spec fn named(name: Seq<char>) -> Option<Self> {
        if name == "unwind"@ { Some(PanicStrategy::Unwind) }
        else if name == "abort"@ { Some(PanicStrategy::Abort) }
        else { None }
    }

    fn from_name(name: &str) -> (r: Option<Self>) {
        if text_eq(name, "unwind") { Some(PanicStrategy::Unwind) }
        else if text_eq(name, "abort") { Some(PanicStrategy::Abort) }
        else { None }
    }
}

impl AxisValue for Strip {
    open spec fn named(name: Seq<char>) -> Option<Self> {
        if name == "none"@ || name == "false"@ { Some(Strip::Nothing) }
        else if name == "debuginfo"@ { Some(Strip::Debuginfo) }
        else if name == "symbols"@ || name == "true"@ { Some(Strip::Symbols) }
        else { None }
    }

    fn from_name(name: &str) -> (r: Option<Self>) {
        if text_eq(name, "none") || text_eq(name, "false") { Some(Strip::Nothing) }
        else if text_eq(name, "debuginfo") { Some(Strip::Debuginfo) }
        else if text_eq(name, "symbols") || text_eq(name, "true") { Some(Strip::Symbols) }
        else { None }
    }
}

impl AxisValue for DebugInfo {
    open spec fn named(name: Seq<char>) -> Option<Self> {
        if name == "0"@ || name == "false"@ { Some(DebugInfo::Nothing) }
        else if name == "line-tables-only"@ { Some(DebugInfo::LineTablesOnly) }
        else if name == "1"@ || name == "limited"@ { Some(DebugInfo::Limited) }
        else if name == "2"@ || name == "true"@ || name == "full"@ { Some(DebugInfo::Full) }
        else { None }
    }

    fn from_name(name: &str) -> (r: Option<Self>) {
        if text_eq(name, "0") || text_eq(name, "false") { Some(DebugInfo::Nothing) }
        else if text_eq(name, "line-tables-only") { Some(DebugInfo::LineTablesOnly) }
        else if text_eq(name, "1") || text_eq(name, "limited") { Some(DebugInfo::Limited) }
        else if text_eq(name, "2") || text_eq(name, "true") || text_eq(name, "full") { Some(DebugInfo::Full) }
        else { None }
    }
}

/// The `opt-level` spelled `value`, where it names one.
pub fn opt_level(value: &str) -> (r: Option<OptLevel>)
    ensures
        r == OptLevel::named(value@),
{
    OptLevel::from_name(value)
}

/// The `lto` spelled `value`, where it names one.
pub fn lto(value: &str) -> (r: Option<Lto>)
    ensures
        r == Lto::named(value@),
{
    Lto::from_name(value)
}

/// The `panic` strategy spelled `value`, where it names one.
pub fn panic_strategy(value: &str) -> (r: Option<PanicStrategy>)
    ensures
        r == PanicStrategy::named(value@),
{
    PanicStrategy::from_name(value)
}

/// The `strip` spelled `value`, where it names one.
pub fn strip(value: &str) -> (r: Option<Strip>)
    ensures
        r == Strip::named(value@),
{
    Strip::from_name(value)
}

/// The `debug` spelled `value`, where it names one.
pub fn debug_info(value: &str) -> (r: Option<DebugInfo>)
    ensures
        r == DebugInfo::named(value@),
{
    DebugInfo::from_name(value)
}

/// The message for an axis value that spells no name.
pub open spec fn not_a_name(key: Seq<char>) -> Seq<char> {
    "binmap.toml: [sweep] "@ + key + " has a value that is not a name"@
}

/// The message for an axis value that names nothing the axis accepts.
pub open spec fn not_accepted(key: Seq<char>, spelled: Seq<char>) -> Seq<char> {
    "binmap.toml: [sweep] "@ + key + " does not accept `"@ + spelled + "`"@
}

/// An axis read from its values: each one's value, or the message for the
/// first value that spells no name or names nothing the axis accepts.
pub open spec fn axis_from<T: AxisValue>(vs: Seq<SettingValueView>, key: Seq<char>) -> Result<Seq<T>, Seq<char>>
    decreases vs.len(),
{
    if vs.len() == 0 {
        Ok(seq![])
    } else {
        match spelling(vs[0]) {
            None => Err(not_a_name(key)),
            Some(s) => match T::named(s) {
                None => Err(not_accepted(key, s)),
                Some(v) => match axis_from::<T>(vs.drop_first(), key) {
                    Ok(rest) => Ok(seq![v] + rest),
                    Err(m) => Err(m),
                },
            },
        }
    }
}

/// What one axis of `[sweep]` reads as: nothing where the file does not list
/// it, its values where it does, or the message for a value it refuses.
pub open spec fn axis_read<T: AxisValue>(text: Seq<char>, key: Seq<char>) -> Result<Option<Seq<T>>, Seq<char>> {
    match toml_array(text, "sweep"@, key) {
        None => Ok(None),
        Some(vs) => match axis_from::<T>(vs, key) {
            Ok(v) => Ok(Some(v)),
            Err(m) => Err(m),
        },
    }
}

/// Read one axis, refusing a value we do not recognise rather than dropping
/// it.
///
/// Silently ignoring `opt-level = ["fast"]` would sweep a matrix the user did
/// not ask for and report results they would reasonably read as covering it.
fn read_axis<T: AxisValue>(d: &SettingsDocument, key: &str) -> (r: Result<Option<Vec<T>>, Error>)
    ensures
        match axis_read::<T>(d@, key@) {
            Ok(None) => r matches Ok(None),
            Ok(Some(v)) => r matches Ok(Some(w)) && w@ == v,
            Err(m) => r matches Err(Error::Config(n)) && n@ == m,
        },
{
    let values = match section_array(d, "sweep", key) {
        None => return Ok(None),
        Some(values) => values,
    };
    let ghost views = values@.map_values(|x: SettingValue| x@);
    let mut parsed: Vec<T> = Vec::new();
    let mut i: usize = 0;
    proof { reveal_strlit("binmap.toml: [sweep] "); }
    assert(views.skip(0) =~= views);
    while i < values.len()
        invariant
            i <= values@.len(),
            views == values@.map_values(|x: SettingValue| x@),
            toml_array(d@, "sweep"@, key@) == Some(views),
            axis_from::<T>(views, key@) == match axis_from::<T>(views.skip(i as int), key@) {
                Ok(rest) => Ok(parsed@ + rest),
                Err(m) => Err(m),
            },
        decreases values@.len() - i,
    {
        assert(views.skip(i as int)[0] == values@[i as int]@);
        assert(views.skip(i as int).drop_first() =~= views.skip(i + 1));
        let spelled = match spell(&values[i]) {
            None => {
                let mut message = text_of("binmap.toml: [sweep] ");
                push_text(&mut message, key);
                push_text(&mut message, " has a value that is not a name");
                return Err(Error::Config(message));
            },
            Some(s) => s,
        };
        let value = match T::from_name(spelled.as_str()) {
            None => {
                let mut message = text_of("binmap.toml: [sweep] ");
                push_text(&mut message, key);
                push_text(&mut message, " does not accept `");
                push_text(&mut message, spelled.as_str());
                push_char(&mut message, '`');
                proof { reveal_strlit("`"); }
                assert(message@ =~= not_accepted(key@, spelled@));
                return Err(Error::Config(message));
            },
            Some(v) => v,
        };
        let ghost before = parsed@;
        parsed.push(value);
        proof {
            match axis_from::<T>(views.skip(i + 1), key@) {
                Ok(rest) => {
                    assert(before + (seq![value] + rest) =~= parsed@ + rest);
                },
                Err(m) => {},
            }
        }
        i = i + 1;
    }
    assert(views.skip(i as int) =~= Seq::<SettingValueView>::empty());
    assert(parsed@ + Seq::<T>::empty() =~= parsed@);
    Ok(Some(parsed))
}

/// The integers among `vs`, each cut to 32 bits.
pub open spec fn integers_in(vs: Seq<SettingValueView>) -> Seq<u32>
    decreases vs.len(),
{
    if vs.len() == 0 {
        seq![]
    } else {
        match vs.last() {
            SettingValueView::Integer(n) => integers_in(vs.drop_last()).push(n as u32),
            _ => integers_in(vs.drop_last()),
        }
    }
}

/// The booleans among `vs`.
pub open spec fn booleans_in(vs: Seq<SettingValueView>) -> Seq<bool>
    decreases vs.len(),
{
    if vs.len() == 0 {
        seq![]
    } else {
        match vs.last() {
            SettingValueView::Boolean(b) => booleans_in(vs.drop_last()).push(b),
            _ => booleans_in(vs.drop_last()),
        }
    }
}

/// The strings among `vs`.
pub open spec fn texts_in(vs: Seq<SettingValueView>) -> Seq<Seq<char>>
    decreases vs.len(),
{
    if vs.len() == 0 {
        seq![]
    } else {
        match vs.last() {
            SettingValueView::Text(s) => texts_in(vs.drop_last()).push(s),
            _ => texts_in(vs.drop_last()),
        }
    }
}

fn integers_of(values: &Vec<SettingValue>) -> (r: Vec<u32>)
    ensures
        r@ == integers_in(values@.map_values(|x: SettingValue| x@)),
{
    let ghost views = values@.map_values(|x: SettingValue| x@);
    let mut r: Vec<u32> = Vec::new();
    let mut i: usize = 0;
    while i < values.len()
        invariant
            i <= values@.len(),
            views == values@.map_values(|x: SettingValue| x@),
            r@ == integers_in(views.take(i as int)),
        decreases values@.len() - i,
    {
        assert(views.take(i + 1).drop_last() =~= views.take(i as int));
        assert(views.take(i + 1).last() == values@[i as int]@);
        match &values[i] {
            SettingValue::Integer(n) => {
                r.push(*n as u32);
            },
            _ => {},
        }
        i = i + 1;
    }
    assert(views.take(values@.len() as int) =~= views);
    r
}

fn booleans_of(values: &Vec<SettingValue>) -> (r: Vec<bool>)
    ensures
        r@ == booleans_in(values@.map_values(|x: SettingValue| x@)),
{
    let ghost views = values@.map_values(|x: SettingValue| x@);
    let mut r: Vec<bool> = Vec::new();
    let mut i: usize = 0;
    while i < values.len()
        invariant
            i <= values@.len(),
            views == values@.map_values(|x: SettingValue| x@),
            r@ == booleans_in(views.take(i as int)),
        decreases values@.len() - i,
    {
        assert(views.take(i + 1).drop_last() =~= views.take(i as int));
        assert(views.take(i + 1).last() == values@[i as int]@);
        match &values[i] {
            SettingValue::Boolean(b) => {
                r.push(*b);
            },
            _ => {},
        }
        i = i + 1;
    }
    assert(views.take(values@.len() as int) =~= views);
    r
}

fn texts_of(values: &Vec<SettingValue>) -> (r: Vec<String>)
    ensures
        r@.map_values(|s: String| s@) == texts_in(values@.map_values(|x: SettingValue| x@)),
{
    let ghost views = values@.map_values(|x: SettingValue| x@);
    let mut r: Vec<String> = Vec::new();
    let mut i: usize = 0;
    while i < values.len()
        invariant
            i <= values@.len(),
            views == values@.map_values(|x: SettingValue| x@),
            r@.map_values(|s: String| s@) == texts_in(views.take(i as int)),
        decreases values@.len() - i,
    {
        assert(views.take(i + 1).drop_last() =~= views.take(i as int));
        assert(views.take(i + 1).last() == values@[i as int]@);
        match &values[i] {
            SettingValue::Text(s) => {
                let ghost before = r@;
                r.push(s.clone());
                assert(r@.map_values(|s: String| s@) =~= before.map_values(|s: String| s@).push(s@));
            },
            _ => {},
        }
        i = i + 1;
    }
    assert(views.take(values@.len() as int) =~= views);
    r
}

/// The first message among the five named axes of `[sweep]`, in the order
/// they are read.
pub open spec fn sweep_error(text: Seq<char>) -> Option<Seq<char>> {
    if axis_read::<OptLevel>(text, "opt-level"@) is Err {
        Some(axis_read::<OptLevel>(text, "opt-level"@)->Err_0)
    } else if axis_read::<Lto>(text, "lto"@) is Err {
        Some(axis_read::<Lto>(text, "lto"@)->Err_0)
    } else if axis_read::<PanicStrategy>(text, "panic"@) is Err {
        Some(axis_read::<PanicStrategy>(text, "panic"@)->Err_0)
    } else if axis_read::<Strip>(text, "strip"@) is Err {
        Some(axis_read::<Strip>(text, "strip"@)->Err_0)
    } else if axis_read::<DebugInfo>(text, "debug"@) is Err {
        Some(axis_read::<DebugInfo>(text, "debug"@)->Err_0)
    } else {
        None
    }
}

/// An axis after the file: its new values where the file lists them,
/// otherwise the old.
pub open spec fn axis_after<T: AxisValue>(text: Seq<char>, key: Seq<char>, old: Seq<T>) -> Seq<T> {
    match axis_read::<T>(text, key) {
        Ok(Some(v)) => v,
        _ => old,
    }
}

/// What `[sweep]` makes of a matrix, axis by axis, where it has no error.
pub open spec fn matrix_read(text: Seq<char>, old: ProjectConfig, new: ProjectConfig) -> bool {
    &&& new.matrix.opt_level@ == axis_after::<OptLevel>(text, "opt-level"@, old.matrix.opt_level@)
    &&& new.matrix.lto@ == axis_after::<Lto>(text, "lto"@, old.matrix.lto@)
    &&& new.matrix.panic@ == axis_after::<PanicStrategy>(text, "panic"@, old.matrix.panic@)
    &&& new.matrix.strip@ == axis_after::<Strip>(text, "strip"@, old.matrix.strip@)
    &&& new.matrix.debug@ == axis_after::<DebugInfo>(text, "debug"@, old.matrix.debug@)
    &&& new.matrix.codegen_units@ == match toml_array(text, "sweep"@, "codegen-units"@) {
        Some(vs) => integers_in(vs),
        None => old.matrix.codegen_units@,
    }
    &&& new.matrix.overflow_checks@ == match toml_array(text, "sweep"@, "overflow-checks"@) {
        Some(vs) => booleans_in(vs),
        None => old.matrix.overflow_checks@,
    }
    &&& new.matrix.target_cpu@.map_values(|s: String| s@) == match toml_array(text, "sweep"@, "target-cpu"@) {
        Some(vs) => texts_in(vs),
        None => old.matrix.target_cpu@.map_values(|s: String| s@),
    }
    &&& new.matrix.build_std@ == old.matrix.build_std@
}

/// The message for a `[benchmark]` with no program.
pub open spec fn no_program() -> Seq<char> {
    "binmap.toml: [benchmark] needs a `program`"@
}

/// The path of the settings file under `root`.
pub open spec fn settings_path(root: Seq<char>) -> Seq<char> {
    path_join(root, "binmap.toml"@)
}

/// Everything but the matrix, the benchmark and the parallelism is as it was.
pub open spec fn rest_unchanged(old: ProjectConfig, new: ProjectConfig) -> bool {
    &&& new.root == old.root
    &&& new.package == old.package
    &&& new.target == old.target
    &&& new.test_command == old.test_command
    &&& new.target_directory == old.target_directory
    &&& new.trust_tier == old.trust_tier
}

fn read_matrix(d: &SettingsDocument, config: &mut ProjectConfig) -> (r: Result<(), Error>)
    requires
        toml_section(d@, "sweep"@),
    ensures
        match sweep_error(d@) {
            Some(m) => (r matches Err(Error::Config(n)) && n@ == m) && *final(config) == *old(config),
            None => r is Ok && matrix_read(d@, *old(config), *final(config)),
        },
        final(config).benchmark == old(config).benchmark,
        final(config).parallelism == old(config).parallelism,
        rest_unchanged(*old(config), *final(config)),
{
    let opt = read_axis::<OptLevel>(d, "opt-level")?;
    let lto = read_axis::<Lto>(d, "lto")?;
    let panic = read_axis::<PanicStrategy>(d, "panic")?;
    let strip = read_axis::<Strip>(d, "strip")?;
    let debug = read_axis::<DebugInfo>(d, "debug")?;
    if let Some(v) = opt {
        config.matrix.opt_level = v;
    }
    if let Some(v) = lto {
        config.matrix.lto = v;
    }
    if let Some(v) = panic {
        config.matrix.panic = v;
    }
    if let Some(v) = strip {
        config.matrix.strip = v;
    }
    if let Some(v) = debug {
        config.matrix.debug = v;
    }
    if let Some(values) = section_array(d, "sweep", "codegen-units") {
        config.matrix.codegen_units = integers_of(&values);
    }
    if let Some(values) = section_array(d, "sweep", "overflow-checks") {
        config.matrix.overflow_checks = booleans_of(&values);
    }
    if let Some(values) = section_array(d, "sweep", "target-cpu") {
        config.matrix.target_cpu = texts_of(&values);
    }
    Ok(())
}

/// The benchmark `[benchmark]` declares: its program, its arguments (the
/// strings among them, or none), and its samples (at least three, ten where
/// none are given).
pub open spec fn benchmark_read(text: Seq<char>, b: BenchmarkCommand) -> bool {
    &&& toml_text(text, "benchmark"@, "program"@) == Some(b.program@)
    &&& b.arguments@.map_values(|s: String| s@) == match toml_array(text, "benchmark"@, "arguments"@) {
        Some(vs) => texts_in(vs),
        None => Seq::<Seq<char>>::empty(),
    }
    &&& b.samples == match toml_integer(text, "benchmark"@, "samples"@) {
        Some(n) => (if n >= 3 { n } else { 3 }) as u32,
        None => 10u32,
    }
}

/// What loading the settings text `t` does to a config, and what it
/// returns.
pub open spec fn settings_applied(t: Seq<char>, old: ProjectConfig, new: ProjectConfig, r: Result<bool, Error>) -> bool {
    if !toml_parses(t) {
        &&& r matches Err(Error::Config(m)) && m@ == settings_path(old.root@) + ": "@ + toml_error(t)
        &&& new == old
    } else if toml_section(t, "sweep"@) && sweep_error(t) is Some {
        &&& r matches Err(Error::Config(m)) && Some(m@) == sweep_error(t)
        &&& new == old
    } else {
        &&& (toml_section(t, "sweep"@) ==> matrix_read(t, old, new))
        &&& (!toml_section(t, "sweep"@) ==> new.matrix == old.matrix)
        &&& if toml_section(t, "benchmark"@) && toml_text(t, "benchmark"@, "program"@) is None {
            &&& r matches Err(Error::Config(m)) && m@ == no_program()
            &&& new.benchmark == old.benchmark
            &&& new.parallelism == old.parallelism
        } else {
            &&& r == Ok::<bool, Error>(true)
            &&& (toml_section(t, "benchmark"@) ==> (new.benchmark matches Some(b) && benchmark_read(t, b)))
            &&& (!toml_section(t, "benchmark"@) ==> new.benchmark == old.benchmark)
            &&& new.parallelism == match toml_item_integer(t, "sweep"@, "parallelism"@) {
                Some(n) => (if n >= 1 { n } else { 1 }) as usize,
                None => old.parallelism,
            }
        }
    }
}

/// Load `binmap.toml` over a config, given the file's text where the
/// project has one.
///
/// Returns whether anything was read, so the interface can say "using your
/// binmap.toml" rather than leaving the user guessing whether it was found.
/// The sections are read in order: a refused axis leaves the config as it
/// was; a benchmark without a program is refused after the matrix has been
/// read.
pub fn apply(config: &mut ProjectConfig, text: Option<String>) -> (r: Result<bool, Error>)
    ensures
        rest_unchanged(*old(config), *final(config)),
        match text {
            None => r == Ok::<bool, Error>(false) && *final(config) == *old(config),
            Some(t) => settings_applied(t@, *old(config), *final(config), r),
        },
{
    let text = match text {
        None => return Ok(false),
        Some(text) => text,
    };
    let document = match parse_document(text) {
        Ok(d) => d,
        Err(reason) => {
            let mut message = crate::text::join_path(config.root.as_str(), FILE);
            push_text(&mut message, ": ");
            push_text(&mut message, reason.as_str());
            return Err(Error::Config(message));
        },
    };
    if has_section(&document, "sweep") {
        read_matrix(&document, config)?;
    }
    if has_section(&document, "benchmark") {
        let program = match section_text(&document, "benchmark", "program") {
            Some(p) => p,
            None => return Err(Error::Config(text_of("binmap.toml: [benchmark] needs a `program`"))),
        };
        let arguments = match section_array(&document, "benchmark", "arguments") {
            Some(values) => texts_of(&values),
            None => {
                let none: Vec<String> = Vec::new();
                assert(none@.map_values(|s: String| s@) =~= Seq::<Seq<char>>::empty());
                none
            },
        };
        let samples: u32 = match section_integer(&document, "benchmark", "samples") {
            Some(n) => (if n >= 3 { n } else { 3 }) as u32,
            None => 10,
        };
        config.benchmark = Some(BenchmarkCommand { program, arguments, samples });
    }
    if let Some(parallelism) = item_integer(&document, "sweep", "parallelism") {
        config.parallelism = (if parallelism >= 1 { parallelism } else { 1 }) as usize;
    }
    Ok(true)
}

/// Every axis value reads back from its own spelling, the one the
/// configuration's name, settings and environment use: writing a value out
/// and reading it in again gives the same value, on every axis.
pub proof fn lemma_axis_spellings_read_back(o: OptLevel, l: Lto, p: PanicStrategy, s: Strip, d: DebugInfo)
    ensures
        OptLevel::named(opt_level_text(o)) == Some(o),
        Lto::named(lto_text(l)) == Some(l),
        PanicStrategy::named(panic_text(p)) == Some(p),
        Strip::named(strip_text(s)) == Some(s),
        DebugInfo::named(debug_text(d)) == Some(d),
{
    reveal_strlit("0");
    assert("0"@.len() == 1);
    assert("0"@[0] == '0');
    reveal_strlit("1");
    assert("1"@.len() == 1);
    assert("1"@[0] == '1');
    reveal_strlit("2");
    assert("2"@.len() == 1);
    assert("2"@[0] == '2');
    reveal_strlit("3");
    assert("3"@.len() == 1);
    assert("3"@[0] == '3');
    reveal_strlit("s");
    assert("s"@.len() == 1);
    assert("s"@[0] == 's');
    reveal_strlit("z");
    assert("z"@.len() == 1);
    assert("z"@[0] == 'z');
    reveal_strlit("false");
    assert("false"@.len() == 5);
    assert("false"@[0] == 'f');
    assert("false"@[1] == 'a');
    reveal_strlit("off");
    assert("off"@.len() == 3);
    assert("off"@[0] == 'o');
    assert("off"@[1] == 'f');
    reveal_strlit("thin");
    assert("thin"@.len() == 4);
    assert("thin"@[0] == 't');
    assert("thin"@[1] == 'h');
    reveal_strlit("fat");
    assert("fat"@.len() == 3);
    assert("fat"@[0] == 'f');
    assert("fat"@[1] == 'a');
    reveal_strlit("true");
    assert("true"@.len() == 4);
    assert("true"@[0] == 't');
    assert("true"@[1] == 'r');
    reveal_strlit("unwind");
    assert("unwind"@.len() == 6);
    assert("unwind"@[0] == 'u');
    assert("unwind"@[1] == 'n');
    reveal_strlit("abort");
    assert("abort"@.len() == 5);
    assert("abort"@[0] == 'a');
    assert("abort"@[1] == 'b');
    reveal_strlit("none");
    assert("none"@.len() == 4);
    assert("none"@[0] == 'n');
    assert("none"@[1] == 'o');
    reveal_strlit("debuginfo");
    assert("debuginfo"@.len() == 9);
    assert("debuginfo"@[0] == 'd');
    assert("debuginfo"@[1] == 'e');
    reveal_strlit("symbols");
    assert("symbols"@.len() == 7);
    assert("symbols"@[0] == 's');
    assert("symbols"@[1] == 'y');
    reveal_strlit("line-tables-only");
    assert("line-tables-only"@.len() == 16);
    assert("line-tables-only"@[0] == 'l');
    assert("line-tables-only"@[1] == 'i');
    reveal_strlit("limited");
    assert("limited"@.len() == 7);
    assert("limited"@[0] == 'l');
    assert("limited"@[1] == 'i');
    reveal_strlit("full");
    assert("full"@.len() == 4);
    assert("full"@[0] == 'f');
    assert("full"@[1] == 'u');
}

} // verus!
