//! One resolved point in the sweep matrix.
//!
//! A [`SweepMatrix`] describes a space; a [`BuildConfiguration`] is a single
//! point in it, and it knows how to state itself both to cargo and to a
//! person.

use crate::config::{
    build_std_toml, debug_text, debug_toml, lto_text, lto_toml, opt_level_text, opt_level_toml,
    panic_text, panic_toml, strip_text, strip_toml, axis_size, BuildStd, DebugInfo, Lto, OptLevel,
    PanicStrategy, Strip, SweepMatrix, is_default_matrix,
};
use crate::evidence::clone_text_option;
use crate::text::{chars_of, decimal, decimal_string, join, join_strings, push_char, push_text, text_of};
use vstd::prelude::*;

verus! {

/// A configuration cargo can be asked to build.
///
/// Every field is optional: `None` means "leave the profile's own value
/// alone", which is what makes a one-axis sweep possible without restating the
/// whole profile.
#[derive(Debug, PartialEq, Eq, PartialOrd, Ord, Hash)]
pub struct BuildConfiguration {
    pub opt_level: Option<OptLevel>,
    pub lto: Option<Lto>,
    pub codegen_units: Option<u32>,
    pub panic: Option<PanicStrategy>,
    pub strip: Option<Strip>,
    pub debug: Option<DebugInfo>,
    pub overflow_checks: Option<bool>,
    pub build_std: Option<BuildStd>,
    pub target_cpu: Option<String>,
}

/// The configuration that sets nothing.
pub open spec fn unset() -> BuildConfiguration {
    BuildConfiguration {
        opt_level: None,
        lto: None,
        codegen_units: None,
        panic: None,
        strip: None,
        debug: None,
        overflow_checks: None,
        build_std: None,
        target_cpu: None,
    }
}

impl Default for BuildConfiguration {
    fn default() -> (c: Self)
        ensures
            c == unset(),
    {
        BuildConfiguration {
            opt_level: None,
            lto: None,
            codegen_units: None,
            panic: None,
            strip: None,
            debug: None,
            overflow_checks: None,
            build_std: None,
            target_cpu: None,
        }
    }
}

impl Clone for BuildConfiguration {
    fn clone(&self) -> (c: Self)
        ensures
            c == *self,
    {
        BuildConfiguration {
            opt_level: self.opt_level,
            lto: self.lto,
            codegen_units: self.codegen_units,
            panic: self.panic,
            strip: self.strip,
            debug: self.debug,
            overflow_checks: self.overflow_checks,
            build_std: self.build_std,
            target_cpu: clone_text_option(&self.target_cpu),
        }
    }
}

pub open spec fn bool_text(b: bool) -> Seq<char> {
    if b { "true"@ } else { "false"@ }
}

fn bool_string(b: bool) -> (s: String)
    ensures
        s@ == bool_text(b),
{
    if b { text_of("true") } else { text_of("false") }
}

/// A one-row table for an axis: the row when the axis is set, nothing when it
/// is not.
pub open spec fn row(key: Seq<char>, value: Option<Seq<char>>) -> Seq<(Seq<char>, Seq<char>)> {
    match value {
        Some(v) => seq![(key, v)],
        None => seq![],
    }
}

pub open spec fn opt_level_shown(o: Option<OptLevel>) -> Option<Seq<char>> {
    match o { Some(v) => Some(opt_level_text(v)), None => None }
}

pub open spec fn lto_shown(o: Option<Lto>) -> Option<Seq<char>> {
    match o { Some(v) => Some(lto_text(v)), None => None }
}

pub open spec fn units_shown(o: Option<u32>) -> Option<Seq<char>> {
    match o { Some(v) => Some(decimal(v as nat)), None => None }
}

pub open spec fn panic_shown(o: Option<PanicStrategy>) -> Option<Seq<char>> {
    match o { Some(v) => Some(panic_text(v)), None => None }
}

pub open spec fn strip_shown(o: Option<Strip>) -> Option<Seq<char>> {
    match o { Some(v) => Some(strip_text(v)), None => None }
}

pub open spec fn debug_shown(o: Option<DebugInfo>) -> Option<Seq<char>> {
    match o { Some(v) => Some(debug_text(v)), None => None }
}

pub open spec fn bool_shown(o: Option<bool>) -> Option<Seq<char>> {
    match o { Some(v) => Some(bool_text(v)), None => None }
}

pub open spec fn build_std_shown(o: Option<BuildStd>) -> Option<Seq<char>> {
    match o { Some(v) => Some(build_std_toml(v)), None => None }
}

pub open spec fn opt_view(o: Option<String>) -> Option<Seq<char>> {
    match o { Some(v) => Some(v@), None => None }
}

/// The `(axis, value)` rows of a configuration: only the axes it sets, in
/// axis order, values unquoted.
pub open spec fn settings_of(c: BuildConfiguration) -> Seq<(Seq<char>, Seq<char>)> {
    row("opt-level"@, opt_level_shown(c.opt_level))
        + row("lto"@, lto_shown(c.lto))
        + row("codegen-units"@, units_shown(c.codegen_units))
        + row("panic"@, panic_shown(c.panic))
        + row("strip"@, strip_shown(c.strip))
        + row("debug"@, debug_shown(c.debug))
        + row("overflow-checks"@, bool_shown(c.overflow_checks))
        + row("build-std"@, build_std_shown(c.build_std))
        + row("target-cpu"@, opt_view(c.target_cpu))
}

/// The environment that puts a configuration into effect, in key order. Cargo
/// reads `CARGO_PROFILE_RELEASE_<SETTING>`, the setting uppercased with
/// hyphens as underscores, and the values unquoted.
pub open spec fn profile_env_of(c: BuildConfiguration) -> Seq<(Seq<char>, Seq<char>)> {
    row("CARGO_PROFILE_RELEASE_CODEGEN_UNITS"@, units_shown(c.codegen_units))
        + row("CARGO_PROFILE_RELEASE_DEBUG"@, debug_shown(c.debug))
        + row("CARGO_PROFILE_RELEASE_LTO"@, lto_shown(c.lto))
        + row("CARGO_PROFILE_RELEASE_OPT_LEVEL"@, opt_level_shown(c.opt_level))
        + row("CARGO_PROFILE_RELEASE_OVERFLOW_CHECKS"@, bool_shown(c.overflow_checks))
        + row("CARGO_PROFILE_RELEASE_PANIC"@, panic_shown(c.panic))
        + row("CARGO_PROFILE_RELEASE_STRIP"@, strip_shown(c.strip))
}

/// The `--config` pair for one axis.
pub open spec fn config_arg(key: Seq<char>, value: Option<Seq<char>>) -> Seq<Seq<char>> {
    match value {
        Some(v) => seq!["--config"@, "profile.release."@ + key + "="@ + v],
        None => seq![],
    }
}

/// The `--config` arguments, each value in its TOML spelling.
pub open spec fn config_args_of(c: BuildConfiguration) -> Seq<Seq<char>> {
    config_arg("opt-level"@, match c.opt_level { Some(v) => Some(opt_level_toml(v)), None => None })
        + config_arg("lto"@, match c.lto { Some(v) => Some(lto_toml(v)), None => None })
        + config_arg("codegen-units"@, units_shown(c.codegen_units))
        + config_arg("panic"@, match c.panic { Some(v) => Some(panic_toml(v)), None => None })
        + config_arg("strip"@, match c.strip { Some(v) => Some(strip_toml(v)), None => None })
        + config_arg("debug"@, match c.debug { Some(v) => Some(debug_toml(v)), None => None })
        + config_arg("overflow-checks"@, bool_shown(c.overflow_checks))
}

pub open spec fn rustflags_of(c: BuildConfiguration) -> Seq<Seq<char>> {
    match c.target_cpu {
        Some(cpu) => seq!["-Ctarget-cpu="@ + cpu@],
        None => seq![],
    }
}

pub open spec fn unstable_args_of(c: BuildConfiguration) -> Seq<Seq<char>> {
    match c.build_std {
        Some(BuildStd::Core) => seq!["-Zbuild-std="@ + build_std_toml(BuildStd::Core)],
        Some(BuildStd::PanicImmediateAbort) => seq!["-Zbuild-std="@ + build_std_toml(BuildStd::PanicImmediateAbort)],
        _ => seq![],
    }
}

pub open spec fn is_ascii_alnum(c: char) -> bool {
    ('0' <= c && c <= '9') || ('a' <= c && c <= 'z') || ('A' <= c && c <= 'Z')
}

/// The first character of every non-empty hyphen-separated part of `s`.
pub open spec fn initials(s: Seq<char>) -> Seq<char>
    decreases s.len(),
{
    if s.len() == 0 {
        seq![]
    } else {
        let i = s.len() - 1;
        if s[i] != '-' && (i == 0 || s[i - 1] == '-') {
            initials(s.drop_last()).push(s[i])
        } else {
            initials(s.drop_last())
        }
    }
}

/// The ASCII letters and digits of `s`, in order.
pub open spec fn alnum_chars(s: Seq<char>) -> Seq<char>
    decreases s.len(),
{
    if s.len() == 0 {
        seq![]
    } else if is_ascii_alnum(s.last()) {
        alnum_chars(s.drop_last()).push(s.last())
    } else {
        alnum_chars(s.drop_last())
    }
}

/// At most the first `n` characters of `s`.
pub open spec fn first_n(s: Seq<char>, n: nat) -> Seq<char> {
    if s.len() <= n { s } else { s.take(n as int) }
}

/// One row's part of a configuration name: the axis's initials, then at most
/// six letters and digits of the value.
pub open spec fn name_part(r: (Seq<char>, Seq<char>)) -> Seq<char> {
    initials(r.0) + first_n(alnum_chars(r.1), 6)
}

pub open spec fn name_of(c: BuildConfiguration) -> Seq<char> {
    let rows = settings_of(c);
    if rows.len() == 0 {
        "profile-default"@
    } else {
        join(rows.map_values(|r: (Seq<char>, Seq<char>)| name_part(r)), "-"@)
    }
}

pub open spec fn describe_of(c: BuildConfiguration) -> Seq<char> {
    let rows = settings_of(c);
    if rows.len() == 0 {
        "the profile's own settings"@
    } else {
        join(rows.map_values(|r: (Seq<char>, Seq<char>)| r.0 + "="@ + r.1), " "@)
    }
}

/// The values one axis contributes to the product: each value it lists, or
/// the profile's own value where it lists none.
pub open spec fn axis_values<T>(s: Seq<T>) -> Seq<Option<T>> {
    if s.len() == 0 { seq![None] } else { s.map_values(|v: T| Some(v)) }
}

/// The `k`th configuration of the matrix's product, counting with the last
/// axis (`target-cpu`) varying fastest and the first (`opt-level`) slowest.
pub open spec fn config_at(m: SweepMatrix, k: nat) -> BuildConfiguration {
    let n9 = axis_size(m.target_cpu@.len());
    let n8 = axis_size(m.build_std@.len());
    let n7 = axis_size(m.overflow_checks@.len());
    let n6 = axis_size(m.debug@.len());
    let n5 = axis_size(m.strip@.len());
    let n4 = axis_size(m.panic@.len());
    let n3 = axis_size(m.codegen_units@.len());
    let n2 = axis_size(m.lto@.len());
    let n1 = axis_size(m.opt_level@.len());
    let r8 = k / n9;
    let r7 = r8 / n8;
    let r6 = r7 / n7;
    let r5 = r6 / n6;
    let r4 = r5 / n5;
    let r3 = r4 / n4;
    let r2 = r3 / n3;
    let r1 = r2 / n2;
    BuildConfiguration {
        opt_level: axis_values(m.opt_level@)[(r1 % n1) as int],
        lto: axis_values(m.lto@)[(r2 % n2) as int],
        codegen_units: axis_values(m.codegen_units@)[(r3 % n3) as int],
        panic: axis_values(m.panic@)[(r4 % n4) as int],
        strip: axis_values(m.strip@)[(r5 % n5) as int],
        debug: axis_values(m.debug@)[(r6 % n6) as int],
        overflow_checks: axis_values(m.overflow_checks@)[(r7 % n7) as int],
        build_std: axis_values(m.build_std@)[(r8 % n8) as int],
        target_cpu: axis_values(m.target_cpu@)[(k % n9) as int],
    }
}

/// Every axis of the matrix lists each of its values at most once.
pub open spec fn axes_without_repeats(m: SweepMatrix) -> bool {
    &&& m.opt_level@.no_duplicates()
    &&& m.lto@.no_duplicates()
    &&& m.codegen_units@.no_duplicates()
    &&& m.panic@.no_duplicates()
    &&& m.strip@.no_duplicates()
    &&& m.debug@.no_duplicates()
    &&& m.overflow_checks@.no_duplicates()
    &&& m.build_std@.no_duplicates()
    &&& m.target_cpu@.no_duplicates()
}

/// The default matrix repeats no value on any axis, so its expansion has no
/// configuration twice.
pub proof fn lemma_default_axes_without_repeats(m: SweepMatrix)
    requires
        is_default_matrix(m),
    ensures
        axes_without_repeats(m),
{
    assert(m.opt_level@.no_duplicates());
    assert(m.lto@.no_duplicates());
    assert(m.codegen_units@.no_duplicates());
    assert(m.panic@.no_duplicates());
    assert(m.strip@.no_duplicates());
}

/// On an axis without repeats, a value picked from it names its position.
proof fn lemma_axis_pick_injective<T>(s: Seq<T>, i: int, j: int)
    requires
        s.no_duplicates(),
        0 <= i < axis_size(s.len()),
        0 <= j < axis_size(s.len()),
        axis_values(s)[i] == axis_values(s)[j],
    ensures
        i == j,
{
    if s.len() != 0 {
        assert(axis_values(s)[i] == Some(s[i]));
        assert(axis_values(s)[j] == Some(s[j]));
    }
}

/// A number is fixed by its quotient and remainder.
proof fn lemma_quotient_remainder_fix(x: int, y: int, n: int)
    requires
        n > 0,
        x / n == y / n,
        x % n == y % n,
    ensures
        x == y,
{
    vstd::arithmetic::div_mod::lemma_fundamental_div_mod(x, n);
    vstd::arithmetic::div_mod::lemma_fundamental_div_mod(y, n);
}

/// Below `a * b`, the quotient by `b` stays below `a`.
proof fn lemma_quotient_below(x: int, a: int, b: int)
    requires
        0 <= x < a * b,
        b > 0,
    ensures
        0 <= x / b < a,
{
    vstd::arithmetic::div_mod::lemma_fundamental_div_mod(x, b);
    vstd::arithmetic::div_mod::lemma_div_pos_is_pos(x, b);
    vstd::arithmetic::div_mod::lemma_mod_bound(x, b);
    assert(x / b < a) by (nonlinear_arith)
        requires
            x == b * (x / b) + x % b,
            0 <= x % b,
            x < a * b,
            b > 0,
    ;
}

/// Two positions of the product that give the same configuration are the
/// same position, when no axis repeats a value.
pub proof fn lemma_config_at_injective(m: SweepMatrix, j: nat, k: nat)
    requires
        axes_without_repeats(m),
        j < m.spec_cardinality(),
        k < m.spec_cardinality(),
        config_at(m, j) == config_at(m, k),
    ensures
        j == k,
{
    broadcast use vstd::arithmetic::div_mod::lemma_mod_bound;
    let n9 = axis_size(m.target_cpu@.len()) as int;
    let n8 = axis_size(m.build_std@.len()) as int;
    let n7 = axis_size(m.overflow_checks@.len()) as int;
    let n6 = axis_size(m.debug@.len()) as int;
    let n5 = axis_size(m.strip@.len()) as int;
    let n4 = axis_size(m.panic@.len()) as int;
    let n3 = axis_size(m.codegen_units@.len()) as int;
    let n2 = axis_size(m.lto@.len()) as int;
    let n1 = axis_size(m.opt_level@.len()) as int;
    let p2 = n1 * n2;
    let p3 = p2 * n3;
    let p4 = p3 * n4;
    let p5 = p4 * n5;
    let p6 = p5 * n6;
    let p7 = p6 * n7;
    let p8 = p7 * n8;
    assert(m.spec_cardinality() == p8 * n9);
    let a = config_at(m, j);
    let b = config_at(m, k);
    // The digits of `j`, from the fastest axis to the slowest.
    let j8 = j as int / n9;
    let j7 = j8 / n8;
    let j6 = j7 / n7;
    let j5 = j6 / n6;
    let j4 = j5 / n5;
    let j3 = j4 / n4;
    let j2 = j3 / n3;
    let j1 = j2 / n2;
    let k8 = k as int / n9;
    let k7 = k8 / n8;
    let k6 = k7 / n7;
    let k5 = k6 / n6;
    let k4 = k5 / n5;
    let k3 = k4 / n4;
    let k2 = k3 / n3;
    let k1 = k2 / n2;
    lemma_quotient_below(j as int, p8, n9);
    lemma_quotient_below(j8, p7, n8);
    lemma_quotient_below(j7, p6, n7);
    lemma_quotient_below(j6, p5, n6);
    lemma_quotient_below(j5, p4, n5);
    lemma_quotient_below(j4, p3, n4);
    lemma_quotient_below(j3, p2, n3);
    lemma_quotient_below(j2, n1, n2);
    lemma_quotient_below(k as int, p8, n9);
    lemma_quotient_below(k8, p7, n8);
    lemma_quotient_below(k7, p6, n7);
    lemma_quotient_below(k6, p5, n6);
    lemma_quotient_below(k5, p4, n5);
    lemma_quotient_below(k4, p3, n4);
    lemma_quotient_below(k3, p2, n3);
    lemma_quotient_below(k2, n1, n2);
    vstd::arithmetic::div_mod::lemma_basic_div(j1, n1);
    vstd::arithmetic::div_mod::lemma_basic_div(k1, n1);
    assert(a.opt_level == axis_values(m.opt_level@)[j1 % n1]);
    assert(b.opt_level == axis_values(m.opt_level@)[k1 % n1]);
    lemma_axis_pick_injective(m.opt_level@, j1 % n1, k1 % n1);
    lemma_quotient_remainder_fix(j1, k1, n1);
    lemma_axis_pick_injective(m.lto@, j2 % n2, k2 % n2);
    lemma_quotient_remainder_fix(j2, k2, n2);
    lemma_axis_pick_injective(m.codegen_units@, j3 % n3, k3 % n3);
    lemma_quotient_remainder_fix(j3, k3, n3);
    lemma_axis_pick_injective(m.panic@, j4 % n4, k4 % n4);
    lemma_quotient_remainder_fix(j4, k4, n4);
    lemma_axis_pick_injective(m.strip@, j5 % n5, k5 % n5);
    lemma_quotient_remainder_fix(j5, k5, n5);
    lemma_axis_pick_injective(m.debug@, j6 % n6, k6 % n6);
    lemma_quotient_remainder_fix(j6, k6, n6);
    lemma_axis_pick_injective(m.overflow_checks@, j7 % n7, k7 % n7);
    lemma_quotient_remainder_fix(j7, k7, n7);
    lemma_axis_pick_injective(m.build_std@, j8 % n8, k8 % n8);
    lemma_quotient_remainder_fix(j8, k8, n8);
    lemma_axis_pick_injective(m.target_cpu@, j as int % n9, k as int % n9);
    lemma_quotient_remainder_fix(j as int, k as int, n9);
}

pub open spec fn pair_view(p: (String, String)) -> (Seq<char>, Seq<char>) {
    (p.0@, p.1@)
}

pub open spec fn row_view(p: (&str, String)) -> (Seq<char>, Seq<char>) {
    (p.0@, p.1@)
}

fn add_pair(out: &mut Vec<(String, String)>, key: &str, value: Option<String>)
    ensures
        final(out)@.map_values(|p: (String, String)| pair_view(p))
            == old(out)@.map_values(|p: (String, String)| pair_view(p)) + row(key@, opt_view(value)),
{
    let ghost before = out@.map_values(|p: (String, String)| pair_view(p));
    match value {
        Some(v) => {
            out.push((text_of(key), v));
        },
        None => {},
    }
    assert(out@.map_values(|p: (String, String)| pair_view(p)) =~= before + row(key@, opt_view(value)));
}

fn add_row<'a>(rows: &mut Vec<(&'a str, String)>, axis: &'a str, value: Option<String>)
    ensures
        final(rows)@.map_values(|p: (&str, String)| row_view(p))
            == old(rows)@.map_values(|p: (&str, String)| row_view(p)) + row(axis@, opt_view(value)),
{
    let ghost before = rows@.map_values(|p: (&str, String)| row_view(p));
    match value {
        Some(v) => {
            rows.push((axis, v));
        },
        None => {},
    }
    assert(rows@.map_values(|p: (&str, String)| row_view(p)) =~= before + row(axis@, opt_view(value)));
}

fn add_config(args: &mut Vec<String>, key: &str, value: Option<String>)
    ensures
        final(args)@.map_values(|s: String| s@) == old(args)@.map_values(|s: String| s@) + config_arg(key@, opt_view(value)),
{
    let ghost before = args@.map_values(|s: String| s@);
    match value {
        Some(v) => {
            args.push(text_of("--config"));
            let mut setting = text_of("profile.release.");
            push_text(&mut setting, key);
            push_char(&mut setting, '=');
            push_text(&mut setting, v.as_str());
            proof { reveal_strlit("="); }
            assert(setting@ =~= "profile.release."@ + key@ + "="@ + v@);
            args.push(setting);
        },
        None => {},
    }
    assert(args@.map_values(|s: String| s@) =~= before + config_arg(key@, opt_view(value)));
}

fn opt_level_value(o: Option<OptLevel>) -> (r: Option<String>)
    ensures
        opt_view(r) == opt_level_shown(o),
{
    match o { Some(v) => Some(v.to_string()), None => None }
}

fn lto_value(o: Option<Lto>) -> (r: Option<String>)
    ensures
        opt_view(r) == lto_shown(o),
{
    match o { Some(v) => Some(v.to_string()), None => None }
}

fn units_value(o: Option<u32>) -> (r: Option<String>)
    ensures
        opt_view(r) == units_shown(o),
{
    match o { Some(v) => Some(decimal_string(v as u64)), None => None }
}

fn panic_value(o: Option<PanicStrategy>) -> (r: Option<String>)
    ensures
        opt_view(r) == panic_shown(o),
{
    match o { Some(v) => Some(v.to_string()), None => None }
}

fn strip_value(o: Option<Strip>) -> (r: Option<String>)
    ensures
        opt_view(r) == strip_shown(o),
{
    match o { Some(v) => Some(v.to_string()), None => None }
}

fn debug_value(o: Option<DebugInfo>) -> (r: Option<String>)
    ensures
        opt_view(r) == debug_shown(o),
{
    match o { Some(v) => Some(v.to_string()), None => None }
}

fn bool_value(o: Option<bool>) -> (r: Option<String>)
    ensures
        opt_view(r) == bool_shown(o),
{
    match o { Some(v) => Some(bool_string(v)), None => None }
}

fn build_std_value(o: Option<BuildStd>) -> (r: Option<String>)
    ensures
        opt_view(r) == build_std_shown(o),
{
    match o { Some(v) => Some(v.to_string()), None => None }
}

fn toml_value(s: &str) -> (r: Option<String>)
    ensures
        opt_view(r) == Some(s@),
{
    Some(text_of(s))
}

fn axis_len(len: usize) -> (n: usize)
    ensures
        n == axis_size(len as nat),
{
    if len == 0 { 1 } else { len }
}

fn pick<T: Copy>(values: &Vec<T>, i: usize) -> (r: Option<T>)
    requires
        i < axis_size(values@.len()),
    ensures
        r == axis_values(values@)[i as int],
{
    if values.len() == 0 { None } else { Some(values[i]) }
}

fn pick_text(values: &Vec<String>, i: usize) -> (r: Option<String>)
    requires
        i < axis_size(values@.len()),
    ensures
        r == axis_values(values@)[i as int],
{
    if values.len() == 0 { None } else { Some(values[i].clone()) }
}

/// The initials of the hyphen-separated parts of `s`.
fn initials_of(s: &str) -> (r: String)
    ensures
        r@ == initials(s@),
{
    let c = chars_of(s);
    let mut r = String::new();
    let mut i: usize = 0;
    while i < c.len()
        invariant
            c@ == s@,
            i <= c@.len(),
            r@ == initials(s@.take(i as int)),
        decreases c@.len() - i,
    {
        let ghost t = s@.take(i + 1);
        assert(t.drop_last() =~= s@.take(i as int));
        assert(t[i as int] == c@[i as int]);
        assert(i > 0 ==> t[i - 1] == c@[i - 1]);
        if c[i] != '-' && (i == 0 || c[i - 1] == '-') {
            push_char(&mut r, c[i]);
        }
        i = i + 1;
    }
    assert(s@.take(c@.len() as int) =~= s@);
    r
}

/// At most `n` of the ASCII letters and digits of `s`, in order.
fn alnum_prefix(s: &str, n: usize) -> (r: String)
    ensures
        r@ == first_n(alnum_chars(s@), n as nat),
{
    let c = chars_of(s);
    let mut r = String::new();
    let mut count: usize = 0;
    let mut i: usize = 0;
    while i < c.len()
        invariant
            c@ == s@,
            i <= c@.len(),
            r@ == first_n(alnum_chars(s@.take(i as int)), n as nat),
            count == r@.len(),
        decreases c@.len() - i,
    {
        let ghost before = alnum_chars(s@.take(i as int));
        let ghost t = s@.take(i + 1);
        assert(t.drop_last() =~= s@.take(i as int));
        assert(t.last() == c@[i as int]);
        let ch = c[i];
        if ('0' <= ch && ch <= '9') || ('a' <= ch && ch <= 'z') || ('A' <= ch && ch <= 'Z') {
            assert(alnum_chars(t) == before.push(ch));
            if count < n {
                push_char(&mut r, ch);
                count = count + 1;
                assert(r@ =~= first_n(before.push(ch), n as nat));
            } else {
                assert(before.len() >= n);
                assert(first_n(before.push(ch), n as nat) =~= first_n(before, n as nat));
            }
        }
        i = i + 1;
    }
    assert(s@.take(c@.len() as int) =~= s@);
    r
}

impl BuildConfiguration {
    /// What `cargo build --release` does with no help from us. The baseline
    /// every result is stated against.
    ///
    /// It sets **nothing**, and that is the point. Writing out cargo's
    /// documented release defaults instead looks equivalent and is not: cargo
    /// strips debuginfo in release by default, so passing an explicit
    /// `strip = "none"` produces a binary several times larger than the one the
    /// user actually ships, and every reduction stated against it would be a
    /// wrong number delivered confidently. The only baseline we can defend is
    /// the build the user would get without us.
    pub fn default_release() -> (c: Self)
        ensures
            c == unset(),
    {
        Self::default()
    }

    /// Cargo's documented release defaults, written out.
    ///
    /// Useful for showing a user what a profile currently implies. Never a
    /// baseline: see [`default_release`](Self::default_release).
    pub fn documented_release_defaults() -> (c: Self)
        ensures
            c == (BuildConfiguration {
                opt_level: Some(OptLevel::Three),
                lto: Some(Lto::Off),
                codegen_units: Some(16),
                panic: Some(PanicStrategy::Unwind),
                strip: Some(Strip::Nothing),
                debug: Some(DebugInfo::Nothing),
                overflow_checks: Some(false),
                build_std: None,
                target_cpu: None,
            }),
    {
        BuildConfiguration {
            opt_level: Some(OptLevel::Three),
            lto: Some(Lto::Off),
            codegen_units: Some(16),
            panic: Some(PanicStrategy::Unwind),
            strip: Some(Strip::Nothing),
            debug: Some(DebugInfo::Nothing),
            overflow_checks: Some(false),
            build_std: None,
            target_cpu: None,
        }
    }

    /// The environment that puts this configuration into effect without
    /// editing the user's `Cargo.toml`, as `(variable, value)` pairs in
    /// variable order.
    ///
    /// This is the primary mechanism. Cargo reads profile settings from
    /// `CARGO_PROFILE_<PROFILE>_<SETTING>`, uppercased with hyphens as
    /// underscores, and the consequences are what make a sweep tractable: it
    /// is a loop over environment maps, the working tree is never modified,
    /// runs parallelise across distinct target directories, and cancellation
    /// leaves nothing to clean up.
    ///
    /// Values are unquoted here, unlike their TOML spellings: `lto=fat`, not
    /// `lto="fat"`.
    pub fn cargo_profile_env(&self) -> (env: Vec<(String, String)>)
        ensures
            env@.map_values(|p: (String, String)| pair_view(p)) == profile_env_of(*self),
    {
        let mut env: Vec<(String, String)> = Vec::new();
        assert(env@.map_values(|p: (String, String)| pair_view(p)) =~= seq![]);
        add_pair(&mut env, "CARGO_PROFILE_RELEASE_CODEGEN_UNITS", units_value(self.codegen_units));
        add_pair(&mut env, "CARGO_PROFILE_RELEASE_DEBUG", debug_value(self.debug));
        add_pair(&mut env, "CARGO_PROFILE_RELEASE_LTO", lto_value(self.lto));
        add_pair(&mut env, "CARGO_PROFILE_RELEASE_OPT_LEVEL", opt_level_value(self.opt_level));
        add_pair(&mut env, "CARGO_PROFILE_RELEASE_OVERFLOW_CHECKS", bool_value(self.overflow_checks));
        add_pair(&mut env, "CARGO_PROFILE_RELEASE_PANIC", panic_value(self.panic));
        add_pair(&mut env, "CARGO_PROFILE_RELEASE_STRIP", strip_value(self.strip));
        assert(env@.map_values(|p: (String, String)| pair_view(p)) =~= profile_env_of(*self));
        env
    }

    /// The same settings as `--config` arguments.
    ///
    /// The environment is what the sweep uses; this exists because it is what
    /// a user reproduces a result with by hand, and it appears beside every
    /// point in the Profile Lab.
    pub fn cargo_config_args(&self) -> (args: Vec<String>)
        ensures
            args@.map_values(|s: String| s@) == config_args_of(*self),
    {
        let mut args: Vec<String> = Vec::new();
        assert(args@.map_values(|s: String| s@) =~= seq![]);
        add_config(&mut args, "opt-level", match self.opt_level { Some(v) => toml_value(v.as_toml()), None => None });
        add_config(&mut args, "lto", match self.lto { Some(v) => toml_value(v.as_toml()), None => None });
        add_config(&mut args, "codegen-units", units_value(self.codegen_units));
        add_config(&mut args, "panic", match self.panic { Some(v) => toml_value(v.as_toml()), None => None });
        add_config(&mut args, "strip", match self.strip { Some(v) => toml_value(v.as_toml()), None => None });
        add_config(&mut args, "debug", match self.debug { Some(v) => toml_value(v.as_toml()), None => None });
        add_config(&mut args, "overflow-checks", bool_value(self.overflow_checks));
        assert(args@.map_values(|s: String| s@) =~= config_args_of(*self));
        args
    }

    /// Flags that go to rustc rather than into the profile.
    pub fn rustflags(&self) -> (flags: Vec<String>)
        ensures
            flags@.map_values(|s: String| s@) == rustflags_of(*self),
    {
        let mut flags: Vec<String> = Vec::new();
        if let Some(cpu) = &self.target_cpu {
            let mut flag = text_of("-Ctarget-cpu=");
            push_text(&mut flag, cpu.as_str());
            flags.push(flag);
        }
        assert(flags@.map_values(|s: String| s@) =~= rustflags_of(*self));
        flags
    }

    /// The `-Z build-std` arguments, when the extended sweep is on. These need
    /// a nightly toolchain, which the environment probe confirms before the
    /// axis is offered.
    pub fn unstable_args(&self) -> (args: Vec<String>)
        ensures
            args@.map_values(|s: String| s@) == unstable_args_of(*self),
    {
        let mut args: Vec<String> = Vec::new();
        match self.build_std {
            None | Some(BuildStd::Off) => {},
            Some(other) => {
                let mut arg = text_of("-Zbuild-std=");
                push_text(&mut arg, other.as_toml());
                args.push(arg);
            },
        }
        assert(args@.map_values(|s: String| s@) =~= unstable_args_of(*self));
        args
    }

    /// The rows of the configuration table, as `(axis, value)` pairs. Only the
    /// axes this configuration actually set.
    pub fn settings(&self) -> (rows: Vec<(&'static str, String)>)
        ensures
            rows@.map_values(|p: (&str, String)| row_view(p)) == settings_of(*self),
    {
        let mut rows: Vec<(&'static str, String)> = Vec::new();
        assert(rows@.map_values(|p: (&str, String)| row_view(p)) =~= seq![]);
        add_row(&mut rows, "opt-level", opt_level_value(self.opt_level));
        add_row(&mut rows, "lto", lto_value(self.lto));
        add_row(&mut rows, "codegen-units", units_value(self.codegen_units));
        add_row(&mut rows, "panic", panic_value(self.panic));
        add_row(&mut rows, "strip", strip_value(self.strip));
        add_row(&mut rows, "debug", debug_value(self.debug));
        add_row(&mut rows, "overflow-checks", bool_value(self.overflow_checks));
        add_row(&mut rows, "build-std", build_std_value(self.build_std));
        add_row(&mut rows, "target-cpu", clone_text_option(&self.target_cpu));
        assert(rows@.map_values(|p: (&str, String)| row_view(p)) =~= settings_of(*self));
        rows
    }

    /// A short, stable, filesystem-safe name. Used as the per-configuration
    /// target subdirectory, so a resumed sweep finds its own cached builds.
    pub fn name(&self) -> (s: String)
        ensures
            s@ == name_of(*self),
    {
        let rows = self.settings();
        let ghost views = rows@.map_values(|p: (&str, String)| row_view(p));
        if rows.len() == 0 {
            return text_of("profile-default");
        }
        let mut parts: Vec<String> = Vec::new();
        let mut i: usize = 0;
        while i < rows.len()
            invariant
                i <= rows@.len(),
                views == rows@.map_values(|p: (&str, String)| row_view(p)),
                parts@.map_values(|p: String| p@)
                    =~= views.take(i as int).map_values(|r: (Seq<char>, Seq<char>)| name_part(r)),
            decreases rows@.len() - i,
        {
            let ghost before = parts@;
            let (axis, value) = &rows[i];
            let mut part = initials_of(axis);
            let v = alnum_prefix(value.as_str(), 6);
            push_text(&mut part, v.as_str());
            parts.push(part);
            assert(views.take(i + 1) =~= views.take(i as int).push(views[i as int]));
            assert(parts@.map_values(|p: String| p@)
                =~= before.map_values(|p: String| p@).push(name_part(views[i as int])));
            i = i + 1;
        }
        assert(views.take(rows@.len() as int) =~= views);
        join_strings(&parts, "-")
    }

    /// The one-line form the Profile Lab shows beside a point.
    pub fn describe(&self) -> (s: String)
        ensures
            s@ == describe_of(*self),
    {
        let rows = self.settings();
        let ghost views = rows@.map_values(|p: (&str, String)| row_view(p));
        if rows.len() == 0 {
            return text_of("the profile's own settings");
        }
        let mut parts: Vec<String> = Vec::new();
        let mut i: usize = 0;
        while i < rows.len()
            invariant
                i <= rows@.len(),
                views == rows@.map_values(|p: (&str, String)| row_view(p)),
                parts@.map_values(|p: String| p@)
                    =~= views.take(i as int).map_values(|r: (Seq<char>, Seq<char>)| r.0 + "="@ + r.1),
            decreases rows@.len() - i,
        {
            let ghost before = parts@;
            let (axis, value) = &rows[i];
            let mut part = text_of(axis);
            push_char(&mut part, '=');
            push_text(&mut part, value.as_str());
            proof { reveal_strlit("="); }
            assert(part@ =~= views[i as int].0 + "="@ + views[i as int].1);
            parts.push(part);
            assert(views.take(i + 1) =~= views.take(i as int).push(views[i as int]));
            assert(parts@.map_values(|p: String| p@)
                =~= before.map_values(|p: String| p@).push(views[i as int].0 + "="@ + views[i as int].1));
            i = i + 1;
        }
        assert(views.take(rows@.len() as int) =~= views);
        join_strings(&parts, " ")
    }

    /// The `k`th configuration of `matrix`'s product.
    fn at(matrix: &SweepMatrix, k: usize) -> (c: Self)
        ensures
            c == config_at(*matrix, k as nat),
    {
        let n9 = axis_len(matrix.target_cpu.len());
        let n8 = axis_len(matrix.build_std.len());
        let n7 = axis_len(matrix.overflow_checks.len());
        let n6 = axis_len(matrix.debug.len());
        let n5 = axis_len(matrix.strip.len());
        let n4 = axis_len(matrix.panic.len());
        let n3 = axis_len(matrix.codegen_units.len());
        let n2 = axis_len(matrix.lto.len());
        let n1 = axis_len(matrix.opt_level.len());
        let r8 = k / n9;
        let r7 = r8 / n8;
        let r6 = r7 / n7;
        let r5 = r6 / n6;
        let r4 = r5 / n5;
        let r3 = r4 / n4;
        let r2 = r3 / n3;
        let r1 = r2 / n2;
        proof {
            broadcast use vstd::arithmetic::div_mod::lemma_mod_bound;
            assert(0 <= (k as int) % (n9 as int) < n9);
            assert(0 <= (r8 as int) % (n8 as int) < n8);
            assert(0 <= (r7 as int) % (n7 as int) < n7);
            assert(0 <= (r6 as int) % (n6 as int) < n6);
            assert(0 <= (r5 as int) % (n5 as int) < n5);
            assert(0 <= (r4 as int) % (n4 as int) < n4);
            assert(0 <= (r3 as int) % (n3 as int) < n3);
            assert(0 <= (r2 as int) % (n2 as int) < n2);
            assert(0 <= (r1 as int) % (n1 as int) < n1);
        }
        BuildConfiguration {
            opt_level: pick(&matrix.opt_level, r1 % n1),
            lto: pick(&matrix.lto, r2 % n2),
            codegen_units: pick(&matrix.codegen_units, r3 % n3),
            panic: pick(&matrix.panic, r4 % n4),
            strip: pick(&matrix.strip, r5 % n5),
            debug: pick(&matrix.debug, r6 % n6),
            overflow_checks: pick(&matrix.overflow_checks, r7 % n7),
            build_std: pick(&matrix.build_std, r8 % n8),
            target_cpu: pick_text(&matrix.target_cpu, k % n9),
        }
    }

    /// Expand a matrix into every configuration it describes, the first axis
    /// varying slowest.
    ///
    /// An empty axis contributes `None`, the profile's own value, rather
    /// than nothing, so the product never collapses to zero. Where no axis
    /// lists a value twice, no configuration comes out twice.
    pub fn expand(matrix: &SweepMatrix) -> (out: Vec<BuildConfiguration>)
        requires
            matrix.spec_cardinality() <= usize::MAX,
        ensures
            out@.len() == matrix.spec_cardinality(),
            forall|k: int| 0 <= k < out@.len() ==> #[trigger] out@[k] == config_at(*matrix, k as nat),
            axes_without_repeats(*matrix) ==> out@.no_duplicates(),
    {
        let n = matrix.cardinality();
        let mut out: Vec<BuildConfiguration> = Vec::new();
        let mut k: usize = 0;
        while k < n
            invariant
                k <= n,
                n == matrix.spec_cardinality(),
                out@.len() == k,
                forall|j: int| 0 <= j < k ==> #[trigger] out@[j] == config_at(*matrix, j as nat),
            decreases n - k,
        {
            out.push(Self::at(matrix, k));
            k = k + 1;
        }
        proof {
            if axes_without_repeats(*matrix) {
                assert forall|i: int, j: int|
                    0 <= i < out@.len() && 0 <= j < out@.len() && i != j implies out@[i] != out@[j] by {
                    if out@[i] == out@[j] {
                        lemma_config_at_injective(*matrix, i as nat, j as nat);
                    }
                }
            }
        }
        out
    }
}

} // verus!
