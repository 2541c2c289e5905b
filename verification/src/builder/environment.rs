//! Feature-detecting the machine, and saying what to type when something is
//! missing.
//!
//! The rule: **never assume a capability that has not been confirmed**. Every
//! probe reports what it found, and every failing probe carries the exact
//! command that fixes it: not a description of the fix, the command.
//!
//! Running the tools is the caller's; each probe here is read from what its
//! tool did.

use crate::error::Error;
use crate::evidence::ToolInvocation;
use crate::facade::{Probe, ProbeStatus};
use crate::text::{contains_text, lines, lines_of, push_text, starts_with, text_contains, text_of, text_starts_with, trim, trim_text};
use crate::tool::ToolOutput;
use vstd::prelude::*;

verus! {

/// An invocation of `tool` with `arguments`.
fn invocation(tool: &str, arguments: &[&str]) -> (r: ToolInvocation)
    ensures
        r.tool@ == tool@,
        r.arguments@.map_values(|s: String| s@) == arguments@.map_values(|a: &str| a@),
        r.working_directory is None,
{
    let mut args: Vec<String> = Vec::new();
    let mut i: usize = 0;
    while i < arguments.len()
        invariant
            i <= arguments@.len(),
            args@.map_values(|s: String| s@) =~= arguments@.take(i as int).map_values(|a: &str| a@),
        decreases arguments@.len() - i,
    {
        let ghost before = args@;
        args.push(text_of(arguments[i]));
        assert(arguments@.take(i + 1) =~= arguments@.take(i as int).push(arguments@[i as int]));
        assert(args@.map_values(|s: String| s@) =~= before.map_values(|s: String| s@).push(arguments@[i as int]@));
        i = i + 1;
    }
    assert(arguments@.take(arguments@.len() as int) =~= arguments@);
    ToolInvocation::new(text_of(tool), args)
}

/// `tool --version`: a tool that answers is present.
pub fn version_invocation(tool: &str) -> (r: ToolInvocation)
    ensures
        r.tool@ == tool@,
        r.arguments@.map_values(|s: String| s@) == seq!["--version"@],
        r.working_directory is None,
{
    let r = invocation(tool, &["--version"]);
    assert(seq!["--version"].map_values(|a: &str| a@) =~= seq!["--version"@]);
    r
}

/// What `rustup` is asked about the nightly toolchain's components.
pub fn nightly_invocation() -> (r: ToolInvocation)
    ensures
        r.tool@ == "rustup"@,
        r.arguments@.map_values(|s: String| s@) == seq!["component"@, "list"@, "--toolchain"@, "nightly"@],
        r.working_directory is None,
{
    let r = invocation("rustup", &["component", "list", "--toolchain", "nightly"]);
    assert(seq!["component", "list", "--toolchain", "nightly"].map_values(|a: &str| a@)
        =~= seq!["component"@, "list"@, "--toolchain"@, "nightly"@]);
    r
}

/// What `git` is asked for the commit.
pub fn revision_invocation() -> (r: ToolInvocation)
    ensures
        r.tool@ == "git"@,
        r.arguments@.map_values(|s: String| s@) == seq!["rev-parse"@, "--short"@, "HEAD"@],
        r.working_directory is None,
{
    let r = invocation("git", &["rev-parse", "--short", "HEAD"]);
    assert(seq!["rev-parse", "--short", "HEAD"].map_values(|a: &str| a@) =~= seq!["rev-parse"@, "--short"@, "HEAD"@]);
    r
}

/// What `git` is asked for uncommitted changes.
pub fn status_invocation() -> (r: ToolInvocation)
    ensures
        r.tool@ == "git"@,
        r.arguments@.map_values(|s: String| s@) == seq!["status"@, "--porcelain"@],
        r.working_directory is None,
{
    let r = invocation("git", &["status", "--porcelain"]);
    assert(seq!["status", "--porcelain"].map_values(|a: &str| a@) =~= seq!["status"@, "--porcelain"@]);
    r
}

/// What cargo is asked about miri.
pub fn miri_invocation() -> (r: ToolInvocation)
    ensures
        r.tool@ == "cargo"@,
        r.arguments@.map_values(|s: String| s@) == seq!["miri"@, "--version"@],
        r.working_directory is None,
{
    let r = invocation("cargo", &["miri", "--version"]);
    assert(seq!["miri", "--version"].map_values(|a: &str| a@) =~= seq!["miri"@, "--version"@]);
    r
}

/// The first line of `s`, trimmed, or `present` where `s` has none.
pub open spec fn first_line(s: Seq<char>) -> Seq<char> {
    if lines(s).len() > 0 { trim(lines(s)[0]) } else { "present"@ }
}

fn first_line_of(s: &str) -> (r: String)
    ensures
        r@ == first_line(s@),
{
    let ls = lines_of(s);
    if ls.len() > 0 {
        trim_text(ls[0].as_str())
    } else {
        proof { reveal_strlit("present"); }
        text_of("present")
    }
}

/// An exit code in decimal, signed.
pub open spec fn code_text(c: i32) -> Seq<char> {
    crate::builder::settings::signed_decimal(c as int)
}

fn code_string(c: i32) -> (s: String)
    ensures
        s@ == code_text(c),
{
    if c < 0 {
        let magnitude: u64 = (0i64 - c as i64) as u64;
        let mut s = text_of("-");
        let digits = crate::text::decimal_string(magnitude);
        push_text(&mut s, digits.as_str());
        s
    } else {
        crate::text::decimal_string(c as u64)
    }
}

/// The probe of a tool that answers `--version`: present where it ran and
/// succeeded, with the first line it printed; unusable where it ran and
/// failed; missing where it could not be run. Both failures carry the remedy.
pub open spec fn version_probe_of(group: Seq<char>, tool: Seq<char>, remedy: Seq<char>, outcome: Result<ToolOutput, Error>, p: Probe) -> bool {
    &&& p.group@ == group
    &&& p.name@ == tool
    &&& p.action is None
    &&& match outcome {
        Ok(o) => if o.exit_code == 0 {
            &&& p.status == ProbeStatus::Present
            &&& p.detail@ == first_line(o.stdout@)
            &&& p.remedy is None
        } else {
            &&& p.status == ProbeStatus::Unusable
            &&& p.detail@ == "`"@ + tool + "` is on PATH but exited "@ + code_text(o.exit_code)
            &&& p.remedy matches Some(r) && r@ == remedy
        },
        Err(_) => {
            &&& p.status == ProbeStatus::Missing
            &&& p.detail@ == "`"@ + tool + "` is not on PATH"@
            &&& p.remedy matches Some(r) && r@ == remedy
        },
    }
}

/// A tool that answers `--version` is present; one that does not is missing,
/// and the remedy says how to get it.
pub fn version_probe(group: &str, tool: &str, remedy: &str, outcome: &Result<ToolOutput, Error>) -> (p: Probe)
    ensures
        version_probe_of(group@, tool@, remedy@, *outcome, p),
{
    match outcome {
        Ok(output) => {
            if output.exit_code == 0 {
                Probe {
                    group: text_of(group),
                    name: text_of(tool),
                    status: ProbeStatus::Present,
                    detail: first_line_of(output.stdout.as_str()),
                    remedy: None,
                    action: None,
                }
            } else {
                let mut detail = text_of("`");
                push_text(&mut detail, tool);
                push_text(&mut detail, "` is on PATH but exited ");
                let code = code_string(output.exit_code);
                push_text(&mut detail, code.as_str());
                Probe {
                    group: text_of(group),
                    name: text_of(tool),
                    status: ProbeStatus::Unusable,
                    detail,
                    remedy: Some(text_of(remedy)),
                    action: None,
                }
            }
        },
        Err(_) => {
            let mut detail = text_of("`");
            push_text(&mut detail, tool);
            push_text(&mut detail, "` is not on PATH");
            Probe {
                group: text_of(group),
                name: text_of(tool),
                status: ProbeStatus::Missing,
                detail,
                remedy: Some(text_of(remedy)),
                action: None,
            }
        },
    }
}

/// Whether the component list shows `rust-src` installed: a line that begins
/// `rust-src` and says `(installed)`.
pub open spec fn rust_src_installed(ls: Seq<Seq<char>>) -> bool {
    exists|i: int| 0 <= i < ls.len() && starts_with(#[trigger] ls[i], "rust-src"@) && contains_text(ls[i], "(installed)"@)
}

pub open spec fn nightly_remedy() -> Seq<char> {
    "rustup toolchain install nightly && rustup component add rust-src --toolchain nightly"@
}

/// The extended sweep needs nightly and `rust-src`. Probed rather than
/// attempted, because the failure mode otherwise is ninety-six builds that
/// all fail the same way an hour in.
pub fn nightly_probe(outcome: &Result<ToolOutput, Error>) -> (p: Probe)
    ensures
        p.group@ == "Rust"@,
        p.name@ == "nightly toolchain with rust-src"@,
        p.action is None,
        match outcome {
            Err(_) => p.status == ProbeStatus::Missing
                && p.detail@ == "rustup is not on PATH, so the extended sweep is unavailable"@
                && (p.remedy matches Some(r) && r@ == nightly_remedy()),
            Ok(o) => if o.exit_code == 0 && rust_src_installed(lines(o.stdout@)) {
                p.status == ProbeStatus::Present && p.detail@ == "build-std is available, so the extended sweep can run"@
                    && p.remedy is None
            } else {
                p.status == ProbeStatus::Missing && p.detail@ == "not installed; the sweep runs without the build-std axis"@
                    && (p.remedy matches Some(r) && r@ == nightly_remedy())
            },
        },
{
    let group = text_of("Rust");
    let name = text_of("nightly toolchain with rust-src");
    let remedy = "rustup toolchain install nightly && rustup component add rust-src --toolchain nightly";
    let output = match outcome {
        Err(_) => {
            return Probe {
                group,
                name,
                status: ProbeStatus::Missing,
                detail: text_of("rustup is not on PATH, so the extended sweep is unavailable"),
                remedy: Some(text_of(remedy)),
                action: None,
            };
        },
        Ok(output) => output,
    };
    let mut installed = false;
    if output.exit_code == 0 {
        let ls = lines_of(output.stdout.as_str());
        let ghost views = ls@.map_values(|l: String| l@);
        let mut i: usize = 0;
        while i < ls.len()
            invariant_except_break
                !installed,
                forall|j: int| 0 <= j < i ==> !(starts_with(#[trigger] views[j], "rust-src"@) && contains_text(views[j], "(installed)"@)),
            invariant
                i <= ls@.len(),
                views == ls@.map_values(|l: String| l@),
                views == lines(output.stdout@),
            ensures
                installed <==> rust_src_installed(views),
            decreases ls@.len() - i,
        {
            if text_starts_with(ls[i].as_str(), "rust-src") && text_contains(ls[i].as_str(), "(installed)") {
                assert(starts_with(views[i as int], "rust-src"@) && contains_text(views[i as int], "(installed)"@));
                installed = true;
                break;
            }
            i = i + 1;
        }
    }
    if installed {
        Probe {
            group,
            name,
            status: ProbeStatus::Present,
            detail: text_of("build-std is available, so the extended sweep can run"),
            remedy: None,
            action: None,
        }
    } else {
        Probe {
            group,
            name,
            status: ProbeStatus::Missing,
            detail: text_of("not installed; the sweep runs without the build-std axis"),
            remedy: Some(text_of(remedy)),
            action: None,
        }
    }
}

/// Whether `git status --porcelain` said anything: an uncommitted change.
/// A status that could not be run says nothing.
pub fn is_dirty(status: &Result<ToolOutput, Error>) -> (r: bool)
    ensures
        r == match status {
            Ok(o) => trim(o.stdout@).len() > 0,
            Err(_) => false,
        },
{
    match status {
        Ok(o) => {
            let t = trim_text(o.stdout.as_str());
            t.as_str().unicode_len() > 0
        },
        Err(_) => false,
    }
}

/// Knowing the commit is what lets a measurement be reproduced. A dirty tree
/// is reported as a fact, not as an error: plenty of useful work happens on
/// one.
pub fn git_probe(revision: &Result<ToolOutput, Error>, dirty: bool) -> (p: Probe)
    ensures
        p.group@ == "Project"@,
        p.name@ == "git"@,
        p.action is None,
        match revision {
            Ok(o) if o.exit_code == 0 => p.status == ProbeStatus::Present && p.remedy is None
                && p.detail@ == if dirty {
                    trim(o.stdout@) + ", with uncommitted changes \u{2014} results will not reproduce"@
                } else {
                    trim(o.stdout@)
                },
            _ => p.status == ProbeStatus::Unusable
                && p.detail@ == "not a git repository, so results cannot be tied to a commit"@
                && (p.remedy matches Some(r) && r@ == "git init && git add -A && git commit -m 'baseline'"@),
        },
{
    let group = text_of("Project");
    let name = text_of("git");
    match revision {
        Ok(output) if output.exit_code == 0 => {
            let commit = trim_text(output.stdout.as_str());
            let detail = if dirty {
                let mut d = commit;
                push_text(&mut d, ", with uncommitted changes \u{2014} results will not reproduce");
                d
            } else {
                commit
            };
            Probe { group, name, status: ProbeStatus::Present, detail, remedy: None, action: None }
        },
        _ => Probe {
            group,
            name,
            status: ProbeStatus::Unusable,
            detail: text_of("not a git repository, so results cannot be tied to a commit"),
            remedy: Some(text_of("git init && git add -A && git commit -m 'baseline'")),
            action: None,
        },
    }
}

/// Miri, for the sanitizer check. Its absence does not stop a sweep; it means
/// unsafe code goes unchecked, and the report says so rather than passing it.
pub fn sanitizer_probe(outcome: &Result<ToolOutput, Error>) -> (p: Probe)
    ensures
        p.group@ == "Verification"@,
        p.name@ == "miri"@,
        p.action is None,
        match outcome {
            Ok(o) if o.exit_code == 0 => p.status == ProbeStatus::Present && p.remedy is None
                && p.detail@ == trim(o.stdout@),
            _ => p.status == ProbeStatus::Missing
                && p.detail@ == "unsafe code will be reported as unchecked rather than as clean"@
                && (p.remedy matches Some(r) && r@ == "rustup toolchain install nightly --component miri"@),
        },
{
    let group = text_of("Verification");
    let name = text_of("miri");
    match outcome {
        Ok(output) if output.exit_code == 0 => Probe {
            group,
            name,
            status: ProbeStatus::Present,
            detail: trim_text(output.stdout.as_str()),
            remedy: None,
            action: None,
        },
        _ => Probe {
            group,
            name,
            status: ProbeStatus::Missing,
            detail: text_of("unsafe code will be reported as unchecked rather than as clean"),
            remedy: Some(text_of("rustup toolchain install nightly --component miri")),
            action: None,
        },
    }
}

} // verus!
