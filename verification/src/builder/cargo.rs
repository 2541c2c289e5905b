//! Building one configuration with cargo.
//!
//! Nothing here edits the user's `Cargo.toml`. A configuration is put into
//! effect through the environment, so a sweep of ninety-six configurations
//! leaves the manifest exactly as it found it. This module decides what cargo
//! is asked and reads what it answered; running it is the caller's.

use crate::configuration::{
    config_args_of, name_of, pair_view, profile_env_of, rustflags_of, unstable_args_of, BuildConfiguration,
};
use crate::error::Error;
use crate::evidence::EvidenceId;
use crate::text::{
    join, join_path, join_strings, lines, lines_of, path_join, push_text, starts_with, text_of,
    text_starts_with, trim, trim_start, trim_start_text, trim_text,
};
use crate::tool::{ToolOutput, ToolRunner};
use crate::traits::{BuildOutcome, Target};
use vstd::prelude::*;

verus! {

/// Cargo, driven against one project.
#[derive(Debug)]
pub struct CargoBuildSystem {
    runner: ToolRunner,
    /// The target triple, needed by `-Zbuild-std`, as the toolchain reported
    /// it.
    host_triple: Option<String>,
    /// Our own target directory. The user's stays untouched, so the
    /// incremental cache they will want back the moment the sweep finishes is
    /// still there.
    target_directory: String,
}

/// The arguments for the extended sweep: `-Z build-std`, and the explicit
/// `--target` it needs where the host triple is known.
pub open spec fn unstable_for(c: BuildConfiguration, host: Option<String>) -> Seq<Seq<char>> {
    let z = unstable_args_of(c);
    match host {
        Some(h) => if z.len() > 0 { z + seq!["--target"@, h@] } else { z },
        None => z,
    }
}

/// The arguments a configuration is built with.
pub open spec fn build_arguments_of(c: BuildConfiguration, package: Seq<char>, host: Option<String>) -> Seq<Seq<char>> {
    seq!["build"@, "--release"@] + unstable_for(c, host) + seq!["--package"@, package]
        + seq!["--message-format"@, "json-render-diagnostics"@]
}

/// The command a user would retype to reproduce one point.
pub open spec fn reproduction_of(c: BuildConfiguration, package: Seq<char>, host: Option<String>) -> Seq<char> {
    join(
        seq!["cargo"@, "build"@, "--release"@] + unstable_for(c, host) + seq!["--package"@, package]
            + config_args_of(c),
        " "@,
    )
}

/// The environment one configuration is built under, in variable order: the
/// profile settings, the target directory, and the rustc flags where there
/// are any.
pub open spec fn environment_of(c: BuildConfiguration, directory: Seq<char>) -> Seq<(Seq<char>, Seq<char>)> {
    let flags = rustflags_of(c);
    profile_env_of(c) + seq![("CARGO_TARGET_DIR"@, directory)] + if flags.len() > 0 {
        seq![("RUSTFLAGS"@, join(flags, " "@))]
    } else {
        seq![]
    }
}

fn texts_from(parts: Vec<String>) -> (r: Vec<String>)
    ensures
        r@ == parts@,
{
    parts
}

fn append_all(out: &mut Vec<String>, more: Vec<String>)
    ensures
        final(out)@.map_values(|s: String| s@) == old(out)@.map_values(|s: String| s@) + more@.map_values(|s: String| s@),
{
    let ghost start = out@.map_values(|s: String| s@);
    let mut i: usize = 0;
    while i < more.len()
        invariant
            i <= more@.len(),
            out@.map_values(|s: String| s@) == start + more@.take(i as int).map_values(|s: String| s@),
        decreases more@.len() - i,
    {
        let ghost before = out@;
        out.push(more[i].clone());
        assert(out@.map_values(|s: String| s@) =~= before.map_values(|s: String| s@).push(more@[i as int]@));
        assert(more@.take(i + 1) =~= more@.take(i as int).push(more@[i as int]));
        assert(out@.map_values(|s: String| s@) =~= start + more@.take(i + 1).map_values(|s: String| s@));
        i = i + 1;
    }
    assert(more@.take(more@.len() as int) =~= more@);
}

fn push_texts(out: &mut Vec<String>, a: &str, b: &str)
    ensures
        final(out)@.map_values(|s: String| s@) == old(out)@.map_values(|s: String| s@) + seq![a@, b@],
{
    out.push(text_of(a));
    out.push(text_of(b));
    assert(final(out)@.map_values(|s: String| s@) =~= old(out)@.map_values(|s: String| s@) + seq![a@, b@]);
}

impl CargoBuildSystem {
    /// Drive cargo through `runner`, building into `target_directory`.
    ///
    /// Cargo runs with the project root as its working directory, so a
    /// relative target directory would be resolved against that root a second
    /// time; it is made absolute under the root here.
    pub fn new(runner: ToolRunner, target_directory: String, host_triple: Option<String>) -> (s: Self)
        ensures
            s.spec_runner() == runner,
            s.spec_host_triple() == host_triple,
            s.spec_target_directory() == path_join(runner.spec_root(), target_directory@),
    {
        let directory = join_path(runner.root(), target_directory.as_str());
        CargoBuildSystem { runner, host_triple, target_directory: directory }
    }

    pub closed spec fn spec_runner(&self) -> ToolRunner {
        self.runner
    }

    pub closed spec fn spec_host_triple(&self) -> Option<String> {
        self.host_triple
    }

    pub closed spec fn spec_target_directory(&self) -> Seq<char> {
        self.target_directory@
    }

    pub fn runner(&self) -> (r: &ToolRunner)
        ensures
            *r == self.spec_runner(),
    {
        &self.runner
    }

    /// The runner, for running cargo.
    pub fn runner_mut(&mut self) -> (r: &mut ToolRunner)
        ensures
            *r == old(self).spec_runner(),
            final(self).spec_runner() == *final(r),
            final(self).spec_host_triple() == old(self).spec_host_triple(),
            final(self).spec_target_directory() == old(self).spec_target_directory(),
    {
        &mut self.runner
    }

    /// Where this configuration's build products go.
    ///
    /// Per configuration, so a resumed sweep finds the builds it already did
    /// rather than repeating them, and so two configurations never overwrite
    /// each other's artifact.
    pub fn target_directory_for(&self, configuration: &BuildConfiguration) -> (d: String)
        ensures
            d@ == path_join(self.spec_target_directory(), name_of(*configuration)),
    {
        let name = configuration.name();
        join_path(self.target_directory.as_str(), name.as_str())
    }

    fn unstable(&self, configuration: &BuildConfiguration) -> (r: Vec<String>)
        ensures
            r@.map_values(|s: String| s@) == unstable_for(*configuration, self.spec_host_triple()),
    {
        let mut r = configuration.unstable_args();
        match &self.host_triple {
            Some(host) => {
                if r.len() > 0 {
                    push_texts(&mut r, "--target", host.as_str());
                }
            },
            None => {},
        }
        r
    }

    /// The exact arguments this configuration is built with. The Profile Lab
    /// shows them beside each point, and a user who wants to reproduce a
    /// number should be able to retype them.
    pub fn build_arguments(&self, target: &Target, configuration: &BuildConfiguration) -> (r: Vec<String>)
        ensures
            r@.map_values(|s: String| s@) == build_arguments_of(*configuration, target.package@, self.spec_host_triple()),
    {
        let mut arguments: Vec<String> = Vec::new();
        assert(arguments@.map_values(|s: String| s@) =~= seq![]);
        push_texts(&mut arguments, "build", "--release");
        append_all(&mut arguments, self.unstable(configuration));
        push_texts(&mut arguments, "--package", target.package.as_str());
        // The target directory travels in the environment rather than on the
        // command line, so the gates inherit it with everything else. JSON on
        // stdout for the artifact paths, rendered diagnostics on stderr so the
        // warnings can be counted the way a person does.
        push_texts(&mut arguments, "--message-format", "json-render-diagnostics");
        assert(arguments@.map_values(|s: String| s@)
            =~= build_arguments_of(*configuration, target.package@, self.spec_host_triple()));
        arguments
    }

    /// The command a user would retype to reproduce one point by hand.
    ///
    /// The sweep configures cargo through the environment; this is the same
    /// configuration spelled as `--config` arguments.
    pub fn reproduction_command(&self, target: &Target, configuration: &BuildConfiguration) -> (s: String)
        ensures
            s@ == reproduction_of(*configuration, target.package@, self.spec_host_triple()),
    {
        let mut parts: Vec<String> = Vec::new();
        parts.push(text_of("cargo"));
        assert(parts@.map_values(|s: String| s@) =~= seq!["cargo"@]);
        push_texts(&mut parts, "build", "--release");
        append_all(&mut parts, self.unstable(configuration));
        push_texts(&mut parts, "--package", target.package.as_str());
        append_all(&mut parts, configuration.cargo_config_args());
        assert(parts@.map_values(|s: String| s@)
            =~= seq!["cargo"@, "build"@, "--release"@] + unstable_for(*configuration, self.spec_host_triple())
            + seq!["--package"@, target.package@] + config_args_of(*configuration));
        join_strings(&parts, " ")
    }

    /// The environment one configuration is built under, as `(variable,
    /// value)` pairs in variable order.
    ///
    /// A sweep is a loop over environment maps. The working tree is never
    /// modified, which is what makes cancellation leave nothing to clean up.
    /// The target directory is in the environment rather than on the command
    /// line precisely so the gates inherit it: a gate that built in the
    /// user's cache would both disturb it and measure the wrong thing.
    pub fn environment_for(&self, configuration: &BuildConfiguration) -> (env: Vec<(String, String)>)
        ensures
            env@.map_values(|p: (String, String)| pair_view(p))
                == environment_of(*configuration, path_join(self.spec_target_directory(), name_of(*configuration))),
    {
        let mut env = configuration.cargo_profile_env();
        let ghost start = env@.map_values(|p: (String, String)| pair_view(p));
        let directory = self.target_directory_for(configuration);
        let ghost d = directory@;
        env.push((text_of("CARGO_TARGET_DIR"), directory));
        assert(env@.map_values(|p: (String, String)| pair_view(p)) =~= start + seq![("CARGO_TARGET_DIR"@, d)]);
        let flags = configuration.rustflags();
        if flags.len() > 0 {
            let ghost middle = env@.map_values(|p: (String, String)| pair_view(p));
            let joined = join_strings(&flags, " ");
            env.push((text_of("RUSTFLAGS"), joined));
            assert(env@.map_values(|p: (String, String)| pair_view(p)) =~= middle + seq![("RUSTFLAGS"@, join(rustflags_of(*configuration), " "@))]);
        }
        assert(env@.map_values(|p: (String, String)| pair_view(p))
            =~= environment_of(*configuration, path_join(self.spec_target_directory(), name_of(*configuration))));
        env
    }
}

/// The rest of the first line of `output` that begins with `host: `, trimmed.
pub open spec fn host_in(ls: Seq<Seq<char>>) -> Option<Seq<char>>
    decreases ls.len(),
{
    if ls.len() == 0 {
        None
    } else if starts_with(ls[0], "host: "@) {
        Some(trim(ls[0].skip(6)))
    } else {
        host_in(ls.drop_first())
    }
}

/// The host triple in what `rustc -vV` printed. `-Zbuild-std` needs an
/// explicit `--target`, and guessing the triple is how a sweep produces
/// ninety-six identical failures.
pub fn host_triple_in(output: &str) -> (r: Option<String>)
    ensures
        match r {
            Some(t) => host_in(lines(output@)) == Some(t@),
            None => host_in(lines(output@)) is None,
        },
{
    let ls = lines_of(output);
    let ghost views = ls@.map_values(|l: String| l@);
    let mut i: usize = 0;
    proof { reveal_strlit("host: "); }
    assert(views.skip(0) =~= views);
    while i < ls.len()
        invariant
            i <= ls@.len(),
            views == ls@.map_values(|l: String| l@),
            views == lines(output@),
            host_in(views) == host_in(views.skip(i as int)),
        decreases ls@.len() - i,
    {
        assert(views.skip(i as int)[0] == ls@[i as int]@);
        proof { reveal_strlit("host: "); }
        if text_starts_with(ls[i].as_str(), "host: ") {
            let rest = crate::text::text_after(ls[i].as_str(), 6);
            let t = trim_text(rest.as_str());
            return Some(t);
        }
        assert(views.skip(i as int).drop_first() =~= views.skip(i + 1));
        i = i + 1;
    }
    None
}

/// How many lines of `ls` are warnings: once leading space is trimmed, they
/// begin `warning:`.
pub open spec fn warnings_in(ls: Seq<Seq<char>>) -> nat
    decreases ls.len(),
{
    if ls.len() == 0 {
        0
    } else {
        warnings_in(ls.drop_last()) + if starts_with(trim_start(ls.last()), "warning:"@) { 1nat } else { 0nat }
    }
}

proof fn lemma_warnings_bound(ls: Seq<Seq<char>>)
    ensures
        warnings_in(ls) <= ls.len(),
    decreases ls.len(),
{
    if ls.len() > 0 {
        lemma_warnings_bound(ls.drop_last());
    }
}

/// The warnings in cargo's rendered diagnostics, counted the way a person
/// counts them.
pub fn count_warnings(stderr: &str) -> (n: usize)
    ensures
        n == warnings_in(lines(stderr@)),
{
    let ls = lines_of(stderr);
    let ghost views = ls@.map_values(|l: String| l@);
    let mut n: usize = 0;
    let mut i: usize = 0;
    while i < ls.len()
        invariant
            i <= ls@.len(),
            views == ls@.map_values(|l: String| l@),
            n == warnings_in(views.take(i as int)),
        decreases ls@.len() - i,
    {
        assert(views.take(i + 1).drop_last() =~= views.take(i as int));
        proof { lemma_warnings_bound(views.take(i as int)); }
        let line = trim_start_text(ls[i].as_str());
        if text_starts_with(line.as_str(), "warning:") {
            n = n + 1;
        }
        i = i + 1;
    }
    assert(views.take(ls@.len() as int) =~= views);
    n
}

/// A compiler message cargo printed, reduced to the fields the build reads.
#[derive(Debug, PartialEq, Eq)]
pub struct CargoMessage {
    pub reason: String,
    /// The name of the target the message is about.
    pub target: Option<String>,
    pub executable: Option<String>,
    pub filenames: Vec<String>,
}

/// The artifact one message names for `name`, if it names one: a compiler
/// artifact of that target, by its executable or else its first file.
pub open spec fn named_artifact(m: CargoMessage, name: Seq<char>) -> Option<Seq<char>> {
    if m.reason@ == "compiler-artifact"@ && (m.target matches Some(t) && t@ == name) {
        match m.executable {
            Some(e) => Some(e@),
            None => if m.filenames@.len() > 0 { Some(m.filenames@[0]@) } else { None },
        }
    } else {
        None
    }
}

/// The artifact the last message naming one for `name` names.
pub open spec fn artifact_in(ms: Seq<Option<CargoMessage>>, name: Seq<char>) -> Option<Seq<char>>
    decreases ms.len(),
{
    if ms.len() == 0 {
        None
    } else {
        match ms.last() {
            Some(m) => match named_artifact(m, name) {
                Some(p) => Some(p),
                None => artifact_in(ms.drop_last(), name),
            },
            None => artifact_in(ms.drop_last(), name),
        }
    }
}

/// Whether the line `m` is cargo reporting an artifact of the target
/// `name`: a `compiler-artifact` message for it that names an executable or
/// at least one file.
pub open spec fn reports_artifact(m: Option<CargoMessage>, name: Seq<char>) -> bool {
    &&& m is Some
    &&& m->0.reason@ == "compiler-artifact"@
    &&& m->0.target matches Some(t) && t@ == name
    &&& (m->0.executable is Some || m->0.filenames@.len() > 0)
}

/// The path such a report gives: the executable, or else the first file.
pub open spec fn reported_path(m: CargoMessage) -> Seq<char> {
    match m.executable {
        Some(e) => e@,
        None => m.filenames@[0]@,
    }
}

/// The last report wins: where line `i` is the last one reporting an
/// artifact of `name`, the artifact is the path it gives, whatever earlier
/// lines reported (a library's `.rlib` before the binary, say). With no
/// report at all there is no artifact.
pub proof fn lemma_the_last_report_wins(ms: Seq<Option<CargoMessage>>, name: Seq<char>, i: int)
    requires
        0 <= i < ms.len(),
        reports_artifact(ms[i], name),
        forall|j: int| i < j < ms.len() ==> !reports_artifact(#[trigger] ms[j], name),
    ensures
        artifact_in(ms, name) == Some(reported_path(ms[i]->0)),
    decreases ms.len(),
{
    let last = ms.len() - 1;
    if i < last {
        lemma_the_last_report_wins(ms.drop_last(), name, i);
        assert(ms.drop_last()[i] == ms[i]);
        assert forall|j: int| i < j < ms.drop_last().len() implies !reports_artifact(#[trigger] ms.drop_last()[j], name) by {
            assert(ms.drop_last()[j] == ms[j]);
        }
        assert(!reports_artifact(ms[last], name));
    }
}

/// No report of `name`, no artifact.
pub proof fn lemma_no_report_no_artifact(ms: Seq<Option<CargoMessage>>, name: Seq<char>)
    requires
        forall|j: int| 0 <= j < ms.len() ==> !reports_artifact(#[trigger] ms[j], name),
    ensures
        artifact_in(ms, name) is None,
    decreases ms.len(),
{
    if ms.len() > 0 {
        assert forall|j: int| 0 <= j < ms.drop_last().len() implies !reports_artifact(#[trigger] ms.drop_last()[j], name) by {
            assert(ms.drop_last()[j] == ms[j]);
        }
        lemma_no_report_no_artifact(ms.drop_last(), name);
        assert(!reports_artifact(ms[ms.len() - 1], name));
    }
}

/// Pick the artifact a target produced out of cargo's message stream, one
/// entry per line of it, `None` for a line that is not a message.
///
/// Reading the path from cargo rather than guessing `target/release/<name>`
/// keeps us correct for libraries, for renamed binaries, and for whatever
/// cargo does next.
pub fn artifact_from_messages(messages: &Vec<Option<CargoMessage>>, target_name: &str) -> (r: Option<String>)
    ensures
        match r {
            Some(p) => artifact_in(messages@, target_name@) == Some(p@),
            None => artifact_in(messages@, target_name@) is None,
        },
{
    let mut found: Option<String> = None;
    let mut i: usize = 0;
    proof { reveal_strlit("compiler-artifact"); }
    while i < messages.len()
        invariant
            i <= messages@.len(),
            match found {
                Some(p) => artifact_in(messages@.take(i as int), target_name@) == Some(p@),
                None => artifact_in(messages@.take(i as int), target_name@) is None,
            },
        decreases messages@.len() - i,
    {
        assert(messages@.take(i + 1).drop_last() =~= messages@.take(i as int));
        match &messages[i] {
            Some(m) => {
                let matches = crate::text::text_eq(m.reason.as_str(), "compiler-artifact") && match &m.target {
                    Some(t) => crate::text::text_eq(t.as_str(), target_name),
                    None => false,
                };
                if matches {
                    match &m.executable {
                        Some(e) => {
                            found = Some(e.clone());
                        },
                        None => {
                            if m.filenames.len() > 0 {
                                found = Some(m.filenames[0].clone());
                            }
                        },
                    }
                }
            },
            None => {},
        }
        i = i + 1;
    }
    assert(messages@.take(messages@.len() as int) =~= messages@);
    found
}

/// What one build came to, from cargo's output and the messages read from
/// its stdout.
///
/// A build that reports success and names no artifact is an error: better to
/// say so than to measure a stale artifact from a previous configuration.
pub fn build_outcome(
    configuration: &BuildConfiguration,
    target: &Target,
    output: ToolOutput,
    messages: &Vec<Option<CargoMessage>>,
) -> (r: Result<BuildOutcome, Error>)
    ensures
        output.exit_code == 0 && artifact_in(messages@, target.name@) is None ==> (r matches Err(Error::Other(m))
            && m@ == "cargo reported success for `"@ + target.name@ + "` but named no artifact"@),
        r is Ok <==> (output.exit_code != 0 || artifact_in(messages@, target.name@) is Some),
        r matches Ok(o) ==> {
            &&& o.configuration == *configuration
            &&& o.succeeded == (output.exit_code == 0)
            &&& (if output.exit_code == 0 {
                o.artifact matches Some(p) && artifact_in(messages@, target.name@) == Some(p@)
            } else {
                o.artifact is None
            })
            &&& o.duration_nanos == output.duration_nanos
            &&& o.warnings == warnings_in(lines(output.stderr@))
            &&& o.evidence == output.evidence
        },
{
    let succeeded = output.succeeded();
    let artifact = if succeeded {
        let found = artifact_from_messages(messages, target.name.as_str());
        if found.is_none() {
            let mut message = text_of("cargo reported success for `");
            push_text(&mut message, target.name.as_str());
            push_text(&mut message, "` but named no artifact");
            return Err(Error::Other(message));
        }
        found
    } else {
        None
    };
    let warnings = count_warnings(output.stderr.as_str());
    Ok(BuildOutcome {
        configuration: configuration.clone(),
        artifact,
        succeeded,
        duration_nanos: output.duration_nanos,
        warnings,
        evidence: output.evidence,
    })
}

} // verus!
