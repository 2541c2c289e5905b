//! Detecting the cargo project or workspace and enumerating its targets.
//!
//! The answer comes from `cargo metadata` rather than from our own reading of
//! a manifest. Running it is the caller's; this module decides what to run,
//! when to stop, and what the metadata means.

use crate::capability::{Capabilities, Capability};
use crate::error::Error;
use crate::evidence::ToolInvocation;
use crate::tool::ToolOutput;
use crate::keyed::{sort_by_key, sorted_by_key, Keyed};
use crate::text::{lines, lines_of, starts_with, text_eq, text_of, text_starts_with, trim, trim_start, trim_start_text, trim_text};
use crate::traits::{Target, TargetFamily};
use vstd::prelude::*;

verus! {

/// Whether the directory holds one package or a workspace of them.
#[derive(Debug, PartialEq, Eq)]
pub enum ProjectKind {
    Package { name: String },
    Workspace { members: Vec<String> },
}

impl Keyed for Target {
    open spec fn key(&self) -> Seq<char> {
        self.id@
    }

    fn key_text(&self) -> (r: &str) {
        self.id.as_str()
    }
}

/// One target of a package, as `cargo metadata` lists it.
#[derive(Debug, PartialEq, Eq)]
pub struct MetadataTarget {
    pub name: String,
    pub kind: Vec<String>,
}

/// One package, as `cargo metadata` lists it: only the parts read here.
#[derive(Debug, PartialEq, Eq)]
pub struct MetadataPackage {
    pub id: String,
    pub name: String,
    pub manifest_path: String,
    pub targets: Vec<MetadataTarget>,
}

/// What Binmap can do with a Rust target in this phase: sweep its build
/// configurations, and nothing else it has not built.
pub fn phase_zero_capabilities() -> (c: Capabilities)
    ensures
        forall|x: Capability| c@.contains(x) <==> x == Capability::ConfigurationSweep,
{
    let c = Capabilities::of(&[Capability::ConfigurationSweep]);
    proof {
        assert forall|x: Capability| c@.contains(x) <==> x == Capability::ConfigurationSweep by {
            let list = seq![Capability::ConfigurationSweep];
            if x == Capability::ConfigurationSweep {
                assert(list[0] == x);
            }
        }
    }
    c
}

pub open spec fn measurable(kind: Seq<char>) -> bool {
    kind == "bin"@ || kind == "lib"@ || kind == "rlib"@ || kind == "cdylib"@ || kind == "staticlib"@
}

/// The kinds that produce one artifact worth sizing (a binary, a Rust
/// library, a C-compatible dynamic or static library) are measurable; tests,
/// benches, examples, build scripts and procedural macros are not.
pub proof fn lemma_measurable_kinds()
    ensures
        measurable("bin"@),
        measurable("lib"@),
        measurable("rlib"@),
        measurable("cdylib"@),
        measurable("staticlib"@),
        !measurable("test"@),
        !measurable("bench"@),
        !measurable("example"@),
        !measurable("custom-build"@),
        !measurable("proc-macro"@),
{
    reveal_strlit("bin");
    assert("bin"@.len() == 3);
    assert("bin"@[0] == 'b');
    assert("bin"@[1] == 'i');
    assert("bin"@[2] == 'n');
    reveal_strlit("lib");
    assert("lib"@.len() == 3);
    assert("lib"@[0] == 'l');
    assert("lib"@[1] == 'i');
    assert("lib"@[2] == 'b');
    reveal_strlit("rlib");
    assert("rlib"@.len() == 4);
    assert("rlib"@[0] == 'r');
    assert("rlib"@[1] == 'l');
    assert("rlib"@[2] == 'i');
    reveal_strlit("cdylib");
    assert("cdylib"@.len() == 6);
    assert("cdylib"@[0] == 'c');
    assert("cdylib"@[1] == 'd');
    assert("cdylib"@[2] == 'y');
    reveal_strlit("staticlib");
    assert("staticlib"@.len() == 9);
    assert("staticlib"@[0] == 's');
    assert("staticlib"@[1] == 't');
    assert("staticlib"@[2] == 'a');
    reveal_strlit("test");
    assert("test"@.len() == 4);
    assert("test"@[0] == 't');
    assert("test"@[1] == 'e');
    assert("test"@[2] == 's');
    reveal_strlit("bench");
    assert("bench"@.len() == 5);
    assert("bench"@[0] == 'b');
    assert("bench"@[1] == 'e');
    assert("bench"@[2] == 'n');
    reveal_strlit("example");
    assert("example"@.len() == 7);
    assert("example"@[0] == 'e');
    assert("example"@[1] == 'x');
    assert("example"@[2] == 'a');
    reveal_strlit("custom-build");
    assert("custom-build"@.len() == 12);
    assert("custom-build"@[0] == 'c');
    assert("custom-build"@[1] == 'u');
    assert("custom-build"@[2] == 's');
    reveal_strlit("proc-macro");
    assert("proc-macro"@.len() == 10);
    assert("proc-macro"@[0] == 'p');
    assert("proc-macro"@[1] == 'r');
    assert("proc-macro"@[2] == 'o');
}

/// Which target kinds produce a single artifact worth measuring.
///
/// Tests, benches and examples are excluded: they are built from the same
/// code but they are not what ships, and sweeping them would measure the wrong
/// binary convincingly.
pub fn is_measurable(kind: &str) -> (r: bool)
    ensures
        r == measurable(kind@),
{
    text_eq(kind, "bin") || text_eq(kind, "lib") || text_eq(kind, "rlib") || text_eq(kind, "cdylib")
        || text_eq(kind, "staticlib")
}

/// The packages in `p` that are workspace members, in order.
pub open spec fn members_of(p: Seq<MetadataPackage>, ids: Seq<String>) -> Seq<MetadataPackage>
    decreases p.len(),
{
    if p.len() == 0 {
        seq![]
    } else if ids.map_values(|s: String| s@).contains(p.last().id@) {
        members_of(p.drop_last(), ids).push(p.last())
    } else {
        members_of(p.drop_last(), ids)
    }
}

pub open spec fn kind_is_measurable(kinds: Seq<String>) -> bool {
    exists|i: int| 0 <= i < kinds.len() && measurable(#[trigger] kinds[i]@)
}

/// A target as plain values: id, name, package and manifest.
pub open spec fn target_text(t: Target) -> (Seq<char>, Seq<char>, Seq<char>, Seq<char>) {
    (t.id@, t.name@, t.package@, t.manifest@)
}

/// The targets one member offers: those with a measurable kind, as plain
/// values.
pub open spec fn offered_by(p: MetadataPackage, t: Seq<MetadataTarget>) -> Seq<(Seq<char>, Seq<char>, Seq<char>, Seq<char>)>
    decreases t.len(),
{
    if t.len() == 0 {
        seq![]
    } else if kind_is_measurable(t.last().kind@) {
        offered_by(p, t.drop_last()).push(
            (p.name@ + "::"@ + t.last().name@, t.last().name@, p.name@, p.manifest_path@),
        )
    } else {
        offered_by(p, t.drop_last())
    }
}

/// The targets the members offer, member by member, before sorting.
pub open spec fn offered(m: Seq<MetadataPackage>) -> Seq<(Seq<char>, Seq<char>, Seq<char>, Seq<char>)>
    decreases m.len(),
{
    if m.len() == 0 {
        seq![]
    } else {
        offered(m.drop_last()) + offered_by(m.last(), m.last().targets@)
    }
}

fn holds(ids: &Vec<String>, id: &str) -> (r: bool)
    ensures
        r == ids@.map_values(|s: String| s@).contains(id@),
{
    let ghost views = ids@.map_values(|s: String| s@);
    let mut i: usize = 0;
    while i < ids.len()
        invariant
            i <= ids@.len(),
            views == ids@.map_values(|s: String| s@),
            forall|j: int| 0 <= j < i ==> views[j] != id@,
        decreases ids@.len() - i,
    {
        if text_eq(ids[i].as_str(), id) {
            assert(views[i as int] == id@);
            return true;
        }
        i = i + 1;
    }
    false
}

fn any_measurable(kinds: &Vec<String>) -> (r: bool)
    ensures
        r == kind_is_measurable(kinds@),
{
    let mut i: usize = 0;
    while i < kinds.len()
        invariant
            i <= kinds@.len(),
            forall|j: int| 0 <= j < i ==> !measurable(#[trigger] kinds@[j]@),
        decreases kinds@.len() - i,
    {
        if is_measurable(kinds[i].as_str()) {
            return true;
        }
        i = i + 1;
    }
    false
}

fn targets_of(package: &MetadataPackage, out: &mut Vec<Target>)
    ensures
        final(out)@.len() == old(out)@.len() + offered_by(*package, package.targets@).len(),
        forall|i: int| 0 <= i < old(out)@.len() ==> #[trigger] final(out)@[i] == old(out)@[i],
        forall|i: int| 0 <= i < offered_by(*package, package.targets@).len() ==> {
            let t = #[trigger] final(out)@[old(out)@.len() + i];
            &&& target_text(t) == offered_by(*package, package.targets@)[i]
            &&& t.family == TargetFamily::Rust
            &&& forall|x: Capability| t.capabilities@.contains(x) <==> x == Capability::ConfigurationSweep
        },
{
    let ghost start = out@;
    let mut k: usize = 0;
    while k < package.targets.len()
        invariant
            k <= package.targets@.len(),
            out@.len() == start.len() + offered_by(*package, package.targets@.take(k as int)).len(),
            forall|i: int| 0 <= i < start.len() ==> #[trigger] out@[i] == start[i],
            forall|i: int| 0 <= i < offered_by(*package, package.targets@.take(k as int)).len() ==> {
                let t = #[trigger] out@[start.len() + i];
                &&& target_text(t) == offered_by(*package, package.targets@.take(k as int))[i]
                &&& t.family == TargetFamily::Rust
                &&& forall|x: Capability| t.capabilities@.contains(x) <==> x == Capability::ConfigurationSweep
            },
        decreases package.targets@.len() - k,
    {
        assert(package.targets@.take(k + 1).drop_last() =~= package.targets@.take(k as int));
        let target = &package.targets[k];
        if any_measurable(&target.kind) {
            let mut id = text_of(package.name.as_str());
            crate::text::push_text(&mut id, "::");
            crate::text::push_text(&mut id, target.name.as_str());
            out.push(Target {
                id,
                name: target.name.clone(),
                family: TargetFamily::Rust,
                package: package.name.clone(),
                manifest: package.manifest_path.clone(),
                capabilities: phase_zero_capabilities(),
            });
        }
        k = k + 1;
    }
    assert(package.targets@.take(package.targets@.len() as int) =~= package.targets@);
}

/// What the metadata says the project is, and the targets it offers.
///
/// A workspace with one member reads as a package: what matters to the
/// project view is how many targets it has to group, not which manifest key
/// declared them. The targets are in id order.
pub fn project_from(packages: &Vec<MetadataPackage>, workspace_members: &Vec<String>) -> (r: (ProjectKind, Vec<Target>))
    ensures
        ({
            let m = members_of(packages@, workspace_members@);
            &&& (m.len() == 1 ==> (r.0 matches ProjectKind::Package { name } && name@ == m[0].name@))
            &&& (m.len() != 1 ==> (r.0 matches ProjectKind::Workspace { members }
                && members@.map_values(|s: String| s@) == m.map_values(|p: MetadataPackage| p.name@)))
        }),
        exists|unsorted: Seq<Target>| {
            &&& r.1@ == sorted_by_key(unsorted)
            &&& unsorted.map_values(|t: Target| target_text(t)) == offered(members_of(packages@, workspace_members@))
            &&& forall|i: int| 0 <= i < unsorted.len() ==> (#[trigger] unsorted[i]).family == TargetFamily::Rust
                && forall|x: Capability| unsorted[i].capabilities@.contains(x) <==> x == Capability::ConfigurationSweep
        },
{
    let mut members: Vec<&MetadataPackage> = Vec::new();
    let mut i: usize = 0;
    while i < packages.len()
        invariant
            i <= packages@.len(),
            members@.len() == members_of(packages@.take(i as int), workspace_members@).len(),
            forall|j: int| 0 <= j < members@.len() ==> *(#[trigger] members@[j]) == members_of(packages@.take(i as int), workspace_members@)[j],
        decreases packages@.len() - i,
    {
        assert(packages@.take(i + 1).drop_last() =~= packages@.take(i as int));
        if holds(workspace_members, packages[i].id.as_str()) {
            members.push(&packages[i]);
        }
        i = i + 1;
    }
    assert(packages@.take(packages@.len() as int) =~= packages@);
    let ghost m = members_of(packages@, workspace_members@);
    let kind = if members.len() == 1 {
        ProjectKind::Package { name: members[0].name.clone() }
    } else {
        let mut names: Vec<String> = Vec::new();
        let mut j: usize = 0;
        while j < members.len()
            invariant
                j <= members@.len(),
                members@.len() == m.len(),
                forall|q: int| 0 <= q < members@.len() ==> *(#[trigger] members@[q]) == m[q],
                names@.map_values(|s: String| s@) =~= m.take(j as int).map_values(|p: MetadataPackage| p.name@),
            decreases members@.len() - j,
        {
            let ghost before = names@;
            names.push(members[j].name.clone());
            assert(m.take(j + 1) =~= m.take(j as int).push(m[j as int]));
            assert(names@.map_values(|s: String| s@) =~= before.map_values(|s: String| s@).push(m[j as int].name@));
            j = j + 1;
        }
        assert(m.take(m.len() as int) =~= m);
        ProjectKind::Workspace { members: names }
    };
    let mut unsorted: Vec<Target> = Vec::new();
    let mut j: usize = 0;
    while j < members.len()
        invariant
            j <= members@.len(),
            members@.len() == m.len(),
            forall|q: int| 0 <= q < members@.len() ==> *(#[trigger] members@[q]) == m[q],
            unsorted@.map_values(|t: Target| target_text(t)) =~= offered(m.take(j as int)),
            forall|q: int| 0 <= q < unsorted@.len() ==> (#[trigger] unsorted@[q]).family == TargetFamily::Rust
                && forall|x: Capability| unsorted@[q].capabilities@.contains(x) <==> x == Capability::ConfigurationSweep,
        decreases members@.len() - j,
    {
        let ghost before = unsorted@;
        assert(m.take(j + 1).drop_last() =~= m.take(j as int));
        assert(m.take(j + 1).last() == m[j as int]);
        targets_of(members[j], &mut unsorted);
        let ghost added = offered_by(m[j as int], m[j as int].targets@);
        assert(unsorted@.map_values(|t: Target| target_text(t)) =~= before.map_values(|t: Target| target_text(t)) + added) by {
            assert forall|q: int| 0 <= q < unsorted@.len() implies
                target_text(#[trigger] unsorted@[q]) == (before.map_values(|t: Target| target_text(t)) + added)[q] by {
                if q >= before.len() {
                    assert(unsorted@[before.len() + (q - before.len())] == unsorted@[q]);
                }
            }
        }
        assert forall|q: int| 0 <= q < unsorted@.len() implies (#[trigger] unsorted@[q]).family == TargetFamily::Rust
            && forall|x: Capability| unsorted@[q].capabilities@.contains(x) <==> x == Capability::ConfigurationSweep by {
            if q >= before.len() {
                assert(unsorted@[before.len() + (q - before.len())] == unsorted@[q]);
            }
        }
        j = j + 1;
    }
    assert(m.take(m.len() as int) =~= m);
    let ghost flat = unsorted@;
    let targets = sort_by_key(unsorted);
    (kind, targets)
}

/// The first line of `ls` that begins with `error` once leading space is
/// trimmed, itself trimmed.
pub open spec fn error_line(ls: Seq<Seq<char>>) -> Option<Seq<char>>
    decreases ls.len(),
{
    if ls.len() == 0 {
        None
    } else if starts_with(trim_start(ls[0]), "error"@) {
        Some(trim(ls[0]))
    } else {
        error_line(ls.drop_first())
    }
}

/// Why `cargo metadata` failed, as the line of its stderr that says so, or a
/// plain statement where none does.
pub fn metadata_failure(stderr: &str) -> (r: String)
    ensures
        r@ == match error_line(lines(stderr@)) {
            Some(l) => l,
            None => "cargo metadata failed"@,
        },
{
    let ls = lines_of(stderr);
    let ghost views = ls@.map_values(|l: String| l@);
    let mut i: usize = 0;
    assert(views.skip(0) =~= views);
    while i < ls.len()
        invariant
            i <= ls@.len(),
            views == ls@.map_values(|l: String| l@),
            views == lines(stderr@),
            error_line(views) == error_line(views.skip(i as int)),
        decreases ls@.len() - i,
    {
        assert(views.skip(i as int)[0] == ls@[i as int]@);
        let start = trim_start_text(ls[i].as_str());
        if text_starts_with(start.as_str(), "error") {
            return trim_text(ls[i].as_str());
        }
        assert(views.skip(i as int).drop_first() =~= views.skip(i + 1));
        i = i + 1;
    }
    text_of("cargo metadata failed")
}

/// The arguments of the `cargo metadata` run discovery makes: offline
/// first, and online on the one retry.
pub open spec fn metadata_arguments(offline: bool) -> Seq<Seq<char>> {
    let common = seq!["metadata"@, "--no-deps"@, "--format-version"@, "1"@];
    if offline { common.push("--offline"@) } else { common }
}

/// An invocation of `cargo` with `arguments`, in `directory`.
pub open spec fn cargo_in(i: ToolInvocation, arguments: Seq<Seq<char>>, directory: Seq<char>) -> bool {
    &&& i.tool@ == "cargo"@
    &&& i.arguments@.map_values(|a: String| a@) == arguments
    &&& i.working_directory matches Some(d) && d@ == directory
}

/// What discovery does next.
#[derive(Debug)]
pub enum DiscoveryAction {
    /// Run this and come back with its output.
    Run(ToolInvocation),
    /// Read the project from this `cargo metadata` document.
    Read(String),
    /// Stop: there is no project to read.
    Fail(Error),
}

fn metadata_invocation(root: &str, offline: bool) -> (i: ToolInvocation)
    ensures
        cargo_in(i, metadata_arguments(offline), root@),
{
    let mut arguments: Vec<String> = Vec::new();
    arguments.push(text_of("metadata"));
    arguments.push(text_of("--no-deps"));
    arguments.push(text_of("--format-version"));
    arguments.push(text_of("1"));
    if offline {
        arguments.push(text_of("--offline"));
    }
    let i = ToolInvocation::new(text_of("cargo"), arguments).in_directory(text_of(root));
    assert(i.arguments@.map_values(|a: String| a@) =~= metadata_arguments(offline));
    i
}

/// The next step of discovering the project at `root`, given whether its
/// `Cargo.toml` exists and the `cargo metadata` runs made so far.
///
/// No manifest is no project, named by its path. Otherwise `cargo metadata`
/// runs offline; a project whose dependencies are not vendored yet fails
/// that, which is worth one retry online rather than a dead end. A run that
/// succeeds is read; a retry that fails too stops with the line of its
/// stderr that says why.
pub fn discovery_step(root: &str, manifest_exists: bool, outputs: &Vec<ToolOutput>) -> (a: DiscoveryAction)
    ensures
        !manifest_exists ==> (a matches DiscoveryAction::Fail(Error::NoProject(p)) && p@ == root@),
        manifest_exists && outputs@.len() == 0 ==> (a matches DiscoveryAction::Run(i)
            && cargo_in(i, metadata_arguments(true), root@)),
        manifest_exists && outputs@.len() > 0 && outputs@.last().exit_code == 0
            ==> (a matches DiscoveryAction::Read(document) && document@ == outputs@.last().stdout@),
        manifest_exists && outputs@.len() == 1 && outputs@[0].exit_code != 0 ==> (a matches DiscoveryAction::Run(i)
            && cargo_in(i, metadata_arguments(false), root@)),
        manifest_exists && outputs@.len() >= 2 && outputs@.last().exit_code != 0
            ==> (a matches DiscoveryAction::Fail(Error::Config(reason)) && reason@ == match error_line(
            lines(outputs@.last().stderr@),
        ) {
            Some(l) => l,
            None => "cargo metadata failed"@,
        }),
{
    if !manifest_exists {
        return DiscoveryAction::Fail(Error::NoProject(text_of(root)));
    }
    if outputs.len() == 0 {
        return DiscoveryAction::Run(metadata_invocation(root, true));
    }
    let last = &outputs[outputs.len() - 1];
    if last.succeeded() {
        DiscoveryAction::Read(last.stdout.clone())
    } else if outputs.len() == 1 {
        DiscoveryAction::Run(metadata_invocation(root, false))
    } else {
        DiscoveryAction::Fail(Error::Config(metadata_failure(last.stderr.as_str())))
    }
}

} // verus!
