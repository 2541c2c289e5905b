use binmap::builder::cargo::{artifact_from_messages, count_warnings, host_triple_in, CargoBuildSystem, CargoMessage};
use binmap::builder::engine::BinmapEngine;
use binmap::builder::environment::{git_probe, is_dirty, nightly_probe, sanitizer_probe, version_probe};
use binmap::builder::manifest::{unified_diff, with_release_profile};
use binmap::builder::project::{discovery_step, project_from, DiscoveryAction, MetadataPackage, MetadataTarget, ProjectKind};
use binmap::builder::settings::{apply, FILE};
use binmap::builder::sweep::{
    frontier_by_size, measurement_of, reject_on_regression, size_delta, Candidate, Point, Sweep, SweepBackend, SweepOptions,
    SweepState, Timing,
};
use binmap::capability::{Capabilities, Capability};
use binmap::config::{Lto, OptLevel, ProjectConfig, Strip, SweepMatrix};
use binmap::configuration::BuildConfiguration;
use binmap::error::Error;
use binmap::event::{Cancellation, EngineEvent, RecordedEvents, RunId};
use binmap::evidence::{EvidenceId, EvidenceStore, ToolInvocation};
use binmap::facade::{ProbeStatus, Request};
use binmap::finding::{Confidence, FindingKind, Provenance};
use binmap::gate::{Gate, GateOutcome, GateResult, VerificationReport};
use binmap::tool::{SpawnedProcess, ToolOutput, ToolRunner};
use binmap::traits::{BuildOutcome, Target, TargetFamily};

fn strings(items: &[&str]) -> Vec<String> {
    items.iter().map(|s| s.to_string()).collect()
}

fn env_value<'a>(env: &'a [(String, String)], key: &str) -> Option<&'a String> {
    env.iter().find(|(k, _)| k == key).map(|(_, v)| v)
}

fn target() -> Target {
    Target {
        id: "app::app".into(),
        name: "app".into(),
        family: TargetFamily::Rust,
        package: "app".into(),
        manifest: "Cargo.toml".into(),
        capabilities: Capabilities::none(),
    }
}

// ---- cargo

fn system() -> CargoBuildSystem {
    CargoBuildSystem::new(ToolRunner::new(EvidenceStore::new(), ".".into()), "/tmp/binmap-target".into(), None)
}

fn artifact_message(name: &str, executable: Option<&str>, filenames: &[&str]) -> Option<CargoMessage> {
    Some(CargoMessage {
        reason: "compiler-artifact".into(),
        target: Some(name.into()),
        executable: executable.map(String::from),
        filenames: strings(filenames),
    })
}

#[test]
fn a_relative_target_directory_does_not_nest_inside_the_project() {
    let system = CargoBuildSystem::new(
        ToolRunner::new(EvidenceStore::new(), "/home/ada/app".into()),
        "target/binmap".into(),
        None,
    );
    let directory = system.target_directory_for(&BuildConfiguration::default());
    assert!(directory.starts_with('/'), "{directory}");
    assert_eq!(directory, "/home/ada/app/target/binmap/profile-default");
}

#[test]
fn a_sweep_never_touches_the_users_target_directory() {
    let system = system();
    let env = system.environment_for(&BuildConfiguration::default_release());
    let directory = env_value(&env, "CARGO_TARGET_DIR").expect("always set");
    assert!(directory.starts_with("/tmp/binmap-target"), "{directory}");
}

#[test]
fn the_gates_inherit_the_environment_the_build_used() {
    let system = system();
    let configuration = BuildConfiguration { opt_level: Some(OptLevel::Size), ..Default::default() };
    let env = system.environment_for(&configuration);
    assert_eq!(env_value(&env, "CARGO_PROFILE_RELEASE_OPT_LEVEL").map(String::as_str), Some("s"));
    assert!(env_value(&env, "CARGO_TARGET_DIR").is_some());
}

#[test]
fn each_configuration_builds_into_its_own_directory_so_a_resume_finds_it() {
    let system = system();
    let small = BuildConfiguration { opt_level: Some(OptLevel::Size), ..Default::default() };
    let fat = BuildConfiguration { lto: Some(Lto::Fat), ..Default::default() };
    assert_ne!(system.target_directory_for(&small), system.target_directory_for(&fat));
}

#[test]
fn the_configuration_reaches_cargo_through_the_environment_not_a_manifest_edit() {
    let system = system();
    let configuration = BuildConfiguration { opt_level: Some(OptLevel::Size), ..Default::default() };
    let env = system.environment_for(&configuration);
    assert_eq!(env_value(&env, "CARGO_PROFILE_RELEASE_OPT_LEVEL").map(String::as_str), Some("s"));
    // Nothing on the command line mentions the manifest.
    let arguments = system.build_arguments(&target(), &configuration);
    assert!(!arguments.iter().any(|a| a.contains("Cargo.toml")));
}

#[test]
fn the_reproduction_command_is_something_a_user_can_retype() {
    let system = system();
    let configuration = BuildConfiguration { opt_level: Some(OptLevel::Size), ..Default::default() };
    let command = system.reproduction_command(&target(), &configuration);
    assert!(command.starts_with("cargo build --release"), "{command}");
    assert!(command.contains("--config profile.release.opt-level=\"s\""), "{command}");
}

#[test]
fn the_artifact_path_comes_from_cargo_rather_than_from_a_guess() {
    let messages = vec![
        artifact_message("other", Some("/x/other"), &[]),
        artifact_message("app", Some("/x/app"), &[]),
        Some(CargoMessage { reason: "build-finished".into(), target: None, executable: None, filenames: Vec::new() }),
    ];
    assert_eq!(artifact_from_messages(&messages, "app"), Some("/x/app".to_string()));
    assert_eq!(artifact_from_messages(&messages, "absent"), None);
}

#[test]
fn a_library_is_found_through_its_filenames_since_it_has_no_executable() {
    let messages = vec![artifact_message("lib", None, &["/x/liblib.rlib"])];
    assert_eq!(artifact_from_messages(&messages, "lib"), Some("/x/liblib.rlib".to_string()));
}

#[test]
fn the_host_triple_and_the_warnings_are_read_from_what_cargo_printed() {
    let version = "rustc 1.96.0 (abc 2026-01-01)\nbinary: rustc\nhost: x86_64-unknown-linux-gnu\nrelease: 1.96.0\n";
    assert_eq!(host_triple_in(version), Some("x86_64-unknown-linux-gnu".to_string()));
    assert_eq!(host_triple_in("no host here"), None);
    assert_eq!(count_warnings("warning: unused\nwarning: dead\nerror: no\n  warning: indented\n"), 3);
}

#[test]
fn the_extended_sweep_names_the_host_it_builds_for() {
    let system = CargoBuildSystem::new(
        ToolRunner::new(EvidenceStore::new(), "/p".into()),
        "t".into(),
        Some("x86_64-unknown-linux-gnu".into()),
    );
    let configuration =
        BuildConfiguration { build_std: Some(binmap::config::BuildStd::Core), ..Default::default() };
    let arguments = system.build_arguments(&target(), &configuration);
    let target_flag = arguments.iter().position(|a| a == "--target").expect("a --target");
    assert_eq!(arguments[target_flag + 1], "x86_64-unknown-linux-gnu");
}

// ---- manifest edits

fn configuration() -> BuildConfiguration {
    BuildConfiguration {
        opt_level: Some(OptLevel::Size),
        lto: Some(Lto::Fat),
        strip: Some(Strip::Symbols),
        ..BuildConfiguration::default()
    }
}

#[test]
fn an_existing_key_is_changed_in_place() {
    let manifest = "[package]\nname = \"app\"\n\n[profile.release]\nopt-level = 3\nlto = false\n";
    let updated = with_release_profile(manifest, &configuration());
    assert!(updated.contains("opt-level = \"s\""), "{updated}");
    assert!(updated.contains("lto = \"fat\""), "{updated}");
    assert!(updated.contains("strip = \"symbols\""), "{updated}");
    assert!(updated.contains("name = \"app\""));
}

#[test]
fn comments_and_the_users_own_layout_survive_the_edit() {
    let manifest = "\
[profile.release]
# We turned this down in 2024 after the incident.
opt-level  =  3
incremental = true   # keep, the CI cache depends on it
";
    let updated = with_release_profile(manifest, &configuration());
    assert!(updated.contains("# We turned this down in 2024 after the incident."));
    assert!(updated.contains("# keep, the CI cache depends on it"));
    assert!(updated.contains("incremental = true"));
}

#[test]
fn types_are_cargos_not_ours() {
    let numeric = BuildConfiguration { opt_level: Some(OptLevel::Three), ..Default::default() };
    let updated = with_release_profile("[profile.release]\n", &numeric);
    assert!(updated.contains("opt-level = 3"), "{updated}");
    assert!(!updated.contains("opt-level = \"3\""), "{updated}");

    let off = BuildConfiguration { lto: Some(Lto::Off), ..Default::default() };
    let updated = with_release_profile("[profile.release]\n", &off);
    assert!(updated.contains("lto = false"), "{updated}");
}

#[test]
fn a_manifest_with_no_release_profile_gains_one() {
    let manifest = "[package]\nname = \"app\"\n";
    let updated = with_release_profile(manifest, &configuration());
    assert!(updated.contains("[profile.release]"), "{updated}");
    assert!(updated.contains("opt-level = \"s\""), "{updated}");
    assert!(updated.parse::<toml_edit::DocumentMut>().is_ok(), "the result must still parse");
}

#[test]
fn keys_the_configuration_does_not_set_are_left_exactly_alone() {
    let manifest = "[profile.release]\nopt-level = 3\nincremental = true\ndebug-assertions = false\n";
    let updated = with_release_profile(manifest, &configuration());
    assert!(updated.contains("incremental = true"));
    assert!(updated.contains("debug-assertions = false"));
}

#[test]
fn a_per_package_override_is_not_disturbed() {
    let manifest = "\
[profile.release]
opt-level = 3

[profile.release.package.\"*\"]
opt-level = 2
";
    let updated = with_release_profile(manifest, &configuration());
    assert!(updated.contains("[profile.release.package.\"*\"]"), "{updated}");
    let overridden = updated.rsplit("package").next().unwrap_or(&updated);
    assert!(overridden.contains("opt-level = 2"), "{updated}");
}

#[test]
fn a_manifest_we_cannot_parse_is_returned_unchanged_rather_than_guessed_at() {
    let broken = "[profile.release\nopt-level = ";
    assert_eq!(with_release_profile(broken, &configuration()), broken);
}

#[test]
fn a_configuration_that_sets_nothing_produces_no_edit_and_no_diff() {
    let manifest = "[profile.release]\nopt-level = 3\n";
    let updated = with_release_profile(manifest, &BuildConfiguration::default());
    assert_eq!(updated, manifest);
    assert_eq!(unified_diff("Cargo.toml", manifest, &updated), "");
}

#[test]
fn the_diff_names_the_file_and_shows_both_sides() {
    let manifest = "[profile.release]\nopt-level = 3\nlto = false\n";
    let updated = with_release_profile(manifest, &configuration());
    let diff = unified_diff("Cargo.toml", manifest, &updated);

    assert!(diff.contains("--- a/Cargo.toml"), "{diff}");
    assert!(diff.contains("+++ b/Cargo.toml"), "{diff}");
    assert!(diff.contains("-opt-level = 3"), "{diff}");
    assert!(diff.contains("+opt-level = \"s\""), "{diff}");
}

// ---- binmap.toml

fn config_with(contents: &str) -> (ProjectConfig, binmap::error::Error) {
    let mut config = ProjectConfig::new("/project".into(), Some(8));
    let error = apply(&mut config, Some(contents.to_string())).unwrap_err();
    (config, error)
}

fn applied(contents: &str) -> ProjectConfig {
    let mut config = ProjectConfig::new("/project".into(), Some(8));
    assert!(apply(&mut config, Some(contents.to_string())).unwrap());
    config
}

#[test]
fn a_project_without_the_file_keeps_the_defaults() {
    let mut config = ProjectConfig::new("/project".into(), Some(8));
    let defaults = config.matrix.clone();
    assert!(!apply(&mut config, None).unwrap());
    assert_eq!(config.matrix, defaults);
}

#[test]
fn an_axis_can_be_narrowed_or_widened() {
    let config = applied("[sweep]\nopt-level = [\"3\", \"z\"]\noverflow-checks = [false, true]\n");
    assert_eq!(config.matrix.opt_level, vec![OptLevel::Three, OptLevel::SizeNoLoopVec]);
    assert_eq!(config.matrix.overflow_checks, vec![false, true]);
    // Axes the file did not mention are untouched.
    assert_eq!(config.matrix.lto, SweepMatrix::default().lto);
}

#[test]
fn numbers_and_booleans_are_accepted_where_names_are() {
    let config = applied("[sweep]\nopt-level = [3, \"s\"]\nlto = [false, \"fat\"]\n");
    assert_eq!(config.matrix.opt_level, vec![OptLevel::Three, OptLevel::Size]);
    assert_eq!(config.matrix.lto, vec![Lto::Off, Lto::Fat]);
}

#[test]
fn a_value_we_do_not_recognise_is_refused_and_named() {
    let (_, error) = config_with("[sweep]\nopt-level = [\"fast\"]\n");
    let error = error.to_string();
    assert!(error.contains("opt-level"), "{error}");
    assert!(error.contains("fast"), "{error}");
}

#[test]
fn a_benchmark_is_read_and_never_invented() {
    let config = applied("[benchmark]\nprogram = \"{artifact}\"\narguments = [\"--bench\"]\nsamples = 20\n");
    let benchmark = config.benchmark.expect("declared");
    assert_eq!(benchmark.program, "{artifact}");
    assert_eq!(benchmark.arguments, ["--bench"]);
    assert_eq!(benchmark.samples, 20);

    // And a project that declares none still has none.
    let bare = applied("[sweep]\n");
    assert!(bare.benchmark.is_none());
}

#[test]
fn a_benchmark_with_no_program_says_so() {
    let (_, error) = config_with("[benchmark]\nsamples = 10\n");
    let error = error.to_string();
    assert!(error.contains("needs a `program`"), "{error}");
}

#[test]
fn malformed_toml_names_the_file() {
    let (_, error) = config_with("[sweep\nopt-level = ");
    let error = error.to_string();
    assert!(error.contains(FILE), "{error}");
}

#[test]
fn a_benchmark_samples_at_least_three_times_and_parallelism_is_at_least_one() {
    let config = applied("[benchmark]\nprogram = \"x\"\nsamples = 1\n[sweep]\nparallelism = 0\ncodegen-units = [1, 16]\n");
    assert_eq!(config.benchmark.expect("declared").samples, 3);
    assert_eq!(config.parallelism, 1);
    assert_eq!(config.matrix.codegen_units, vec![1, 16]);
}

// ---- project discovery

fn package(name: &str, targets: &[(&str, &str)]) -> MetadataPackage {
    MetadataPackage {
        id: format!("{name} 0.1.0"),
        name: name.into(),
        manifest_path: format!("/w/crates/{name}/Cargo.toml"),
        targets: targets.iter().map(|(n, k)| MetadataTarget { name: (*n).into(), kind: vec![(*k).into()] }).collect(),
    }
}

fn workspace() -> (ProjectKind, Vec<Target>) {
    let packages = vec![
        package("binmap-gui", &[("binmap", "bin"), ("interaction", "test")]),
        package("binmap-core", &[("binmap_core", "lib")]),
        package("outside", &[("outside", "lib")]),
    ];
    let members = vec!["binmap-gui 0.1.0".to_string(), "binmap-core 0.1.0".to_string()];
    project_from(&packages, &members)
}

#[test]
fn opening_a_project_enumerates_its_targets_up_front() {
    let (_, targets) = workspace();
    let engine = BinmapEngine::open(
        ProjectConfig::new("/w".into(), Some(4)),
        FakeCargo::new(1000),
        ToolRunner::new(EvidenceStore::new(), "/w".into()),
        targets,
    );
    let targets = engine.targets();
    assert!(targets.iter().any(|t| t.id == "binmap-gui::binmap"), "{targets:?}");
    // Every one states what it can do, in the words the project view uses.
    assert!(targets.iter().all(|t| !t.capabilities.is_empty()));
}

#[test]
fn our_own_workspace_enumerates_as_a_workspace() {
    let (kind, targets) = workspace();
    match kind {
        ProjectKind::Workspace { members } => assert!(members.contains(&"binmap-core".to_string()), "{members:?}"),
        other => panic!("expected a workspace, got {other:?}"),
    }
    let ids: Vec<&str> = targets.iter().map(|t| t.id.as_str()).collect();
    assert_eq!(ids, vec!["binmap-core::binmap_core", "binmap-gui::binmap"]);
}

#[test]
fn every_target_states_what_binmap_can_do_with_it() {
    let (_, targets) = workspace();
    let target = targets.first().expect("the workspace has targets");
    assert_eq!(target.capabilities.sentence(), "Binmap can sweep build configurations.");
    assert!(!target.capabilities.has(Capability::ReplayDebugging));
}

// ---- the environment

fn tool_output(stdout: &str, exit_code: i32) -> Result<ToolOutput, Error> {
    let mut runner = ToolRunner::new(EvidenceStore::new(), ".".into());
    let pending = runner.begin(ToolInvocation::new("tool".into(), Vec::new()));
    runner.finish(
        pending,
        Ok(SpawnedProcess { stdout: stdout.into(), stderr: String::new(), exit_code: Some(exit_code), duration_nanos: 1 }),
    )
}

fn missing() -> Result<ToolOutput, Error> {
    Err(Error::ToolUnavailable { tool: "tool".into(), reason: "not found".into() })
}

#[test]
fn every_failing_probe_carries_a_command_not_a_description() {
    let probes = vec![
        version_probe("Rust", "cargo", "Install Rust from https://rustup.rs, then reopen this project.", &missing()),
        version_probe("Rust", "rustc", "rustup toolchain install stable", &tool_output("", 2)),
        nightly_probe(&missing()),
        nightly_probe(&tool_output("rust-src (available)\n", 0)),
        git_probe(&missing(), false),
        sanitizer_probe(&missing()),
    ];
    for probe in &probes {
        assert_ne!(probe.status, ProbeStatus::Present, "{}", probe.name);
        let remedy = probe.remedy.as_ref().expect("a failing probe says what to type");
        assert!(!remedy.is_empty());
    }
    assert_eq!(probes[1].detail, "`rustc` is on PATH but exited 2");
    assert_eq!(probes[0].detail, "`cargo` is not on PATH");
}

#[test]
fn every_probe_says_what_it_found_and_where_it_belongs() {
    let cargo = version_probe("Rust", "cargo", "install", &tool_output("cargo 1.96.0 (abc)\nmore\n", 0));
    assert_eq!(cargo.status, ProbeStatus::Present);
    assert_eq!(cargo.group, "Rust");
    assert_eq!(cargo.detail, "cargo 1.96.0 (abc)");
    assert!(cargo.remedy.is_none());

    let nightly = nightly_probe(&tool_output("rust-docs\nrust-src (installed)\n", 0));
    assert_eq!(nightly.status, ProbeStatus::Present);

    let git = git_probe(&tool_output("a1b2c3d\n", 0), true);
    assert_eq!(git.status, ProbeStatus::Present);
    assert!(git.detail.starts_with("a1b2c3d, with uncommitted changes"), "{}", git.detail);

    let miri = sanitizer_probe(&tool_output("  miri 0.1.0  \n", 0));
    assert_eq!(miri.detail, "miri 0.1.0");
}

#[test]
fn a_dirty_tree_is_one_with_anything_to_report() {
    assert!(is_dirty(&tool_output(" M src/lib.rs\n", 0)));
    assert!(!is_dirty(&tool_output("  \n", 0)));
    assert!(!is_dirty(&missing()));
}

// ---- the sweep

/// A build system that produces artifacts of a size we choose, so a sweep can
/// be tested end to end without waiting for rustc.
struct FakeCargo {
    /// Bytes per configuration name; anything unlisted gets the default.
    sizes: Vec<(String, u64)>,
    default_size: u64,
    /// Configuration names whose build fails.
    broken: Vec<String>,
    builds: u32,
    /// Cancel this flag once this many builds have run, as a user watching
    /// the sweep would.
    stop_after: Option<(u32, Cancellation)>,
}

impl FakeCargo {
    fn new(default_size: u64) -> Self {
        FakeCargo { sizes: Vec::new(), default_size, broken: Vec::new(), builds: 0, stop_after: None }
    }

    fn sized(mut self, name: &str, bytes: u64) -> Self {
        self.sizes.push((name.to_string(), bytes));
        self
    }

    fn breaking(mut self, name: &str) -> Self {
        self.broken.push(name.to_string());
        self
    }

    fn record(runner: &mut ToolRunner, tool: &str, arguments: &[&str], output: &str, code: i32) -> EvidenceId {
        let pending = runner.begin(ToolInvocation::new(tool.into(), strings(arguments)));
        let spawned =
            SpawnedProcess { stdout: output.into(), stderr: String::new(), exit_code: Some(code), duration_nanos: 1 };
        runner.finish(pending, Ok(spawned)).unwrap().evidence
    }
}

impl SweepBackend for FakeCargo {
    fn build(
        &mut self,
        runner: &mut ToolRunner,
        _target: &Target,
        configuration: &BuildConfiguration,
    ) -> Result<BuildOutcome, Error> {
        self.builds += 1;
        if let Some((limit, cancellation)) = &self.stop_after {
            if self.builds >= *limit {
                cancellation.cancel();
            }
        }
        let name = configuration.name();
        if self.broken.contains(&name) {
            let evidence =
                Self::record(runner, "cargo", &["build", "--release", "--config", &name], "error: it does not build", 1);
            return Ok(BuildOutcome {
                configuration: configuration.clone(),
                artifact: None,
                succeeded: false,
                duration_nanos: 10_000_000,
                warnings: 0,
                evidence,
            });
        }
        let evidence = Self::record(runner, "cargo", &["build", "--release", "--config", &name], "built", 0);
        Ok(BuildOutcome {
            configuration: configuration.clone(),
            artifact: Some(format!("/fake/{name}")),
            succeeded: true,
            duration_nanos: 100_000_000,
            warnings: 0,
            evidence,
        })
    }

    fn measure_size(&mut self, runner: &mut ToolRunner, artifact: &str) -> Result<(u64, EvidenceId), Error> {
        let name = artifact.trim_start_matches("/fake/");
        let bytes = self.sizes.iter().find(|(n, _)| n == name).map(|(_, b)| *b).unwrap_or(self.default_size);
        let evidence = Self::record(runner, "size", &[artifact], &bytes.to_string(), 0);
        Ok((bytes, evidence))
    }

    fn verify(&mut self, runner: &mut ToolRunner, candidate: &Candidate) -> VerificationReport {
        let built = Self::record(runner, "sh", &["-c", "true"], "", 0);
        let tested = Self::record(runner, "sh", &["-c", "true"], "", 0);
        VerificationReport {
            candidate: candidate.name.clone(),
            outcomes: vec![
                GateOutcome::new(Gate::Builds, GateResult::Passed, "built".into()).citing(built),
                GateOutcome::new(Gate::TestsPass, GateResult::Passed, "passed".into()).citing(tested),
            ],
        }
    }

    fn has_benchmark(&self) -> bool {
        false
    }

    fn samples(&mut self, _runner: &mut ToolRunner, _artifact: &str) -> Result<Vec<u64>, Error> {
        Ok(Vec::new())
    }

    fn compare(&mut self, _baseline: &Vec<u64>, _samples: &Vec<u64>) -> Timing {
        Timing { median_nanos: None, regression: None }
    }

    fn artifact_exists(&mut self, _artifact: &str) -> bool {
        true
    }

    fn percent_under(&self, baseline: u64, best: u64) -> String {
        format!("{:.1}", (baseline as f64 - best as f64) / baseline as f64 * 100.0)
    }
}

/// A four-point matrix: two axes, small enough to read in a failure message.
fn small_matrix() -> SweepMatrix {
    SweepMatrix {
        opt_level: vec![OptLevel::Three, OptLevel::Size],
        lto: vec![Lto::Off, Lto::Fat],
        codegen_units: Vec::new(),
        panic: Vec::new(),
        strip: Vec::new(),
        debug: Vec::new(),
        overflow_checks: Vec::new(),
        build_std: Vec::new(),
        target_cpu: Vec::new(),
    }
}

fn state_for(matrix: &SweepMatrix) -> SweepState {
    SweepState::new(RunId("run-1".into()), "app::app".into(), BuildConfiguration::expand(matrix))
}

fn runner() -> ToolRunner {
    ToolRunner::new(EvidenceStore::new(), "/project".into())
}

fn reduction(state: &SweepState) -> Option<f64> {
    state.best_size_reduction().map(|(baseline, best)| (baseline as f64 - best as f64) / baseline as f64)
}

#[test]
fn a_sweep_measures_every_configuration_and_states_them_against_the_baseline() {
    let baseline = BuildConfiguration::default_release().name();
    let mut builder = FakeCargo::new(1000).sized(&baseline, 4000);
    let mut runner = runner();
    let sweep = Sweep { options: SweepOptions::new() };

    let mut state = state_for(&small_matrix());
    let mut events = RecordedEvents::new();
    sweep.run(&mut builder, &mut runner, &target(), &mut state, &mut events, &Cancellation::new()).unwrap();

    assert_eq!(state.measured.len(), 4);
    assert!(state.complete);
    // Every number is stated against default release, which was measured first.
    assert_eq!(state.baseline_bytes, Some(4000));
    // 1000 bytes against a 4000-byte baseline is a 75% reduction.
    assert_eq!(reduction(&state), Some(0.75));

    let terminal: Vec<_> = events.events().into_iter().filter(|e| e.is_terminal()).collect();
    assert_eq!(terminal.len(), 1);
    match terminal.last() {
        Some(EngineEvent::Finished { summary, .. }) => assert_eq!(
            summary,
            "4 configurations measured, 4 passed every gate, 4 on the frontier; the smallest is 75.0% under default release"
        ),
        other => panic!("expected the run to finish, got {other:?}"),
    }
}

#[test]
fn findings_stream_as_they_are_discovered_rather_than_arriving_in_a_batch() {
    let mut builder = FakeCargo::new(1000);
    let mut runner = runner();
    let sweep = Sweep { options: SweepOptions::new() };

    let mut state = state_for(&small_matrix());
    let mut events = RecordedEvents::new();
    sweep.run(&mut builder, &mut runner, &target(), &mut state, &mut events, &Cancellation::new()).unwrap();

    let all = events.events();
    let last_finding = all.iter().rposition(|e| matches!(e, EngineEvent::Finding { .. })).unwrap();
    let first_finding = all.iter().position(|e| matches!(e, EngineEvent::Finding { .. })).unwrap();
    let finished = all.iter().position(|e| matches!(e, EngineEvent::Finished { .. })).unwrap();

    assert!(first_finding < last_finding, "findings should not all arrive at once");
    assert!(last_finding < finished, "findings arrive before the run ends");

    // Every finding is grounded, by construction.
    for finding in events.findings() {
        assert!(!finding.evidence.is_empty());
        for id in &finding.evidence {
            assert!(runner.store().issued(id));
        }
    }
}

#[test]
fn a_configuration_that_does_not_build_stays_visible_as_a_rejected_candidate() {
    let mut builder = FakeCargo::new(1000).breaking("ols-lfat");
    let mut runner = runner();
    let sweep = Sweep { options: SweepOptions::new() };

    let mut state = state_for(&small_matrix());
    let mut events = RecordedEvents::new();
    sweep.run(&mut builder, &mut runner, &target(), &mut state, &mut events, &Cancellation::new()).unwrap();

    let broken = state.measured.iter().find(|m| m.name == "ols-lfat").expect("still in the table");
    assert!(!broken.built);
    // It has no size, so it cannot reach the frontier, but it was not dropped.
    assert_eq!(broken.size_bytes, None);
    assert_eq!(state.measured.len(), 4);

    let frontier_names: Vec<&str> = state.frontier().into_iter().map(|i| state.measured[i].name.as_str()).collect();
    assert!(!frontier_names.contains(&"ols-lfat"), "{frontier_names:?}");
}

#[test]
fn cancelling_keeps_what_was_measured_and_a_resume_owes_only_the_rest() {
    let mut builder = FakeCargo::new(1000);
    let mut runner = runner();
    let cancellation = Cancellation::new();
    // Cancel before any configuration is built.
    cancellation.cancel();

    let sweep = Sweep { options: SweepOptions::new() };
    let mut state = state_for(&small_matrix());
    let mut events = RecordedEvents::new();
    sweep.run(&mut builder, &mut runner, &target(), &mut state, &mut events, &cancellation).unwrap();

    assert!(!state.complete);
    assert_eq!(state.remaining().len(), 4, "everything is still owed");
    assert!(matches!(events.events().last(), Some(EngineEvent::Cancelled { .. })));

    // Resuming finishes the job without repeating anything.
    let fresh = Cancellation::new();
    sweep.run(&mut builder, &mut runner, &target(), &mut state, &mut events, &fresh).unwrap();
    assert!(state.complete);
    assert_eq!(state.measured.len(), 4);
    assert!(state.remaining().is_empty());
}

#[test]
fn a_resume_does_not_rebuild_what_it_already_measured() {
    let mut builder = FakeCargo::new(1000);
    let mut runner = runner();
    let sweep = Sweep { options: SweepOptions::new() };
    let mut state = state_for(&small_matrix());
    let mut events = RecordedEvents::new();

    sweep.run(&mut builder, &mut runner, &target(), &mut state, &mut events, &Cancellation::new()).unwrap();
    let after_first = builder.builds;

    // Running again over a complete state builds nothing but the baseline,
    // which is already known: so nothing at all.
    sweep.run(&mut builder, &mut runner, &target(), &mut state, &mut events, &Cancellation::new()).unwrap();
    assert_eq!(builder.builds, after_first);
}

#[test]
fn a_parallel_sweep_records_no_build_times_rather_than_wrong_ones() {
    let mut builder = FakeCargo::new(1000);
    let mut runner = runner();
    let options = SweepOptions::new().with_parallelism(4);
    assert!(!options.build_time_is_measurable());

    let sweep = Sweep { options };
    let mut state = state_for(&small_matrix());
    sweep.run(&mut builder, &mut runner, &target(), &mut state, &mut RecordedEvents::new(), &Cancellation::new()).unwrap();

    assert_eq!(state.measured.len(), 4);
    for measured in &state.measured {
        assert_eq!(measured.build_time_nanos, None, "{} claimed a build time from a concurrent sweep", measured.name);
    }
}

#[test]
fn a_serial_sweep_does_record_build_times() {
    let mut builder = FakeCargo::new(1000);
    let mut runner = runner();
    let sweep = Sweep { options: SweepOptions::new().with_parallelism(1) };
    let mut state = state_for(&small_matrix());
    sweep.run(&mut builder, &mut runner, &target(), &mut state, &mut RecordedEvents::new(), &Cancellation::new()).unwrap();

    assert!(state.measured.iter().all(|m| m.build_time_nanos.is_some()));
}

#[test]
fn the_frontier_finding_is_derived_and_says_which_rule_derived_it() {
    let mut builder = FakeCargo::new(1000).sized("ols-lfat", 500);
    let mut runner = runner();
    let sweep = Sweep { options: SweepOptions::new() };
    let mut state = state_for(&small_matrix());
    let mut events = RecordedEvents::new();
    sweep.run(&mut builder, &mut runner, &target(), &mut state, &mut events, &Cancellation::new()).unwrap();

    let frontier: Vec<_> = events.findings().into_iter().filter(|f| f.kind == FindingKind::FrontierPoint).collect();
    assert!(!frontier.is_empty());
    for finding in &frontier {
        assert_eq!(finding.provenance, Provenance::Derived { rule: "pareto-dominance".into() });
        assert_eq!(finding.confidence, Confidence::High);
        assert_eq!(finding.provenance.glyph(), '◈');
    }
    // The smallest configuration dominates every other one.
    assert_eq!(frontier.len(), 1);
    assert_eq!(frontier[0].id, "frontier-ols-lfat");
}

#[test]
fn a_sweep_stopped_midway_keeps_what_it_measured() {
    let mut builder = FakeCargo::new(1000);
    let cancellation = Cancellation::new();
    builder.stop_after = Some((3, cancellation.clone()));
    let mut runner = runner();
    let sweep = Sweep { options: SweepOptions::new() };
    let mut state = state_for(&small_matrix());
    let mut events = RecordedEvents::new();
    sweep.run(&mut builder, &mut runner, &target(), &mut state, &mut events, &cancellation).unwrap();

    // The baseline and two configurations were built before the stop.
    assert_eq!(state.measured.len(), 2);
    assert!(!state.complete);
    assert_eq!(state.remaining().len(), 2);
    assert!(matches!(events.events().last(), Some(EngineEvent::Cancelled { completed: 2, .. })));
}

#[test]
fn a_baseline_that_does_not_build_fails_the_run_and_says_why() {
    let mut builder = FakeCargo::new(1000).breaking("profile-default");
    let mut runner = runner();
    let sweep = Sweep { options: SweepOptions::new() };
    let mut state = state_for(&small_matrix());
    let mut events = RecordedEvents::new();
    let error = sweep.run(&mut builder, &mut runner, &target(), &mut state, &mut events, &Cancellation::new()).unwrap_err();
    assert_eq!(error.to_string(), "default release does not build; there is nothing to compare to");
    assert!(matches!(events.events().last(), Some(EngineEvent::Failed { .. })));
    assert!(state.measured.is_empty());
}

#[test]
fn the_frontier_is_pareto_dominance_smallest_first() {
    let point = |size: u64, build: Option<u64>, eligible: bool| Point {
        size_bytes: size,
        build_time_nanos: build,
        runtime_nanos: None,
        eligible,
    };
    let points = vec![
        point(300, Some(10), true),
        point(100, Some(50), true),
        point(200, Some(60), true),  // dominated by the second
        point(50, Some(5), false),   // would dominate everything, but failed a gate
        point(100, Some(50), true),  // equal to the second: neither dominates
        point(300, None, true),      // dominated by the first: an unmeasured axis never wins
    ];
    assert_eq!(frontier_by_size(&points), vec![1, 4, 0]);
}

#[test]
fn a_regression_found_by_the_benchmark_rejects_the_candidate() {
    let mut report = VerificationReport {
        candidate: "ols".into(),
        outcomes: vec![
            GateOutcome::new(Gate::Builds, GateResult::Passed, "built".into()),
            GateOutcome::new(Gate::BenchmarkNotWorse, GateResult::Passed, "no change".into()),
        ],
    };
    reject_on_regression(&mut report, "12% slower".into());
    assert_eq!(report.rejected_by(), Some(Gate::BenchmarkNotWorse));
    assert_eq!(report.outcomes[1].detail, "12% slower");
    assert_eq!(report.outcomes[0].result, GateResult::Passed);
}

#[test]
fn a_size_delta_is_signed_against_the_baseline() {
    assert_eq!(size_delta(4000, 1000), -3000);
    assert_eq!(size_delta(1000, 4000), 3000);
    assert_eq!(size_delta(7, 7), 0);
}

#[test]
fn a_parallelism_of_zero_means_one() {
    assert_eq!(SweepOptions::new().with_parallelism(0).parallelism, 1);
    assert_eq!(SweepOptions::new().noise_floor_samples, 7);
}

// ---- the engine

fn engine() -> BinmapEngine<FakeCargo> {
    let mut config = ProjectConfig::new("/w".into(), Some(4));
    config.matrix = small_matrix();
    let mut app = target();
    app.capabilities = Capabilities::of(&[Capability::ConfigurationSweep]);
    BinmapEngine::open(config, FakeCargo::new(1000), ToolRunner::new(EvidenceStore::new(), "/w".into()), vec![app])
}

#[test]
fn asking_for_a_target_that_is_not_there_says_which_one() {
    let mut engine = engine();
    let error = engine.start(Request::Sweep { target: "ghost::ghost".into() }).unwrap_err();
    assert!(error.to_string().contains("ghost::ghost"), "{}", error.to_string());
}

#[test]
fn resuming_a_sweep_that_never_ran_says_so_rather_than_starting_one() {
    let mut engine = engine();
    let error = engine.start(Request::ResumeSweep { run: RunId("run-9999".into()) }).unwrap_err();
    assert!(error.to_string().contains("run-9999"), "{}", error.to_string());
}

#[test]
fn phase_zero_says_plainly_that_applying_is_not_built_yet() {
    let mut engine = engine();
    let error = engine.start(Request::Apply { proposal: "apply-ols".into() }).unwrap_err();
    let message = error.to_string();
    assert!(message.contains("apply-ols"), "{message}");
    assert!(message.contains("apply dialog"), "{message}");
}

#[test]
fn a_proposal_shows_the_diff_without_writing_anything() {
    let mut engine = engine();
    let before = "[package]\nname = \"w\"\n\n[profile.release]\nopt-level = 3\n";
    let configuration = BuildConfiguration { opt_level: Some(OptLevel::Size), ..Default::default() };
    let proposal = engine.propose_configuration(&configuration, before);

    assert_eq!(proposal.writes, vec!["/w/Cargo.toml".to_string()]);
    assert!(proposal.diff.contains("+opt-level = \"s\""), "{}", proposal.diff);
    assert!(proposal.summary.contains("[profile.release]"));
    assert_eq!(proposal.id, "apply-ols");
    assert_eq!(engine.proposals().len(), 1);
}

#[test]
fn evidence_for_a_finding_that_does_not_exist_is_empty_rather_than_a_panic() {
    let engine = engine();
    assert!(engine.evidence("no-such-finding").is_empty());
    assert!(engine.findings().is_empty());
}

#[test]
fn a_run_adopted_from_a_previous_session_can_be_resumed() {
    let mut engine = engine();
    let run = RunId("run-0001".into());
    let state = SweepState::new(run.clone(), "app::app".into(), Vec::new());
    engine.adopt_run(state);

    assert!(engine.run_state(&run).is_some());
    assert_eq!(engine.run_states().len(), 1);
    assert!(engine.start(Request::ResumeSweep { run }).is_ok());
}

#[test]
fn runs_are_numbered_in_the_order_they_are_started() {
    let mut engine = engine();
    let (first, _) = engine.start(Request::Sweep { target: "app::app".into() }).unwrap();
    let (second, _) = engine.start(Request::NoiseFloor { target: "app::app".into() }).unwrap();
    assert_eq!(first, RunId("run-0001".into()));
    assert_eq!(second, RunId("run-0002".into()));
    // A noise-floor run is registered before it starts, with nothing planned.
    assert!(engine.run_state(&second).expect("registered").planned.is_empty());
    assert!(engine.run_state(&first).is_none());
}

#[test]
fn a_sweep_run_by_the_engine_keeps_its_state_and_its_findings() {
    let mut engine = engine();
    let (run, target) = engine.start(Request::Sweep { target: "app::app".into() }).unwrap();
    let mut events = RecordedEvents::new();
    engine.sweep_blocking(run.clone(), &target, &mut events, &Cancellation::new());

    let state = engine.run_state(&run).expect("the sweep leaves state");
    assert!(state.complete);
    assert_eq!(state.measured.len(), 4);
    assert_eq!(engine.findings().len(), events.findings().len());
    let first = &engine.findings()[0];
    let evidence = engine.evidence(&first.id);
    assert_eq!(evidence.len(), first.evidence.len());
    assert!(evidence.iter().all(|record| record.digest_matches()));
}

fn cited(id: &str) -> EvidenceId {
    EvidenceId::recorded(id.to_string())
}

fn gated(ids: &[&str]) -> GateOutcome {
    let mut outcome = GateOutcome::new(Gate::Builds, GateResult::Passed, "builds".to_string());
    outcome.evidence = ids.iter().map(|id| cited(id)).collect();
    outcome
}

#[test]
fn a_measurement_keeps_the_build_the_size_and_every_gate_in_order() {
    let configuration = BuildConfiguration { opt_level: Some(OptLevel::Size), ..BuildConfiguration::default() };
    let build = BuildOutcome {
        configuration: configuration.clone(),
        artifact: Some("target/release/app".into()),
        succeeded: true,
        duration_nanos: 42,
        warnings: 0,
        evidence: cited("ev-build"),
    };
    let report = VerificationReport {
        candidate: configuration.name(),
        outcomes: vec![gated(&["ev-gate-1", "ev-gate-2"]), gated(&[]), gated(&["ev-gate-3"])],
    };
    let measured = measurement_of(&configuration, Ok(build), Some(Ok((1234, cited("ev-size")))), report, true);
    assert!(measured.built);
    assert_eq!(measured.name, configuration.name());
    assert_eq!(measured.artifact.as_deref(), Some("target/release/app"));
    assert_eq!(measured.size_bytes, Some(1234));
    assert_eq!(measured.build_time_nanos, Some(42));
    assert_eq!(measured.runtime_nanos, None);
    let ids: Vec<String> = measured.evidence.iter().map(|id| id.to_string()).collect();
    assert_eq!(ids, vec!["ev-build", "ev-size", "ev-gate-1", "ev-gate-2", "ev-gate-3"]);
}

#[test]
fn a_failed_build_is_not_built_and_its_time_is_not_kept() {
    let configuration = BuildConfiguration::default();
    let build = BuildOutcome {
        configuration: configuration.clone(),
        artifact: None,
        succeeded: false,
        duration_nanos: 42,
        warnings: 3,
        evidence: cited("ev-build"),
    };
    let report = VerificationReport { candidate: configuration.name(), outcomes: vec![] };
    let measured = measurement_of(&configuration, Ok(build), None, report, true);
    assert!(!measured.built);
    assert_eq!(measured.build_time_nanos, None);
    assert_eq!(measured.size_bytes, None);
    assert_eq!(measured.evidence.len(), 1);

    let report = VerificationReport { candidate: configuration.name(), outcomes: vec![] };
    let errored = measurement_of(&configuration, Err(Error::Other("cargo is missing".into())), None, report, true);
    assert!(!errored.built);
    assert_eq!(errored.artifact, None);
    assert!(errored.evidence.is_empty());
}

#[test]
fn build_time_is_dropped_when_builds_ran_side_by_side() {
    let configuration = BuildConfiguration::default();
    let build = BuildOutcome {
        configuration: configuration.clone(),
        artifact: Some("a".into()),
        succeeded: true,
        duration_nanos: 42,
        warnings: 0,
        evidence: cited("ev-build"),
    };
    let report = VerificationReport { candidate: configuration.name(), outcomes: vec![] };
    let measured = measurement_of(&configuration, Ok(build), Some(Err(Error::Other("gone".into()))), report, false);
    assert!(measured.built);
    assert_eq!(measured.build_time_nanos, None);
    assert_eq!(measured.size_bytes, None);
    assert_eq!(measured.evidence.len(), 1);
}

fn metadata_output(exit_code: i32, stdout: &str, stderr: &str) -> ToolOutput {
    ToolOutput {
        evidence: cited("ev-metadata"),
        stdout: stdout.into(),
        stderr: stderr.into(),
        exit_code,
        duration_nanos: 1,
    }
}

fn arguments_of(action: &DiscoveryAction) -> Vec<String> {
    match action {
        DiscoveryAction::Run(invocation) => invocation.arguments.clone(),
        other => panic!("expected a run, got {other:?}"),
    }
}

#[test]
fn a_directory_with_no_manifest_says_so_by_path() {
    let DiscoveryAction::Fail(error) = discovery_step("/tmp", false, &Vec::new()) else {
        panic!("/tmp has no Cargo.toml");
    };
    assert!(matches!(error, Error::NoProject(_)));
    assert!(error.to_string().contains("/tmp"));
}

#[test]
fn opening_something_that_is_not_a_project_fails_by_path() {
    let step = discovery_step("/tmp/definitely-not-a-cargo-project", false, &Vec::new());
    let DiscoveryAction::Fail(error) = step else {
        panic!("/tmp/definitely-not-a-cargo-project is not a cargo project");
    };
    assert!(matches!(error, Error::NoProject(_)), "{}", error.to_string());
}

#[test]
fn discovery_asks_cargo_offline_first_then_once_online() {
    let first = discovery_step("/work/app", true, &Vec::new());
    assert_eq!(arguments_of(&first), strings(&["metadata", "--no-deps", "--format-version", "1", "--offline"]));
    let DiscoveryAction::Run(invocation) = &first else { unreachable!() };
    assert_eq!(invocation.tool, "cargo");
    assert_eq!(invocation.working_directory.as_deref(), Some("/work/app"));

    let offline_failed = vec![metadata_output(101, "", "error: no matching package named `serde` found")];
    let retry = discovery_step("/work/app", true, &offline_failed);
    assert_eq!(arguments_of(&retry), strings(&["metadata", "--no-deps", "--format-version", "1"]));
}

#[test]
fn discovery_reads_the_first_metadata_that_succeeds() {
    let ok = vec![metadata_output(0, "{\"packages\":[]}", "")];
    match discovery_step("/work/app", true, &ok) {
        DiscoveryAction::Read(document) => assert_eq!(document, "{\"packages\":[]}"),
        other => panic!("expected a read, got {other:?}"),
    }
    let retried = vec![metadata_output(101, "", "error: offline"), metadata_output(0, "{}", "")];
    assert!(matches!(discovery_step("/work/app", true, &retried), DiscoveryAction::Read(d) if d == "{}"));
}

#[test]
fn discovery_gives_up_after_the_retry_with_cargos_own_words() {
    let failed = vec![
        metadata_output(101, "", "error: offline"),
        metadata_output(101, "", "   Updating index\n  error: failed to parse manifest at `/work/app/Cargo.toml`\n"),
    ];
    let DiscoveryAction::Fail(error) = discovery_step("/work/app", true, &failed) else {
        panic!("a failed retry is the end");
    };
    assert_eq!(error.to_string(), "error: failed to parse manifest at `/work/app/Cargo.toml`");

    let silent = vec![metadata_output(101, "", ""), metadata_output(101, "", "warning: nothing useful")];
    let DiscoveryAction::Fail(error) = discovery_step("/work/app", true, &silent) else {
        panic!("a failed retry is the end");
    };
    assert_eq!(error.to_string(), "cargo metadata failed");
}
