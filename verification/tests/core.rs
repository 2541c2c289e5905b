use binmap::capability::{Capabilities, Capability};
use binmap::config::{Lto, OptLevel, Strip, SweepMatrix, TrustTier};
use binmap::configuration::BuildConfiguration;
use binmap::error::Error;
use binmap::event::{Cancellation, EngineEvent, EventSink, RecordedEvents, RunId};
use binmap::evidence::{Evidence, EvidenceId, EvidenceStore, ToolInvocation};
use binmap::finding::{Confidence, Finding, FindingDraft, FindingKind, Impact, Provenance};
use binmap::gate::{Gate, GateOutcome, GateResult, VerificationReport};
use binmap::tool::{SpawnedProcess, ToolRegistry, ToolRunner, ToolSpec};

fn strings(items: &[&str]) -> Vec<String> {
    items.iter().map(|s| s.to_string()).collect()
}

fn invocation(tool: &str, arguments: &[&str]) -> ToolInvocation {
    ToolInvocation::new(tool.to_string(), strings(arguments))
}

fn env_value<'a>(env: &'a [(String, String)], key: &str) -> Option<&'a String> {
    env.iter().find(|(k, _)| k == key).map(|(_, v)| v)
}

fn store_with_one_record() -> (EvidenceStore, EvidenceId) {
    let mut store = EvidenceStore::new();
    let pending = store.begin(invocation("size", &["app"]));
    let id = store.complete(pending, "text 1024".to_string(), 0);
    (store, id)
}

// ---- capabilities

#[test]
fn capabilities_read_as_a_sentence() {
    let one = Capabilities::of(&[Capability::ConfigurationSweep]);
    assert_eq!(one.sentence(), "Binmap can sweep build configurations.");

    let several =
        Capabilities::of(&[Capability::ConfigurationSweep, Capability::SizeAttribution, Capability::Disassembly]);
    assert_eq!(
        several.sentence(),
        "Binmap can sweep build configurations, attribute size to crates and functions and disassemble."
    );

    assert_eq!(Capabilities::none().sentence(), "Nothing Binmap can measure yet.");
}

#[test]
fn a_missing_capability_names_itself() {
    let capabilities = Capabilities::of(&[Capability::SizeAttribution]);
    let error = capabilities.require(Capability::ReplayDebugging).unwrap_err();
    assert!(error.to_string().contains("record and replay execution"));
}

#[test]
fn capabilities_are_a_set() {
    let twice = Capabilities::of(&[Capability::Disassembly, Capability::Disassembly]);
    assert_eq!(twice.iter().len(), 1);
    assert!(twice.has(Capability::Disassembly));
    assert!(!twice.has(Capability::SizeAttribution));
    assert!(Capabilities::none().is_empty());
    assert!(twice.require(Capability::Disassembly).is_ok());
}

// ---- trust tiers and the matrix

#[test]
fn a_blocked_action_states_its_reason() {
    let error = TrustTier::Observe.require(TrustTier::Tune, "write Cargo.toml").unwrap_err();
    let message = error.to_string();
    assert!(message.contains("write Cargo.toml"), "{message}");
    assert!(message.contains("Tune") && message.contains("Observe"), "{message}");
}

#[test]
fn the_dial_reads_the_way_the_design_labels_it() {
    assert_eq!(TrustTier::ALL.map(TrustTier::label), ["Observe", "Propose", "Tune", "Autonomous"]);
    assert_eq!(TrustTier::ALL.map(TrustTier::rank), [0, 1, 2, 3]);
}

#[test]
fn propose_is_the_default_so_the_first_write_is_always_a_decision() {
    assert_eq!(TrustTier::default(), TrustTier::Propose);
    // And the default cannot write build configuration.
    assert!(TrustTier::default().require(TrustTier::Tune, "apply").is_err());
}

#[test]
fn the_default_matrix_states_its_own_size() {
    // 4 opt-levels x 3 lto x 2 cgu x 2 panic x 2 strip x 1 debug x 1 overflow
    assert_eq!(SweepMatrix::default().cardinality(), 96);
}

#[test]
fn an_empty_axis_counts_as_the_profile_default_not_as_zero() {
    let matrix = SweepMatrix {
        opt_level: vec![OptLevel::Three],
        lto: Vec::new(),
        codegen_units: Vec::new(),
        panic: Vec::new(),
        strip: Vec::new(),
        debug: Vec::new(),
        overflow_checks: Vec::new(),
        build_std: Vec::new(),
        target_cpu: Vec::new(),
    };
    assert_eq!(matrix.cardinality(), 1);
}

#[test]
fn cargo_values_serialize_the_way_cargo_reads_them() {
    assert_eq!(OptLevel::Size.as_toml(), "\"s\"");
    assert_eq!(Lto::Off.as_toml(), "false");
    assert_eq!(OptLevel::Size.to_string(), "s");
}

#[test]
fn a_tier_at_or_above_what_is_required_is_allowed() {
    assert!(TrustTier::Tune.require(TrustTier::Tune, "apply").is_ok());
    assert!(TrustTier::Autonomous.require(TrustTier::Observe, "read").is_ok());
    assert_eq!(TrustTier::Observe.permits(), "Observe measures and explains, and writes nothing.");
}

// ---- build configurations

#[test]
fn expansion_produces_exactly_the_matrix_cardinality() {
    let matrix = SweepMatrix::default();
    assert_eq!(BuildConfiguration::expand(&matrix).len(), matrix.cardinality());
}

#[test]
fn expanded_configurations_are_distinct() {
    let configurations = BuildConfiguration::expand(&SweepMatrix::default());
    let unique: std::collections::BTreeSet<_> = configurations.iter().collect();
    assert_eq!(unique.len(), configurations.len());
}

#[test]
fn names_are_distinct_so_cached_builds_do_not_collide() {
    let names: std::collections::BTreeSet<String> =
        BuildConfiguration::expand(&SweepMatrix::default()).iter().map(|c| c.name()).collect();
    assert_eq!(names.len(), SweepMatrix::default().cardinality());
}

#[test]
fn a_sweep_configures_cargo_without_touching_the_manifest() {
    let configuration = BuildConfiguration {
        opt_level: Some(OptLevel::Size),
        lto: Some(Lto::Fat),
        ..BuildConfiguration::default()
    };
    assert_eq!(
        configuration.cargo_config_args(),
        ["--config", "profile.release.opt-level=\"s\"", "--config", "profile.release.lto=\"fat\"",]
    );
}

#[test]
fn an_unset_axis_says_nothing_to_cargo() {
    assert!(BuildConfiguration::default().cargo_config_args().is_empty());
    assert_eq!(BuildConfiguration::default().name(), "profile-default");
}

#[test]
fn the_environment_spells_settings_the_way_cargo_reads_them() {
    // opt-level becomes OPT_LEVEL, and env values are unquoted where TOML
    // values are not.
    let configuration = BuildConfiguration {
        opt_level: Some(OptLevel::SizeNoLoopVec),
        lto: Some(Lto::Fat),
        codegen_units: Some(1),
        ..BuildConfiguration::default()
    };
    let env = configuration.cargo_profile_env();
    assert_eq!(env_value(&env, "CARGO_PROFILE_RELEASE_OPT_LEVEL").map(String::as_str), Some("z"));
    assert_eq!(env_value(&env, "CARGO_PROFILE_RELEASE_LTO").map(String::as_str), Some("fat"));
    assert_eq!(env_value(&env, "CARGO_PROFILE_RELEASE_CODEGEN_UNITS").map(String::as_str), Some("1"));
    // Unset axes say nothing, so the profile's own value stands.
    assert!(env_value(&env, "CARGO_PROFILE_RELEASE_PANIC").is_none());
}

#[test]
fn the_baseline_sets_no_environment_at_all() {
    assert!(BuildConfiguration::default_release().cargo_profile_env().is_empty());
}

#[test]
fn the_baseline_is_the_build_the_user_would_get_without_us() {
    // Not cargo's documented defaults written out: cargo strips debuginfo in
    // release, so an explicit strip="none" measures a binary nobody ships.
    let baseline = BuildConfiguration::default_release();
    assert!(baseline.cargo_config_args().is_empty());
    assert_ne!(baseline, BuildConfiguration::documented_release_defaults());
    assert_eq!(BuildConfiguration::documented_release_defaults().strip, Some(Strip::Nothing));
}

#[test]
fn a_configuration_is_named_and_described_by_what_it_sets() {
    let configuration = BuildConfiguration {
        opt_level: Some(OptLevel::Size),
        lto: Some(Lto::Fat),
        ..BuildConfiguration::default()
    };
    assert_eq!(configuration.name(), "ols-lfat");
    assert_eq!(configuration.describe(), "opt-level=s lto=fat");
    assert_eq!(BuildConfiguration::default().describe(), "the profile's own settings");
}

// ---- events and cancellation

#[test]
fn a_recorded_run_ends_in_exactly_one_terminal_event() {
    let mut sink = RecordedEvents::new();
    let run = RunId("run-1".into());
    sink.emit(EngineEvent::Started { run: run.clone(), description: "sweep".into(), total: Some(2) });
    sink.emit(EngineEvent::Progress { run: run.clone(), completed: 1, message: "built".into() });
    sink.emit(EngineEvent::Cancelled { run: run.clone(), completed: 1 });

    let terminal = sink.events().iter().filter(|e| e.is_terminal()).count();
    assert_eq!(terminal, 1);
}

#[test]
fn cancellation_is_observed_by_the_loop_not_by_the_caller() {
    let cancellation = Cancellation::new();
    assert!(cancellation.check().is_ok());
    cancellation.cancel();
    assert!(matches!(cancellation.check(), Err(Error::Cancelled)));
}

#[test]
fn recorded_findings_come_back_in_order() {
    let (store, id) = store_with_one_record();
    let finding = Finding::new(FindingDraft::new("f1".into(), FindingKind::Diff, "it moved".into()).cite(id), &store)
        .unwrap();
    let mut sink = RecordedEvents::new();
    let run = RunId("run-1".into());
    sink.emit(EngineEvent::Finding { run: run.clone(), finding: Box::new(finding.clone()) });
    sink.emit(EngineEvent::Finished { run: run.clone(), summary: "done".into() });
    assert_eq!(sink.findings(), vec![finding]);
    assert_eq!(sink.events()[1].run(), &run);
}

// ---- evidence

#[test]
fn the_record_exists_before_the_output_does() {
    let mut store = EvidenceStore::new();
    let pending = store.begin(invocation("nm", &["-S", "target/release/app"]));
    // Nothing has been completed, but the invocation is already on record.
    assert_eq!(store.incomplete().len(), 1);
    assert!(!store.issued(pending.id()));

    let id = store.complete(pending, "0000000000001234 T main".to_string(), 0);
    assert!(store.issued(&id));
    assert!(store.incomplete().is_empty());
}

#[test]
fn the_digest_covers_the_command_line_not_only_the_output() {
    let mut store = EvidenceStore::new();
    let pending = store.begin(invocation("size", &["app"]));
    let id = store.complete(pending, "text 1024".to_string(), 0);

    let mut forged = store.get(&id).unwrap();
    forged.invocation = invocation("size", &["some-other-binary"]);
    assert!(!forged.digest_matches(), "a rewritten command line still verified");

    let mut relabelled = store.get(&id).unwrap();
    relabelled.exit_code = 1;
    assert!(!relabelled.digest_matches(), "a rewritten exit code still verified");
}

#[test]
fn a_forged_record_cannot_be_adopted_into_a_live_store() {
    let mut store = EvidenceStore::new();
    let forged = Evidence {
        id: EvidenceId::recorded("ev-000001".into()),
        invocation: invocation("cargo", &["build"]),
        output: "it definitely worked".into(),
        digest: "0".repeat(64),
        exit_code: 0,
        redacted_from: None,
    };
    let refused = store.adopt(vec![forged.clone()]);
    assert_eq!(refused, vec![forged.id.clone()]);
    assert!(!store.issued(&forged.id), "a forged record entered a live store");
}

#[test]
fn output_is_digested_and_the_digest_is_checkable() {
    let mut store = EvidenceStore::new();
    let pending = store.begin(invocation("size", &["app"]));
    let id = store.complete(pending, "text data bss".to_string(), 0);
    let mut evidence = store.get(&id).unwrap();
    assert!(evidence.digest_matches());
    evidence.output.push_str(" tampered");
    assert!(!evidence.digest_matches());
}

#[test]
fn import_refuses_records_whose_digest_does_not_match() {
    let mut store = EvidenceStore::new();
    let pending = store.begin(invocation("size", &["app"]));
    let id = store.complete(pending, "honest".to_string(), 0);
    let mut tampered = store.get(&id).unwrap();
    tampered.output = "dishonest".into();

    let mut fresh = EvidenceStore::new();
    let refused = fresh.adopt(vec![tampered]);
    assert_eq!(refused, vec![id.clone()]);
    assert!(!fresh.issued(&id));
}

#[test]
fn an_honest_record_is_adopted_with_its_identifier() {
    let (store, id) = store_with_one_record();
    let record = store.get(&id).unwrap();
    let mut fresh = EvidenceStore::new();
    assert!(fresh.adopt(vec![record]).is_empty());
    assert!(fresh.issued(&id));
    assert_eq!(fresh.len(), 1);
}

#[test]
fn a_command_line_can_be_retyped_by_hand() {
    let invocation = invocation("cargo", &["build", "--config", "profile.release.lto = true"]);
    assert_eq!(invocation.command_line(), "cargo build --config 'profile.release.lto = true'");
}

#[test]
fn identifiers_are_issued_in_order() {
    let mut store = EvidenceStore::new();
    let first = store.begin(invocation("a", &[]));
    let second = store.begin(invocation("b", &[]));
    assert_eq!(first.id().as_str(), "ev-000001");
    assert_eq!(second.id().as_str(), "ev-000002");
}

#[test]
fn the_digest_is_sha256_over_the_whole_record() {
    let (store, id) = store_with_one_record();
    let record = store.get(&id).unwrap();
    assert_eq!(record.digest.len(), 64);
    assert_eq!(record.digest, record.expected_digest());
    assert!(!record.was_redacted());
}

// ---- findings

#[test]
fn a_finding_citing_nothing_cannot_be_built() {
    let (store, _) = store_with_one_record();
    let draft = FindingDraft::new("f1".into(), FindingKind::SizeAttribution, "core::fmt is large".into());
    assert!(matches!(Finding::new(draft, &store), Err(Error::Ungrounded(_))));
}

#[test]
fn a_finding_citing_evidence_we_never_issued_is_rejected() {
    let (ours, id) = store_with_one_record();
    let theirs = EvidenceStore::new();
    let draft = FindingDraft::new("f1".into(), FindingKind::SizeAttribution, "claim".into()).cite(id);
    // The identifier is real, but not ours. This is the airlock.
    assert!(matches!(Finding::new(draft, &theirs), Err(Error::UnknownEvidence { .. })));
    let draft = FindingDraft::new("f1".into(), FindingKind::SizeAttribution, "claim".into())
        .cite(ours.records()[0].id.clone());
    assert!(Finding::new(draft, &ours).is_ok());
}

#[test]
fn confidence_is_clamped_to_what_the_provenance_earns() {
    let (store, id) = store_with_one_record();
    let draft = FindingDraft::new("f1".into(), FindingKind::Monomorphization, "collapse this generic".into())
        .cite(id)
        .confidence(Confidence::Certain)
        .provenance(Provenance::InferredExternally { agent: "review-bot".into() });
    let finding = Finding::new(draft, &store).unwrap();
    assert_eq!(finding.confidence, Confidence::Probable);
    assert!(finding.provenance.is_external());
}

#[test]
fn a_result_inside_the_noise_floor_is_never_a_win() {
    let impact = Impact::size(-12).with_runtime(-3).inconclusive();
    assert!(!impact.is_a_win());
}

#[test]
fn a_smaller_artifact_outside_the_noise_floor_is_a_win() {
    assert!(Impact::size(-12).is_a_win());
    assert!(!Impact::size(12).is_a_win());
    assert!(!Impact::none().is_a_win());
    assert!(Impact::none().with_runtime(-1).is_a_win());
}

#[test]
fn an_imported_finding_is_checked_against_the_store_that_adopted_it() {
    let (store, id) = store_with_one_record();
    let finding =
        Finding::new(FindingDraft::new("f1".into(), FindingKind::Diff, "claim".into()).cite(id), &store).unwrap();
    assert!(finding.revalidate(&store).is_ok());
    assert!(matches!(finding.revalidate(&EvidenceStore::new()), Err(Error::UnknownEvidence { .. })));
}

#[test]
fn the_vocabulary_is_fixed() {
    assert_eq!(Provenance::Measured.glyph(), '●');
    assert_eq!(Provenance::Derived { rule: "r".into() }.glyph(), '◈');
    assert_eq!(Provenance::InferredNatively { model: "m".into() }.label(), "Inferred, natively");
    assert_eq!(Confidence::High.label(), "High");
    assert_eq!(FindingKind::FrontierPoint.label(), "Frontier point");
    assert_eq!(FindingKind::Other("Custom".into()).label(), "Custom");
}

// ---- gates

#[test]
fn a_report_is_rejected_by_its_first_failing_gate() {
    let report = VerificationReport {
        candidate: "ols".into(),
        outcomes: vec![
            GateOutcome::new(Gate::Builds, GateResult::Passed, "built".into()),
            GateOutcome::new(Gate::TestsPass, GateResult::Failed, "1 failed".into()),
            GateOutcome::new(Gate::SizeNotWorse, GateResult::Failed, "bigger".into()),
        ],
    };
    assert_eq!(report.rejected_by(), Some(Gate::TestsPass));
    assert!(!report.passed());
    assert_eq!(report.summary(), "Rejected by TestsPass");
}

#[test]
fn an_inconclusive_gate_is_never_a_pass() {
    let report = VerificationReport {
        candidate: "ols".into(),
        outcomes: vec![
            GateOutcome::new(Gate::Builds, GateResult::Passed, "built".into()),
            GateOutcome::new(
                Gate::BenchmarkNotWorse,
                GateResult::Inconclusive { reason: "inside the floor".into() },
                "within 0.9%".into(),
            ),
        ],
    };
    assert!(report.passed());
    assert_eq!(report.inconclusive(), vec![Gate::BenchmarkNotWorse]);
    assert_eq!(report.summary(), "Passed, with BenchmarkNotWorse inconclusive");
}

// ---- tools

#[test]
fn registering_one_name_twice_is_an_error_not_a_replacement() {
    let mut registry = ToolRegistry::new();
    let spec = ToolSpec::read_only("read_symbols".into(), "List the artifact's symbols with sizes.".into());
    registry.register(spec.clone()).unwrap();
    assert!(registry.register(spec).is_err());
}

#[test]
fn a_tool_above_the_session_tier_is_refused_before_it_runs() {
    let mut registry = ToolRegistry::new();
    registry
        .register(ToolSpec::writes(
            "apply_patch".into(),
            "Write a verified patch into the working tree.".into(),
            TrustTier::Tune,
        ))
        .unwrap();
    let error = registry.authorize("apply_patch", TrustTier::Propose).unwrap_err();
    assert!(matches!(error, Error::TierTooLow { .. }));
    assert!(registry.authorize("apply_patch", TrustTier::Tune).is_ok());
    assert!(registry.authorize("nothing", TrustTier::Autonomous).is_err());
}

#[test]
fn every_run_leaves_a_record_even_when_the_tool_is_missing() {
    let mut runner = ToolRunner::new(EvidenceStore::new(), ".".into());
    let pending = runner.begin(invocation("binmap-tool-that-does-not-exist", &["--version"]));
    let error = runner.finish(pending, Err("No such file or directory".to_string())).unwrap_err();
    assert!(matches!(error, Error::ToolUnavailable { .. }));
    assert_eq!(runner.store().len(), 1, "the attempt is a fact about the machine");
    assert!(runner.store().records()[0].output.contains("failed to spawn"));
}

#[test]
fn output_is_captured_and_cited_by_identifier() {
    let mut runner = ToolRunner::new(EvidenceStore::new(), ".".into());
    let pending = runner.begin(invocation("echo", &["binmap"]));
    let spawned = SpawnedProcess { stdout: "binmap\n".into(), stderr: String::new(), exit_code: Some(0), duration_nanos: 5 };
    let output = runner.finish(pending, Ok(spawned)).unwrap();
    assert!(output.succeeded());
    assert_eq!(output.stdout.trim(), "binmap");
    assert!(runner.store().issued(&output.evidence));
    assert_eq!(runner.store().get(&output.evidence).unwrap().output.trim(), "binmap");
}

#[test]
fn a_killed_process_is_recorded_with_no_exit_code() {
    let mut runner = ToolRunner::new(EvidenceStore::new(), "/project".into());
    let pending = runner.begin(invocation("cargo", &["build"]));
    let spawned =
        SpawnedProcess { stdout: "out".into(), stderr: "err".into(), exit_code: None, duration_nanos: 5 };
    let output = runner.finish(pending, Ok(spawned)).unwrap();
    assert_eq!(output.exit_code, -1);
    assert_eq!(output.combined(), "out\nerr");
    assert_eq!(runner.store().get(&output.evidence).unwrap().output, "out\nerr");
    assert_eq!(runner.directory_for(&invocation("cargo", &[])), "/project");
}

#[test]
fn cancelling_any_clone_cancels_them_all() {
    let cancellation = Cancellation::new();
    let held_by_the_sweep = cancellation.clone();
    assert!(!held_by_the_sweep.is_cancelled());
    cancellation.clone().cancel();
    assert!(held_by_the_sweep.is_cancelled());
    assert!(matches!(held_by_the_sweep.check(), Err(Error::Cancelled)));
    assert!(cancellation.is_cancelled());
}

#[test]
fn tiers_compare_as_their_ranks_do() {
    for a in TrustTier::ALL {
        for b in TrustTier::ALL {
            assert_eq!(a < b, a.rank() < b.rank());
            assert_eq!(a <= b, a.rank() <= b.rank());
            assert_eq!(a.cmp(&b), a.rank().cmp(&b.rank()));
        }
    }
}
