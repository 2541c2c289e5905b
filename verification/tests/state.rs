use binmap::capability::{Capabilities, Capability};
use binmap::event::{EngineEvent, RunId};
use binmap::evidence::{EvidenceStore, ToolInvocation};
use binmap::facade::{Probe, ProbeStatus};
use binmap::finding::{Confidence, Finding, FindingDraft, FindingKind, Provenance};
use binmap::gate::{Gate, GateOutcome, GateResult, VerificationReport};
use binmap::location::Location;
use binmap::state::{AppState, RunPhase, RunProgress, View};
use binmap::traits::{Target, TargetFamily};

fn target(id: &str, capabilities: &[Capability]) -> Target {
    Target {
        id: id.into(),
        name: id.rsplit("::").next().unwrap_or(id).into(),
        family: TargetFamily::Rust,
        package: id.split("::").next().unwrap_or(id).into(),
        manifest: "Cargo.toml".into(),
        capabilities: Capabilities::of(capabilities),
    }
}

/// A grounded finding, built the only way findings can be built.
fn finding(id: &str, kind: FindingKind) -> Finding {
    let mut store = EvidenceStore::new();
    let pending = store.begin(ToolInvocation::new("cargo".into(), vec!["build".into()]));
    let evidence = store.complete(pending, "built".into(), 0);
    Finding::new(
        FindingDraft::new(id.into(), kind, format!("{id} happened"))
            .cite(evidence)
            .at(Location::configuration(id.into()))
            .confidence(Confidence::Certain)
            .provenance(Provenance::Measured),
        &store,
    )
    .unwrap()
}

fn run() -> RunId {
    RunId("run-0001".into())
}

fn started(total: Option<usize>) -> EngineEvent {
    EngineEvent::Started { run: run(), description: "Sweeping".into(), total }
}

fn fraction(progress: &RunProgress) -> Option<f32> {
    progress.ratio().map(|(completed, total)| completed as f32 / total as f32)
}

fn probe(group: &str, name: &str, status: ProbeStatus, detail: &str, remedy: Option<&str>) -> Probe {
    Probe {
        group: group.into(),
        name: name.into(),
        status,
        detail: detail.into(),
        remedy: remedy.map(String::from),
        action: None,
    }
}

#[test]
fn a_view_the_target_cannot_support_is_absent_rather_than_empty() {
    let mut state = AppState::new();
    state.set_targets(vec![target("app::app", &[Capability::ConfigurationSweep])]);

    let views: Vec<View> = state.nav_entries().into_iter().map(|entry| entry.view).collect();
    assert_eq!(views, vec![View::Target, View::Tune, View::Agent, View::Environment]);
    // Not "present and disabled": simply not there.
    assert!(!views.contains(&View::Replay));
    assert!(!views.contains(&View::Size));
}

#[test]
fn selecting_a_view_the_target_cannot_support_is_refused() {
    let mut state = AppState::new();
    state.set_targets(vec![target("app::app", &[Capability::ConfigurationSweep])]);

    assert!(!state.select_view(View::Replay));
    assert_eq!(state.view(), None);
    assert!(state.select_view(View::Tune));
    assert_eq!(state.view(), Some(View::Tune));
}

#[test]
fn switching_to_a_weaker_target_drops_a_view_it_cannot_support() {
    let mut state = AppState::new();
    state.set_targets(vec![
        target("rich::rich", &[Capability::ConfigurationSweep, Capability::ReplayDebugging]),
        target("plain::plain", &[Capability::ConfigurationSweep]),
    ]);

    assert!(state.select_target("rich::rich"));
    assert!(state.select_view(View::Replay));

    assert!(state.select_target("plain::plain"));
    assert_eq!(state.view(), None, "the Replay view cannot survive the switch");
}

#[test]
fn targets_are_grouped_by_language_for_the_project_view() {
    let mut state = AppState::new();
    let mut web = target("site::bundle", &[Capability::SizeAttribution]);
    web.family = TargetFamily::TypeScript;
    state.set_targets(vec![target("app::app", &[Capability::ConfigurationSweep]), web]);

    let groups = state.targets_by_family();
    assert_eq!(groups.len(), 2);
    assert_eq!(groups[0].0, TargetFamily::Rust);
    assert_eq!(groups[1].0, TargetFamily::TypeScript);
}

#[test]
fn findings_appear_as_they_are_discovered_and_the_rail_counts_them() {
    let mut state = AppState::new();
    state.set_targets(vec![target("app::app", &[Capability::ConfigurationSweep])]);
    state.apply(started(Some(3)));

    let tune_count =
        |state: &AppState| state.nav_entries().iter().find(|e| e.view == View::Tune).unwrap().findings;
    assert_eq!(tune_count(&state), 0);

    for (index, kind) in [FindingKind::Configuration, FindingKind::FrontierPoint, FindingKind::RejectedCandidate]
        .into_iter()
        .enumerate()
    {
        state.apply(EngineEvent::Finding { run: run(), finding: Box::new(finding(&format!("f{index}"), kind)) });
        assert_eq!(tune_count(&state), index + 1, "the count did not follow the finding");
    }
}

#[test]
fn the_first_finding_selects_itself_so_the_inspector_is_never_blank_for_nothing() {
    let mut state = AppState::new();
    state.apply(started(Some(1)));
    assert!(state.selected_finding().is_none());

    state.apply(EngineEvent::Finding { run: run(), finding: Box::new(finding("f0", FindingKind::Configuration)) });
    assert_eq!(state.selected_finding().map(|f| f.id.as_str()), Some("f0"));

    // A second finding does not steal the selection.
    state.apply(EngineEvent::Finding { run: run(), finding: Box::new(finding("f1", FindingKind::Configuration)) });
    assert_eq!(state.selected_finding().map(|f| f.id.as_str()), Some("f0"));
}

#[test]
fn a_finding_that_arrives_twice_replaces_rather_than_duplicates() {
    let mut state = AppState::new();
    state.apply(started(None));
    for _ in 0..2 {
        state.apply(EngineEvent::Finding { run: run(), finding: Box::new(finding("f0", FindingKind::Configuration)) });
    }
    assert_eq!(state.findings().len(), 1);
}

#[test]
fn progress_never_goes_backwards_when_workers_report_out_of_order() {
    let mut state = AppState::new();
    state.apply(started(Some(10)));

    for completed in [3, 7, 5, 6] {
        state.apply(EngineEvent::Progress { run: run(), completed, message: format!("{completed} done") });
    }
    assert_eq!(state.run(&run()).unwrap().completed, 7);
}

#[test]
fn a_finished_run_reads_as_complete_even_if_an_event_was_missed() {
    let mut state = AppState::new();
    state.apply(started(Some(96)));
    state.apply(EngineEvent::Progress { run: run(), completed: 94, message: "nearly".into() });
    state.apply(EngineEvent::Finished { run: run(), summary: "96 measured".into() });

    let progress = state.run(&run()).unwrap();
    assert_eq!(progress.completed, 96);
    assert_eq!(fraction(progress), Some(1.0));
    assert!(!progress.is_running());
    assert!(!state.is_busy());
}

#[test]
fn cancelling_keeps_the_findings_and_is_not_reported_as_a_failure() {
    let mut state = AppState::new();
    state.apply(started(Some(96)));
    state.apply(EngineEvent::Finding { run: run(), finding: Box::new(finding("f0", FindingKind::Configuration)) });
    state.apply(EngineEvent::Cancelled { run: run(), completed: 12 });

    assert_eq!(state.findings().len(), 1, "cancelling must not discard measurements");
    let progress = state.run(&run()).unwrap();
    assert!(matches!(progress.state, RunPhase::Cancelled { completed: 12 }));
    assert!(!matches!(progress.state, RunPhase::Failed { .. }));
}

#[test]
fn a_run_with_no_known_total_renders_indeterminate_rather_than_guessing() {
    let mut state = AppState::new();
    state.apply(started(None));
    state.apply(EngineEvent::Progress { run: run(), completed: 4, message: "working".into() });
    assert_eq!(fraction(state.run(&run()).unwrap()), None);
}

#[test]
fn events_for_a_run_we_never_saw_start_are_ignored_rather_than_invented() {
    let mut state = AppState::new();
    state.apply(EngineEvent::Progress { run: RunId("ghost".into()), completed: 5, message: "from nowhere".into() });
    assert!(state.runs().is_empty());
}

#[test]
fn probes_keep_their_reported_grouping_and_the_unmet_ones_are_counted() {
    let mut state = AppState::new();
    state.set_probes(vec![
        probe("Rust", "cargo", ProbeStatus::Present, "cargo 1.96.0", None),
        probe(
            "Verification",
            "miri",
            ProbeStatus::Missing,
            "unsafe code will be reported as unchecked",
            Some("rustup toolchain install nightly --component miri"),
        ),
        probe("Rust", "rustc", ProbeStatus::Present, "rustc 1.96.0", None),
    ]);

    let groups = state.probes_by_group();
    assert_eq!(groups.len(), 2);
    assert_eq!(groups[0].0, "Rust");
    assert_eq!(groups[0].1.len(), 2, "a later Rust probe joins the group it named");
    assert_eq!(state.unmet_probes(), 1);
}

#[test]
fn selecting_something_that_is_not_there_is_refused_rather_than_stored() {
    let mut state = AppState::new();
    state.set_targets(vec![target("app::app", &[Capability::ConfigurationSweep])]);
    assert!(!state.select_target("ghost::ghost"));
    assert!(!state.select_finding("no-such-finding"));
    assert_eq!(state.selected_target().map(|t| t.id.as_str()), Some("app::app"));
}

#[test]
fn a_failed_run_is_not_busy_and_says_why() {
    let mut state = AppState::new();
    state.apply(started(Some(4)));
    assert!(state.is_busy());
    state.apply(EngineEvent::Failed { run: run(), error: "cargo is missing".into() });
    let progress = state.run(&run()).unwrap();
    assert!(matches!(&progress.state, RunPhase::Failed { error } if error == "cargo is missing"));
    assert!(!state.is_busy());
}

#[test]
fn findings_are_filed_under_the_view_they_belong_to() {
    let mut state = AppState::new();
    state.apply(started(None));
    state.apply(EngineEvent::Finding { run: run(), finding: Box::new(finding("f0", FindingKind::Configuration)) });
    state.apply(EngineEvent::Finding { run: run(), finding: Box::new(finding("f1", FindingKind::Diff)) });
    assert_eq!(state.findings_for(View::Tune).len(), 1);
    assert_eq!(state.findings_for(View::Size).len(), 1);
    assert!(state.findings_for(View::Replay).is_empty());
    assert!(state.select_finding("f1"));
    assert_eq!(state.selected_finding().map(|f| f.id.as_str()), Some("f1"));
}

// ---- what the frame shows

use binmap::views::{
    glyph, push_signed, short_flags, status_badge, DeltaTone, EnvironmentPanel, EvidenceRow, Hypothesis, Inspector,
    ProvenanceBadge, StatusBar, Tab, TitleBar, Tone, delta_tone, gate_mark, table_order,
};

/// The column's rule, written the obvious way, to hold the library to.
fn shortened_by_hand(flags: &str) -> String {
    const LIMIT: usize = 26;
    if flags.chars().count() <= LIMIT {
        return flags.to_string();
    }
    let kept: String = flags.chars().take(LIMIT - 1).collect();
    match kept.rsplit_once(' ') {
        Some((head, _)) if head.chars().count() > LIMIT / 2 => format!("{head} …"),
        _ => format!("{kept}…"),
    }
}

#[test]
fn an_idle_session_says_it_is_ready() {
    let bar = StatusBar::of(&AppState::new());
    assert_eq!(bar.message, "Ready");
    assert_eq!(bar.progress, None);
    assert!(!bar.running);
}

#[test]
fn the_status_bar_follows_the_run_in_flight() {
    let mut state = AppState::new();
    state.apply(started(Some(96)));
    assert_eq!(StatusBar::of(&state).message, "Sweeping", "no message yet, so the description");
    state.apply(EngineEvent::Progress { run: run(), completed: 3, message: "ols: all gates passed".into() });
    state.apply(EngineEvent::Finding { run: run(), finding: Box::new(finding("f0", FindingKind::Configuration)) });
    let bar = StatusBar::of(&state);
    assert_eq!(bar.message, "ols: all gates passed");
    assert_eq!(bar.progress, Some((3, 96)));
    assert!(bar.running);
    assert_eq!(bar.findings, 1);

    state.apply(EngineEvent::Cancelled { run: run(), completed: 12 });
    let bar = StatusBar::of(&state);
    assert_eq!(bar.message, "Cancelled after 12; everything measured was kept");
    assert!(!bar.running);
}

#[test]
fn the_environment_panel_counts_what_needs_attention() {
    let mut state = AppState::new();
    state.set_probes(vec![
        probe("Rust", "cargo", ProbeStatus::Present, "cargo 1.96.0", None),
        probe("Rust", "rustc", ProbeStatus::Unusable, "exited 1", Some("rustup update")),
        probe("Verification", "miri", ProbeStatus::Missing, "absent", Some("rustup component add miri")),
    ]);
    let panel = EnvironmentPanel::of(&state);
    assert_eq!(panel.warnings, 1);
    assert_eq!(panel.missing, 1);
    assert_eq!(panel.groups.len(), 2);
    assert_eq!(panel.groups[0].0, "Rust");
    assert_eq!(panel.groups[0].1.len(), 2);
    assert_eq!(status_badge(ProbeStatus::Missing), ("missing", Tone::Fail));
    assert_eq!(status_badge(ProbeStatus::Present), ("ok", Tone::Pass));
}

#[test]
fn flags_are_shortened_to_the_column_the_way_the_design_does() {
    for flags in [
        "opt-level=s",
        "opt-level=s lto=fat codegen-units=1 panic=abort",
        "opt-level=z lto=thin codegen-units=16",
        "opt-level=sssssssssssssssssssssssssssssss",
        "abc defghijklmnopqrstuvwxyz0123456789",
        "opt-level=s lto=fat strip=symbols",
    ] {
        assert_eq!(short_flags(flags), shortened_by_hand(flags), "{flags}");
    }
    assert_eq!(short_flags("opt-level=s lto=fat codegen-units=1 panic=abort"), "opt-level=s lto=fat …");
}

#[test]
fn the_inspector_tallies_measured_and_inferred_findings() {
    let measured = finding("f0", FindingKind::Configuration);
    let mut inferred = finding("f1", FindingKind::Diff);
    inferred.provenance = Provenance::InferredExternally { agent: "agent".into() };
    let mut derived = finding("f2", FindingKind::FrontierPoint);
    derived.provenance = Provenance::Derived { rule: "pareto-dominance".into() };
    let all = vec![measured.clone(), inferred, derived];
    let inspector = Inspector::new(Some(measured), Vec::new(), Tab::default(), &all);
    assert_eq!(inspector.measured, 1);
    assert_eq!(inspector.inferred, 1);
    assert_eq!(inspector.tab, Tab::Hypothesis);
    assert_eq!(Tab::ALL.map(Tab::label), ["Hypothesis", "Evidence", "Proposal"]);
    assert_eq!(glyph(View::Tune), "⚙");
}

fn claim(provenance: Provenance, confidence: Confidence) -> Finding {
    let mut store = EvidenceStore::new();
    let pending = store.begin(ToolInvocation::new("cargo".into(), vec!["build".into()]));
    let evidence = store.complete(pending, "built".into(), 0);
    Finding::new(
        FindingDraft::new("f".into(), FindingKind::Configuration, "a claim".into())
            .cite(evidence)
            .confidence(confidence)
            .provenance(provenance),
        &store,
    )
    .unwrap()
}

#[test]
fn a_badge_can_only_be_built_from_a_finding() {
    let f = claim(Provenance::Measured, Confidence::Certain);
    let badge = ProvenanceBadge::of(&f);
    assert_eq!(badge.provenance(), &Provenance::Measured);
    assert_eq!(badge.confidence(), Confidence::Certain);
}

#[test]
fn the_badge_reports_what_the_finding_actually_carries_not_what_was_asked_for() {
    // The finding clamps Certain down to Probable for an external claim; the
    // badge shows the clamped value, not the requested one.
    let f = claim(Provenance::InferredExternally { agent: "codex".into() }, Confidence::Certain);
    let badge = ProvenanceBadge::of(&f);
    assert_eq!(badge.confidence(), Confidence::Probable);
    assert!(badge.provenance().is_external());
}

#[test]
fn every_provenance_has_a_glyph_and_a_word_from_the_fixed_vocabulary() {
    for provenance in [
        Provenance::Measured,
        Provenance::Derived { rule: "pareto-dominance".into() },
        Provenance::InferredNatively { model: "qwen".into() },
        Provenance::InferredExternally { agent: "codex".into() },
    ] {
        let f = claim(provenance.clone(), Confidence::Probable);
        let badge = ProvenanceBadge::of(&f);
        assert!("\u{25CF}\u{25C8}\u{25C6}".contains(badge.provenance().glyph()));
        assert!(["Measured", "Derived", "Inferred, natively", "Inferred, externally"].contains(&badge.provenance().label()));
    }
}

#[test]
fn a_dense_badge_shows_the_glyph_and_the_confidence_word() {
    let badge = ProvenanceBadge::of(&claim(Provenance::Measured, Confidence::Certain));
    assert_eq!(badge.texts(), vec!["\u{25CF}".to_string(), "Certain".to_string()]);
}

#[test]
fn a_spelled_out_external_badge_says_every_word_and_that_it_is_external() {
    let badge = ProvenanceBadge::of(&claim(Provenance::InferredExternally { agent: "codex".into() }, Confidence::High))
        .verbose();
    assert_eq!(
        badge.texts(),
        vec![
            "\u{25C6}".to_string(),
            "INFERRED, EXTERNALLY".to_string(),
            "PROBABLE".to_string(),
            "EXTERNAL".to_string()
        ]
    );
}

fn signed(n: i64) -> String {
    let mut s = String::new();
    push_signed(&mut s, n);
    s
}

#[test]
fn a_signed_number_always_carries_its_sign() {
    assert_eq!(signed(1024), "+1024");
    assert_eq!(signed(-1024), "-1024");
    assert_eq!(signed(0), "+0");
    assert_eq!(signed(i64::MIN), "-9223372036854775808");
    assert_eq!(signed(i64::MAX), "+9223372036854775807");
}

fn with_impact(detail: &str, impact: binmap::finding::Impact) -> Finding {
    let mut store = EvidenceStore::new();
    let pending = store.begin(ToolInvocation::new("cargo".into(), vec!["build".into()]));
    let evidence = store.complete(pending, "built".into(), 0);
    Finding::new(
        FindingDraft::new("f".into(), FindingKind::Configuration, "a claim".into())
            .cite(evidence)
            .detail(detail.into())
            .at(Location::configuration("o3-lf".into()))
            .impact(impact),
        &store,
    )
    .unwrap()
}

#[test]
fn the_hypothesis_shows_a_smaller_artifact_as_a_win() {
    let h = Hypothesis::of(&with_impact("thin LTO drops 1 KiB", binmap::finding::Impact::size(-1024)));
    assert_eq!(h.detail.as_deref(), Some("thin LTO drops 1 KiB"));
    assert_eq!(h.location, "o3-lf");
    let line = h.impact.unwrap();
    assert_eq!(line.text, "-1024 bytes");
    assert_eq!(line.tone, DeltaTone::Smaller);
    assert!(!line.inconclusive);
}

#[test]
fn inside_the_noise_floor_the_hypothesis_draws_flat_and_says_inconclusive() {
    let mut impact = binmap::finding::Impact::size(512);
    impact.within_noise_floor = true;
    let h = Hypothesis::of(&with_impact("", impact));
    assert_eq!(h.detail, None);
    let line = h.impact.unwrap();
    assert_eq!(line.text, "+512 bytes");
    assert_eq!(line.tone, DeltaTone::Flat);
    assert!(line.inconclusive);

    let h = Hypothesis::of(&with_impact("", binmap::finding::Impact::size(512)));
    assert_eq!(h.impact.unwrap().tone, DeltaTone::Larger);
}

#[test]
fn an_evidence_row_shows_the_command_twelve_lines_and_the_start_of_the_digest() {
    let mut store = EvidenceStore::new();
    let output: String = (1..=20).map(|i| format!("line {i}\n")).collect();
    let pending = store.begin(ToolInvocation::new("cargo".into(), vec!["build".into(), "--release".into()]));
    let id = store.complete(pending, output, 0);
    let record = store.get(&id).unwrap();
    let row = EvidenceRow::of(&record);
    assert_eq!(row.command, "cargo build --release");
    let shown: Vec<String> = (1..=12).map(|i| format!("line {i}")).collect();
    assert_eq!(row.output, shown.join("\n"));
    assert_eq!(row.digest, format!("output digest {}", &record.digest[..12]));
}

#[test]
fn the_title_bar_shows_the_short_commit_and_says_when_the_tree_is_dirty() {
    let mut state = AppState::new();
    state.set_probes(vec![
        probe("Rust toolchain", "cargo", ProbeStatus::Present, "cargo 1.80.0", None),
        probe("Project", "git", ProbeStatus::Present, "a1b2c3d, with uncommitted changes \u{2014} results will not reproduce", None),
    ]);
    let bar = TitleBar::of(&state, "binmap".into(), binmap::config::TrustTier::Propose);
    assert_eq!(bar.project, "binmap");
    assert_eq!(bar.commit.as_deref(), Some("a1b2c3d"));
    assert!(bar.dirty);
    assert_eq!(bar.tier, binmap::config::TrustTier::Propose);
}

#[test]
fn a_clean_tree_shows_its_commit_and_no_git_probe_shows_none() {
    let mut state = AppState::new();
    state.set_probes(vec![probe("Project", "git", ProbeStatus::Present, "a1b2c3d", None)]);
    let bar = TitleBar::of(&state, "binmap".into(), binmap::config::TrustTier::Tune);
    assert_eq!(bar.commit.as_deref(), Some("a1b2c3d"));
    assert!(!bar.dirty);

    let bar = TitleBar::of(&AppState::new(), "binmap".into(), binmap::config::TrustTier::Tune);
    assert_eq!(bar.commit.as_deref(), Some(""));
    assert!(!bar.dirty);
    assert!(TitleBar::new("binmap".into(), binmap::config::TrustTier::Tune).commit.is_none());
}

fn measured(id: &str, passed: bool, on_frontier: bool, size: Option<u64>) -> binmap::facade::Measurement {
    let tests = if passed { GateResult::Passed } else { GateResult::Failed };
    binmap::facade::Measurement {
        id: id.into(),
        flags: format!("opt-level={id}"),
        settings: Vec::new(),
        size_bytes: size,
        size_delta: None,
        runtime_nanos: None,
        build_time_nanos: None,
        gates: VerificationReport {
            candidate: id.into(),
            outcomes: vec![
                GateOutcome::new(Gate::Builds, GateResult::Passed, "builds".into()),
                GateOutcome::new(Gate::TestsPass, tests, "the suite".into()),
            ],
        },
        on_frontier,
        built: true,
    }
}

#[test]
fn the_table_lists_what_won_then_what_nearly_won_then_what_did_not() {
    let rows = vec![
        measured("a", true, false, Some(900)),
        measured("b", false, false, Some(500)),
        measured("c", true, true, Some(800)),
        measured("d", true, false, None),
        measured("e", true, false, Some(900)),
    ];
    assert_eq!(table_order(&rows), vec![2, 0, 4, 3, 1]);
    assert!(table_order(&[]).is_empty());
}

#[test]
fn deltas_and_verdicts_are_marked_for_what_they_are() {
    assert_eq!(delta_tone(Some(-1)), DeltaTone::Smaller);
    assert_eq!(delta_tone(Some(1)), DeltaTone::Larger);
    assert_eq!(delta_tone(Some(0)), DeltaTone::Flat);
    assert_eq!(delta_tone(None), DeltaTone::Flat);
    assert_eq!(gate_mark(&GateResult::Passed), "\u{2713}");
    assert_eq!(gate_mark(&GateResult::Failed), "\u{2717}");
    assert_eq!(gate_mark(&GateResult::Inconclusive { reason: "inside the noise floor".into() }), "~");
    assert_eq!(gate_mark(&GateResult::Skipped { reason: "no benchmark".into() }), "\u{2013}");
}
