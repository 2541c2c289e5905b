//! Interaction, asserted without a window, against a scripted set of
//! targets, probes and findings, so a state that would take a long sweep to
//! reach is one line.

use binmap::capability::{Capabilities, Capability};
use binmap::event::{EngineEvent, RunId};
use binmap::evidence::{Evidence, EvidenceId, EvidenceStore, ToolInvocation};
use binmap::facade::{Probe, ProbeStatus, Request};
use binmap::finding::{Confidence, Finding, FindingDraft, FindingKind, Impact, Provenance};
use binmap::state::{AppState, View};
use binmap::traits::{Target, TargetFamily};

/// An engine that measures nothing and answers everything.
struct Scripted {
    store: EvidenceStore,
    targets: Vec<Target>,
    probes: Vec<Probe>,
    findings: Vec<Finding>,
    script: Vec<EngineEvent>,
    started: Vec<Request>,
}

impl Scripted {
    fn new() -> Self {
        Scripted {
            store: EvidenceStore::new(),
            targets: Vec::new(),
            probes: Vec::new(),
            findings: Vec::new(),
            script: Vec::new(),
            started: Vec::new(),
        }
    }

    fn with_target(mut self, id: &str, capabilities: &[Capability]) -> Self {
        self.targets.push(Target {
            id: id.to_string(),
            name: id.rsplit("::").next().unwrap_or(id).to_string(),
            family: TargetFamily::Rust,
            package: id.split("::").next().unwrap_or(id).to_string(),
            manifest: "Cargo.toml".into(),
            capabilities: Capabilities::of(capabilities),
        });
        self
    }

    fn with_probe(mut self, name: &str, status: ProbeStatus) -> Self {
        self.probes.push(match status {
            ProbeStatus::Present => Probe::present("Rust target".into(), name.into(), "present".into()),
            other => Probe::needs("Rust target".into(), name.into(), other, "missing".into(), "cargo install it".into())
                .with_action("Re-check".into()),
        });
        self
    }

    fn record(&mut self, tool: &str, output: &str) -> EvidenceId {
        let pending = self.store.begin(ToolInvocation::new(tool.into(), vec!["--scripted".into()]));
        self.store.complete(pending, output.into(), 0)
    }

    fn with_finding(mut self, id: &str, kind: FindingKind, title: &str) -> Self {
        let evidence = self.record("cargo", "scripted output");
        let finding = Finding::new(
            FindingDraft::new(id.into(), kind, title.into())
                .cite(evidence)
                .detail("scripted".into())
                .impact(Impact::size(-1024))
                .confidence(Confidence::Certain)
                .provenance(Provenance::Measured),
            &self.store,
        )
        .expect("a scripted finding is grounded");
        self.findings.push(finding);
        self
    }

    fn scripting(mut self, events: Vec<EngineEvent>) -> Self {
        self.script = events;
        self
    }

    fn targets(&self) -> Vec<Target> {
        self.targets.clone()
    }

    fn probe_environment(&self) -> Vec<Probe> {
        self.probes.clone()
    }

    fn start(&mut self, request: Request, sink: &mut Vec<EngineEvent>) -> RunId {
        self.started.push(request);
        sink.extend(self.script.iter().cloned());
        RunId("scripted".into())
    }

    fn evidence(&self, finding: &str) -> Vec<Evidence> {
        self.findings
            .iter()
            .find(|f| f.id == finding)
            .map(|f| f.evidence.iter().filter_map(|id| self.store.get(id)).collect())
            .unwrap_or_default()
    }
}

fn engine() -> Scripted {
    Scripted::new()
        .with_target("app::app", &[Capability::ConfigurationSweep])
        .with_target("lib::lib", &[Capability::ConfigurationSweep, Capability::SizeAttribution])
        .with_probe("cargo", ProbeStatus::Present)
        .with_probe("miri", ProbeStatus::Missing)
}

/// The state a freshly opened window would have.
fn opened(engine: &Scripted) -> AppState {
    let mut state = AppState::new();
    state.set_probes(engine.probe_environment());
    state.set_targets(engine.targets());
    state.select_view(View::Target);
    state
}

#[test]
fn the_nav_rail_only_offers_what_the_target_supports() {
    let engine = engine();
    let mut state = opened(&engine);

    // app::app can only be swept.
    let views: Vec<View> = state.nav_entries().into_iter().map(|e| e.view).collect();
    assert!(views.contains(&View::Tune));
    assert!(!views.contains(&View::Size), "Size is absent, not disabled");

    // lib::lib can also be attributed, so Size appears.
    assert!(state.select_target("lib::lib"));
    let views: Vec<View> = state.nav_entries().into_iter().map(|e| e.view).collect();
    assert!(views.contains(&View::Size));
}

#[test]
fn starting_a_sweep_reaches_the_engine_and_streams_back() {
    let mut engine = engine().scripting(vec![
        EngineEvent::Started {
            run: RunId("scripted".into()),
            description: "Sweeping 8 configurations".into(),
            total: Some(8),
        },
        EngineEvent::Progress {
            run: RunId("scripted".into()),
            completed: 3,
            message: "cfg-2: all gates passed".into(),
        },
    ]);

    let mut state = opened(&engine);
    let mut recorded = Vec::new();
    let run = engine.start(Request::Sweep { target: "app::app".into() }, &mut recorded);
    assert_eq!(run, RunId("scripted".into()));
    assert_eq!(engine.started.len(), 1);
    assert_eq!(recorded.len(), 2);

    // And the state a window would be in after those events arrived.
    state.apply(EngineEvent::Started {
        run: run.clone(),
        description: "Sweeping 8 configurations".into(),
        total: Some(8),
    });
    state.apply(EngineEvent::Progress { run: run.clone(), completed: 3, message: "cfg-2: all gates passed".into() });
    assert!(state.is_busy());
    let fraction = state.run(&run).unwrap().ratio().map(|(done, total)| done as f32 / total as f32);
    assert_eq!(fraction, Some(0.375));
}

#[test]
fn selecting_a_finding_is_what_fills_the_inspector() {
    let engine = engine()
        .with_finding("f1", FindingKind::Configuration, "opt-level=s is smaller")
        .with_finding("f2", FindingKind::FrontierPoint, "cfg-0 is on the frontier");

    let mut state = AppState::new();
    state.set_targets(engine.targets());
    for finding in engine.findings.iter() {
        state.apply(EngineEvent::Finding { run: RunId("restored".into()), finding: Box::new(finding.clone()) });
    }

    // The first selects itself, so the Inspector is never blank for nothing.
    assert_eq!(state.selected_finding().map(|f| f.id.as_str()), Some("f1"));
    assert!(state.select_finding("f2"));
    assert_eq!(state.selected_finding().map(|f| f.id.as_str()), Some("f2"));

    // And its evidence is reachable: a claim and its evidence on one screen.
    let evidence = engine.evidence("f2");
    assert_eq!(evidence.len(), 1);
    assert!(evidence[0].digest_matches());
}

#[test]
fn switching_target_drops_a_view_the_new_one_cannot_support() {
    let engine = engine();
    let mut state = opened(&engine);

    assert!(state.select_target("lib::lib"));
    assert!(state.select_view(View::Size));
    assert_eq!(state.view(), Some(View::Size));

    // app::app cannot attribute size, so the view cannot survive the switch.
    assert!(state.select_target("app::app"));
    assert_ne!(state.view(), Some(View::Size));
}

#[test]
fn re_checking_the_environment_is_a_fresh_read_not_a_cached_one() {
    let engine = engine();
    let mut state = opened(&engine);
    assert_eq!(state.unmet_probes(), 1);

    state.set_probes(engine.probe_environment());
    assert_eq!(state.unmet_probes(), 1, "the probe set is re-read, not remembered");
    assert!(state.probes().iter().any(|p| p.name == "miri" && p.remedy.is_some()));
}
