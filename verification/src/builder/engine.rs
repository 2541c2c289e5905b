//! The concrete engine: one project, open.
//!
//! It holds what the project offers, every finding a run has streamed, the
//! proposals made so far, and one sweep state per run, so a cancelled sweep
//! can be resumed and a finished one written into the session artifact. The
//! machine work (discovery, builds, measurements) is done by the backend it
//! is given; nothing here blocks on anything but that.

use crate::builder::manifest::{edited, release_values_of, unified_diff, unified_diff_of, with_release_profile};
use crate::builder::sweep::{same_state, Sweep, SweepBackend, SweepOptions, SweepState};
use crate::config::{ProjectConfig, TrustTier};
use crate::configuration::{config_at, describe_of, name_of, BuildConfiguration};
use crate::error::{error_message, Error};
use crate::event::{carried_findings, Cancellation, EngineEvent, EventSink, RecordedEvents, RunId};
use crate::evidence::{push_zero_padded, zero_padded, Evidence, EvidenceId, EvidenceStore, EvidenceView};
use crate::facade::{Proposal, Request};
use crate::finding::{same_finding, Finding};
use crate::keyed::{entry, get_keyed, has_key, insert_keyed, keys_ordered};
use crate::text::{decimal, join_path, path_join, push_text, text_eq, text_of};
use crate::tool::ToolRunner;
use crate::traits::{same_target, Target};
use vstd::prelude::*;

verus! {

/// One project, open, with the backend that does its machine work.
pub struct BinmapEngine<B: SweepBackend> {
    config: ProjectConfig,
    backend: B,
    /// Runs every tool, and holds the record of every run.
    runner: ToolRunner,
    targets: Vec<Target>,
    findings: Vec<Finding>,
    proposals: Vec<Proposal>,
    /// One state per run, by run identifier.
    runs: RunStates,
    /// How many runs have been minted.
    minted: u64,
}

/// Sweep states, in the order of their run identifiers, one per run.
struct RunStates {
    states: Vec<SweepState>,
}

impl RunStates {
    #[verifier::type_invariant]
    spec fn by_run(&self) -> bool {
        keys_ordered(self.states@)
    }
}

/// The index of the first target called `id`, if any.
pub open spec fn first_target(ts: Seq<Target>, id: Seq<char>) -> Option<int>
    decreases ts.len(),
{
    if ts.len() == 0 {
        None
    } else {
        match first_target(ts.drop_last(), id) {
            Some(i) => Some(i),
            None => if ts.last().id@ == id { Some(ts.len() - 1) } else { None },
        }
    }
}

proof fn lemma_first_target(ts: Seq<Target>, id: Seq<char>)
    ensures
        first_target(ts, id) matches Some(i) ==> 0 <= i < ts.len() && ts[i].id@ == id
            && forall|j: int| 0 <= j < i ==> (#[trigger] ts[j]).id@ != id,
        first_target(ts, id) is None ==> forall|j: int| 0 <= j < ts.len() ==> (#[trigger] ts[j]).id@ != id,
    decreases ts.len(),
{
    if ts.len() > 0 {
        lemma_first_target(ts.drop_last(), id);
        assert forall|j: int| 0 <= j < ts.len() - 1 implies (#[trigger] ts[j]).id@ == ts.drop_last()[j].id@ by {}
    }
}

/// What `target_by_id` says when there is no such target.
pub open spec fn no_target(id: Seq<char>) -> Seq<char> {
    "no target `"@ + id + "` in this project"@
}

/// The identifier of the `n`th run.
pub open spec fn run_name(n: nat) -> Seq<char> {
    "run-"@ + zero_padded(decimal(n), 4)
}

/// What refusing to resume a run says.
pub open spec fn nothing_to_resume(run: Seq<char>) -> Seq<char> {
    "no sweep `"@ + run + "` to resume"@
}

/// What a request to verify or apply a proposal is told.
pub open spec fn not_yet(proposal: Seq<char>) -> Seq<char> {
    "`"@ + proposal
        + "` cannot be verified or applied yet: Phase 0 proposes configurations and shows their diffs, and applying one arrives with the apply dialog"@
}

/// The findings in `s`, compared field by field with `f`.
pub open spec fn same_findings(s: Seq<Finding>, f: Seq<Finding>) -> bool {
    s.len() == f.len() && forall|i: int| 0 <= i < s.len() ==> same_finding(#[trigger] s[i], f[i])
}

/// The index of the first finding called `id`, if any.
pub open spec fn first_finding(fs: Seq<Finding>, id: Seq<char>) -> Option<int>
    decreases fs.len(),
{
    if fs.len() == 0 {
        None
    } else {
        match first_finding(fs.drop_last(), id) {
            Some(i) => Some(i),
            None => if fs.last().id@ == id { Some(fs.len() - 1) } else { None },
        }
    }
}

proof fn lemma_first_finding(fs: Seq<Finding>, id: Seq<char>)
    ensures
        first_finding(fs, id) matches Some(i) ==> 0 <= i < fs.len() && fs[i].id@ == id
            && forall|j: int| 0 <= j < i ==> (#[trigger] fs[j]).id@ != id,
        first_finding(fs, id) is None ==> forall|j: int| 0 <= j < fs.len() ==> (#[trigger] fs[j]).id@ != id,
    decreases fs.len(),
{
    if fs.len() > 0 {
        lemma_first_finding(fs.drop_last(), id);
        assert forall|j: int| 0 <= j < fs.len() - 1 implies (#[trigger] fs[j]).id@ == fs.drop_last()[j].id@ by {}
    }
}

/// The records `store` holds for `ids`, in order, skipping any it does not.
pub open spec fn cited(ids: Seq<EvidenceId>, store: EvidenceStore) -> Seq<EvidenceView>
    decreases ids.len(),
{
    if ids.len() == 0 {
        seq![]
    } else if store.spec_issued(ids.last()@) {
        cited(ids.drop_last(), store).push(store.record(ids.last()@)@)
    } else {
        cited(ids.drop_last(), store)
    }
}

/// The diff proposing `configuration` for the manifest at `path` with text
/// `current` would show.
pub open spec fn proposed_diff(path: Seq<char>, current: Seq<char>, configuration: BuildConfiguration) -> Seq<char> {
    let updated = match edited(current, release_values_of(configuration)) {
        Some(t) => t,
        None => current,
    };
    if current == updated {
        Seq::empty()
    } else {
        unified_diff_of(path, current, updated)
    }
}

impl<B: SweepBackend> BinmapEngine<B> {
    pub closed spec fn spec_config(&self) -> ProjectConfig {
        self.config
    }

    pub closed spec fn spec_targets(&self) -> Seq<Target> {
        self.targets@
    }

    pub closed spec fn spec_findings(&self) -> Seq<Finding> {
        self.findings@
    }

    pub closed spec fn spec_proposals(&self) -> Seq<Proposal> {
        self.proposals@
    }

    pub closed spec fn spec_runs(&self) -> Seq<SweepState> {
        self.runs.states@
    }

    pub closed spec fn spec_minted(&self) -> u64 {
        self.minted
    }

    pub closed spec fn spec_backend(&self) -> B {
        self.backend
    }

    pub closed spec fn spec_runner(&self) -> ToolRunner {
        self.runner
    }

    /// The store every finding's evidence was issued by.
    pub open spec fn spec_store(&self) -> EvidenceStore {
        self.spec_runner().spec_store()
    }

    /// Open a project whose targets `runner` has discovered, with `backend`
    /// doing its machine work. A caller holding an engine already knows what
    /// the project offers, and the discovery is on the record in the
    /// runner's store.
    pub fn open(config: ProjectConfig, backend: B, runner: ToolRunner, targets: Vec<Target>) -> (e: Self)
        ensures
            e.spec_config() == config,
            e.spec_backend() == backend,
            e.spec_runner() == runner,
            e.spec_targets() == targets@,
            e.spec_findings().len() == 0,
            e.spec_proposals().len() == 0,
            e.spec_runs().len() == 0,
            e.spec_minted() == 0,
    {
        BinmapEngine {
            config,
            backend,
            runner,
            targets,
            findings: Vec::new(),
            proposals: Vec::new(),
            runs: RunStates { states: Vec::new() },
            minted: 0,
        }
    }

    /// The runner every tool of this session runs through, for probing the
    /// environment.
    pub fn runner_mut(&mut self) -> (r: &mut ToolRunner)
        ensures
            *r == old(self).spec_runner(),
            final(self).spec_runner() == *final(r),
            final(self).spec_config() == old(self).spec_config(),
            final(self).spec_backend() == old(self).spec_backend(),
            final(self).spec_targets() == old(self).spec_targets(),
            final(self).spec_findings() == old(self).spec_findings(),
            final(self).spec_proposals() == old(self).spec_proposals(),
            final(self).spec_runs() == old(self).spec_runs(),
            final(self).spec_minted() == old(self).spec_minted(),
    {
        &mut self.runner
    }

    /// The store every finding's evidence was issued by.
    pub fn evidence_store(&self) -> (s: &EvidenceStore)
        ensures
            *s == self.spec_store(),
    {
        self.runner.store()
    }

    /// The configuration the project was opened with.
    pub fn config(&self) -> (c: &ProjectConfig)
        ensures
            *c == self.spec_config(),
    {
        &self.config
    }

    pub fn trust_tier(&self) -> (t: TrustTier)
        ensures
            t == self.spec_config().trust_tier,
    {
        self.config.trust_tier
    }

    /// Raise or lower the tier. Always a deliberate act by the user, which is
    /// why it is a method and never a side effect of anything else.
    pub fn set_trust_tier(&mut self, tier: TrustTier)
        ensures
            final(self).spec_config() == (ProjectConfig { trust_tier: tier, ..old(self).spec_config() }),
            final(self).spec_targets() == old(self).spec_targets(),
            final(self).spec_findings() == old(self).spec_findings(),
            final(self).spec_proposals() == old(self).spec_proposals(),
            final(self).spec_runs() == old(self).spec_runs(),
            final(self).spec_minted() == old(self).spec_minted(),
    {
        proof { use_type_invariant(&self.runs); }
        self.config.trust_tier = tier;
    }

    /// What the project offers.
    pub fn targets(&self) -> (r: Vec<Target>)
        ensures
            r@.len() == self.spec_targets().len(),
            forall|i: int| 0 <= i < r@.len() ==> same_target(#[trigger] r@[i], self.spec_targets()[i]),
    {
        let mut r: Vec<Target> = Vec::new();
        let mut i: usize = 0;
        while i < self.targets.len()
            invariant
                i <= self.targets@.len(),
                r@.len() == i,
                forall|k: int| 0 <= k < i ==> same_target(#[trigger] r@[k], self.targets@[k]),
            decreases self.targets@.len() - i,
        {
            r.push(self.targets[i].clone());
            i = i + 1;
        }
        r
    }

    /// The target called `id`: the first one, where two share it.
    pub fn target_by_id(&self, id: &str) -> (r: Result<Target, Error>)
        ensures
            match first_target(self.spec_targets(), id@) {
                Some(i) => r matches Ok(t) && same_target(t, self.spec_targets()[i]),
                None => r matches Err(Error::Other(m)) && m@ == no_target(id@),
            },
    {
        proof { lemma_first_target(self.targets@, id@); }
        let mut i: usize = 0;
        while i < self.targets.len()
            invariant
                i <= self.targets@.len(),
                forall|j: int| 0 <= j < i ==> (#[trigger] self.targets@[j]).id@ != id@,
            decreases self.targets@.len() - i,
        {
            if text_eq(self.targets[i].id.as_str(), id) {
                proof {
                    lemma_first_target(self.targets@, id@);
                    if let Some(k) = first_target(self.targets@, id@) {
                        if k < i {
                            assert(self.targets@[k].id@ != id@);
                        }
                        if k > i {
                            assert(self.targets@[i as int].id@ != id@);
                        }
                    }
                }
                return Ok(self.targets[i].clone());
            }
            i = i + 1;
        }
        let mut m = text_of("no target `");
        push_text(&mut m, id);
        push_text(&mut m, "` in this project");
        Err(Error::Other(m))
    }

    /// A fresh run identifier: `run-0001`, `run-0002`, and so on.
    fn mint_run(&mut self) -> (r: RunId)
        ensures
            final(self).spec_minted() == if old(self).spec_minted() == u64::MAX { 0 } else { old(self).spec_minted() + 1 },
            r.0@ == run_name(final(self).spec_minted() as nat),
            final(self).spec_config() == old(self).spec_config(),
            final(self).spec_backend() == old(self).spec_backend(),
            final(self).spec_targets() == old(self).spec_targets(),
            final(self).spec_findings() == old(self).spec_findings(),
            final(self).spec_proposals() == old(self).spec_proposals(),
            final(self).spec_runs() == old(self).spec_runs(),
    {
        proof { use_type_invariant(&self.runs); }
        self.minted = self.minted.wrapping_add(1);
        let mut name = text_of("run-");
        push_zero_padded(&mut name, self.minted, 4);
        proof { reveal_strlit("run-"); }
        RunId(name)
    }

    /// The state of one run, for the session artifact.
    pub fn run_state(&self, run: &RunId) -> (r: Option<SweepState>)
        ensures
            r is Some <==> has_key(self.spec_runs(), run.0@),
            r matches Some(s) ==> same_state(s, entry(self.spec_runs(), run.0@)),
    {
        proof { use_type_invariant(&self.runs); }
        match get_keyed(&self.runs.states, run.0.as_str()) {
            Some(s) => Some(s.clone()),
            None => None,
        }
    }

    /// Every run's state, by run.
    pub fn run_states(&self) -> (r: Vec<(RunId, SweepState)>)
        ensures
            r@.len() == self.spec_runs().len(),
            forall|i: int| 0 <= i < r@.len() ==> (#[trigger] r@[i]).0 == self.spec_runs()[i].run
                && same_state(r@[i].1, self.spec_runs()[i]),
    {
        let mut r: Vec<(RunId, SweepState)> = Vec::new();
        let mut i: usize = 0;
        while i < self.runs.states.len()
            invariant
                i <= self.runs.states@.len(),
                r@.len() == i,
                forall|k: int| 0 <= k < i ==> (#[trigger] r@[k]).0 == self.runs.states@[k].run && same_state(r@[k].1, self.runs.states@[k]),
            decreases self.runs.states@.len() - i,
        {
            r.push((self.runs.states[i].run.clone(), self.runs.states[i].clone()));
            i = i + 1;
        }
        r
    }

    /// Adopt a sweep a previous session left unfinished, so it can be resumed.
    pub fn adopt_run(&mut self, state: SweepState)
        ensures
            forall|k: Seq<char>| has_key(final(self).spec_runs(), k) <==> (has_key(old(self).spec_runs(), k) || k == state.run.0@),
            entry(final(self).spec_runs(), state.run.0@) == state,
            forall|k: Seq<char>| k != state.run.0@ && has_key(old(self).spec_runs(), k)
                ==> entry(final(self).spec_runs(), k) == entry(old(self).spec_runs(), k),
            final(self).spec_config() == old(self).spec_config(),
            final(self).spec_targets() == old(self).spec_targets(),
            final(self).spec_findings() == old(self).spec_findings(),
            final(self).spec_proposals() == old(self).spec_proposals(),
            final(self).spec_minted() == old(self).spec_minted(),
    {
        proof { use_type_invariant(&self.runs); }
        let mut states: Vec<SweepState> = Vec::new();
        std::mem::swap(&mut states, &mut self.runs.states);
        insert_keyed(&mut states, state);
        self.runs = RunStates { states };
    }

    /// Every finding streamed so far, in the order they arrived.
    pub fn findings(&self) -> (r: Vec<Finding>)
        ensures
            same_findings(r@, self.spec_findings()),
    {
        let mut r: Vec<Finding> = Vec::new();
        let mut i: usize = 0;
        while i < self.findings.len()
            invariant
                i <= self.findings@.len(),
                r@.len() == i,
                forall|k: int| 0 <= k < i ==> same_finding(#[trigger] r@[k], self.findings@[k]),
            decreases self.findings@.len() - i,
        {
            r.push(self.findings[i].clone());
            i = i + 1;
        }
        r
    }

    /// Every proposal made so far.
    pub fn proposals(&self) -> (r: Vec<Proposal>)
        ensures
            r@.len() == self.spec_proposals().len(),
            forall|i: int| 0 <= i < r@.len() ==> (#[trigger] r@[i]).id == self.spec_proposals()[i].id
                && r@[i].diff == self.spec_proposals()[i].diff,
    {
        let mut r: Vec<Proposal> = Vec::new();
        let mut i: usize = 0;
        while i < self.proposals.len()
            invariant
                i <= self.proposals@.len(),
                r@.len() == i,
                forall|k: int| 0 <= k < i ==> (#[trigger] r@[k]).id == self.proposals@[k].id && r@[k].diff
                    == self.proposals@[k].diff,
            decreases self.proposals@.len() - i,
        {
            r.push(self.proposals[i].clone());
            i = i + 1;
        }
        r
    }

    /// Decide what a request starts: which run, over which target. A sweep
    /// mints a run; a resume names one that exists; a noise-floor run is a
    /// sweep with an empty matrix, registered before it starts. Verifying or
    /// applying a proposal is refused, saying why.
    pub fn start(&mut self, request: Request) -> (r: Result<(RunId, Target), Error>)
        ensures
            final(self).spec_config() == old(self).spec_config(),
            final(self).spec_targets() == old(self).spec_targets(),
            final(self).spec_findings() == old(self).spec_findings(),
            final(self).spec_proposals() == old(self).spec_proposals(),
            match request {
                Request::Sweep { target } => {
                    &&& final(self).spec_minted() == if old(self).spec_minted() == u64::MAX { 0 } else { old(self).spec_minted() + 1 }
                    &&& final(self).spec_runs() == old(self).spec_runs()
                    &&& match first_target(old(self).spec_targets(), target@) {
                        Some(i) => r matches Ok((run, t)) && run.0@ == run_name(final(self).spec_minted() as nat)
                            && same_target(t, old(self).spec_targets()[i]),
                        None => r matches Err(Error::Other(m)) && m@ == no_target(target@),
                    }
                },
                Request::ResumeSweep { run } => {
                    &&& final(self).spec_minted() == old(self).spec_minted()
                    &&& final(self).spec_runs() == old(self).spec_runs()
                    &&& if !has_key(old(self).spec_runs(), run.0@) {
                        r matches Err(Error::Other(m)) && m@ == nothing_to_resume(run.0@)
                    } else {
                        let wanted = entry(old(self).spec_runs(), run.0@).target@;
                        match first_target(old(self).spec_targets(), wanted) {
                            Some(i) => r matches Ok((id, t)) && id == run && same_target(t, old(self).spec_targets()[i]),
                            None => r matches Err(Error::Other(m)) && m@ == no_target(wanted),
                        }
                    }
                },
                Request::NoiseFloor { target } => match first_target(old(self).spec_targets(), target@) {
                    None => {
                        &&& r matches Err(Error::Other(m)) && m@ == no_target(target@)
                        &&& final(self).spec_minted() == old(self).spec_minted()
                        &&& final(self).spec_runs() == old(self).spec_runs()
                    },
                    Some(i) => {
                        &&& final(self).spec_minted() == if old(self).spec_minted() == u64::MAX { 0 } else { old(self).spec_minted() + 1 }
                        &&& r matches Ok((run, t)) && run.0@ == run_name(final(self).spec_minted() as nat)
                            && same_target(t, old(self).spec_targets()[i])
                            && has_key(final(self).spec_runs(), run.0@)
                            && entry(final(self).spec_runs(), run.0@).planned@.len() == 0
                            && entry(final(self).spec_runs(), run.0@).measured@.len() == 0
                            && entry(final(self).spec_runs(), run.0@).target@ == t.id@
                            && forall|k: Seq<char>| k != run.0@ && has_key(old(self).spec_runs(), k)
                                ==> has_key(final(self).spec_runs(), k) && entry(final(self).spec_runs(), k) == entry(old(self).spec_runs(), k)
                    },
                },
                Request::Verify { proposal } => {
                    &&& r matches Err(Error::Other(m)) && m@ == not_yet(proposal@)
                    &&& final(self).spec_minted() == old(self).spec_minted()
                    &&& final(self).spec_runs() == old(self).spec_runs()
                },
                Request::Apply { proposal } => {
                    &&& r matches Err(Error::Other(m)) && m@ == not_yet(proposal@)
                    &&& final(self).spec_minted() == old(self).spec_minted()
                    &&& final(self).spec_runs() == old(self).spec_runs()
                },
            },
    {
        proof { use_type_invariant(&self.runs); }
        match request {
            Request::Sweep { target } => {
                let run = self.mint_run();
                match self.target_by_id(target.as_str()) {
                    Ok(t) => Ok((run, t)),
                    Err(e) => Err(e),
                }
            },
            Request::ResumeSweep { run } => {
                let wanted = match get_keyed(&self.runs.states, run.0.as_str()) {
                    Some(state) => text_of(state.target.as_str()),
                    None => {
                        let mut m = text_of("no sweep `");
                        push_text(&mut m, run.0.as_str());
                        push_text(&mut m, "` to resume");
                        return Err(Error::Other(m));
                    },
                };
                match self.target_by_id(wanted.as_str()) {
                    Ok(t) => Ok((run, t)),
                    Err(e) => Err(e),
                }
            },
            Request::NoiseFloor { target } => {
                let t = match self.target_by_id(target.as_str()) {
                    Ok(t) => t,
                    Err(e) => return Err(e),
                };
                let run = self.mint_run();
                let state = SweepState::new(run.clone(), text_of(t.id.as_str()), Vec::new());
                self.adopt_run(state);
                Ok((run, t))
            },
            Request::Verify { proposal } => {
                let mut m = text_of("`");
                push_text(&mut m, proposal.as_str());
                push_text(
                    &mut m,
                    "` cannot be verified or applied yet: Phase 0 proposes configurations and shows their diffs, and applying one arrives with the apply dialog",
                );
                Err(Error::Other(m))
            },
            Request::Apply { proposal } => {
                let mut m = text_of("`");
                push_text(&mut m, proposal.as_str());
                push_text(
                    &mut m,
                    "` cannot be verified or applied yet: Phase 0 proposes configurations and shows their diffs, and applying one arrives with the apply dialog",
                );
                Err(Error::Other(m))
            },
        }
    }


    /// Run, or resume, the sweep `run` over `target` on the calling thread.
    ///
    /// A run this engine already holds is resumed from its state; any other
    /// starts from the configured matrix. Findings are kept as they stream, so
    /// a view opened mid-run has something to show, and the state is kept
    /// whatever happened, so a cancelled sweep can be resumed.
    pub fn sweep_blocking(&mut self, run: RunId, target: &Target, events: &mut RecordedEvents, cancellation: &Cancellation)
        requires
            !has_key(old(self).spec_runs(), run.0@) ==> old(self).spec_config().matrix.spec_cardinality() <= usize::MAX,
        ensures
            final(self).spec_config() == old(self).spec_config(),
            final(self).spec_targets() == old(self).spec_targets(),
            final(self).spec_proposals() == old(self).spec_proposals(),
            final(self).spec_minted() == old(self).spec_minted(),
            forall|k: Seq<char>| has_key(final(self).spec_runs(), k) <==> (has_key(old(self).spec_runs(), k) || k == run.0@),
            forall|k: Seq<char>| k != run.0@ && has_key(old(self).spec_runs(), k)
                ==> entry(final(self).spec_runs(), k) == entry(old(self).spec_runs(), k),
            entry(final(self).spec_runs(), run.0@).run.0@ == run.0@,
            has_key(old(self).spec_runs(), run.0@) ==> {
                &&& entry(final(self).spec_runs(), run.0@).target == entry(old(self).spec_runs(), run.0@).target
                &&& entry(final(self).spec_runs(), run.0@).planned@ == entry(old(self).spec_runs(), run.0@).planned@
            },
            !has_key(old(self).spec_runs(), run.0@) ==> {
                let planned = entry(final(self).spec_runs(), run.0@).planned@;
                &&& entry(final(self).spec_runs(), run.0@).target@ == target.id@
                &&& planned.len() == old(self).spec_config().matrix.spec_cardinality()
                &&& forall|k: int| 0 <= k < planned.len() ==> #[trigger] planned[k] == config_at(old(self).spec_config().matrix, k as nat)
            },
            old(events)@.len() < final(events)@.len(),
            final(events)@.take(old(events)@.len() as int) == old(events)@,
            same_findings(
                final(self).spec_findings(),
                old(self).spec_findings() + carried_findings(final(events)@.skip(old(events)@.len() as int)),
            ),
    {
        proof { use_type_invariant(&self.runs); }
        let ghost before = events@;
        let mut state = match get_keyed(&self.runs.states, run.0.as_str()) {
            Some(s) => s.clone(),
            None => SweepState::new(run.clone(), text_of(target.id.as_str()), BuildConfiguration::expand(&self.config.matrix)),
        };
        let from = events.events_len();
        let sweep = Sweep { options: SweepOptions::new().with_parallelism(self.config.parallelism) };
        let outcome = sweep.run(&mut self.backend, &mut self.runner, target, &mut state, events, cancellation);
        match outcome {
            Err(error) => {
                let message = error.to_string();
                events.emit(EngineEvent::Failed { run: run.clone(), error: message });
            },
            Ok(()) => {},
        }
        let mut found = events.findings_since(from);
        let ghost kept = self.findings@;
        let ghost streamed = found@;
        self.findings.append(&mut found);
        assert forall|i: int| 0 <= i < self.findings@.len() implies same_finding(
            #[trigger] self.findings@[i],
            (kept + carried_findings(events@.skip(from as int)))[i],
        ) by {
            if i >= kept.len() {
                assert(self.findings@[i] == streamed[i - kept.len()]);
            }
        }
        assert(events@.take(before.len() as int) =~= before) by {
            assert(events@.take(before.len() as int) =~= events@.take(before.len() as int + 1).take(before.len() as int)) by {}
        }
        self.adopt_run(state);
    }

    /// The evidence behind one finding, in the order it cites it. A finding
    /// that does not exist has none, which is not an error.
    pub fn evidence(&self, finding: &str) -> (r: Vec<Evidence>)
        ensures
            match first_finding(self.spec_findings(), finding@) {
                None => r@.len() == 0,
                Some(i) => r@.map_values(|e: Evidence| e@) == cited(self.spec_findings()[i].evidence@, self.spec_store()),
            },
    {
        proof { lemma_first_finding(self.findings@, finding@); }
        let mut i: usize = 0;
        while i < self.findings.len()
            invariant
                i <= self.findings@.len(),
                forall|j: int| 0 <= j < i ==> (#[trigger] self.findings@[j]).id@ != finding@,
            decreases self.findings@.len() - i,
        {
            if text_eq(self.findings[i].id.as_str(), finding) {
                proof {
                    lemma_first_finding(self.findings@, finding@);
                    if let Some(k) = first_finding(self.findings@, finding@) {
                        if k < i {
                            assert(self.findings@[k].id@ != finding@);
                        }
                        if k > i {
                            assert(self.findings@[i as int].id@ != finding@);
                        }
                    }
                }
                let store = self.runner.store();
                let ids = &self.findings[i].evidence;
                let mut r: Vec<Evidence> = Vec::new();
                let mut j: usize = 0;
                while j < ids.len()
                    invariant
                        j <= ids@.len(),
                        r@.map_values(|e: Evidence| e@) == cited(ids@.take(j as int), *store),
                    decreases ids@.len() - j,
                {
                    assert(ids@.take(j + 1).drop_last() =~= ids@.take(j as int));
                    match store.get(&ids[j]) {
                        Some(e) => {
                            let ghost so_far = r@;
                            r.push(e);
                            assert(r@.map_values(|e: Evidence| e@) =~= so_far.map_values(|e: Evidence| e@).push(e@));
                        },
                        None => {},
                    }
                    j = j + 1;
                }
                assert(ids@.take(ids@.len() as int) =~= ids@);
                return r;
            }
            i = i + 1;
        }
        Vec::new()
    }

    /// Propose writing `configuration` into the release profile of the
    /// manifest whose text is `current`: the diff it would make, and the file
    /// it would write. Nothing is written.
    pub fn propose_configuration(&mut self, configuration: &BuildConfiguration, current: &str) -> (p: Proposal)
        ensures
            p.id@ == "apply-"@ + name_of(*configuration),
            p.finding@ == "frontier-"@ + name_of(*configuration),
            p.summary@ == "Write "@ + describe_of(*configuration) + " into [profile.release]"@,
            p.diff@ == proposed_diff(path_join(old(self).spec_config().root@, "Cargo.toml"@), current@, *configuration),
            p.writes@.len() == 1,
            p.writes@[0]@ == path_join(old(self).spec_config().root@, "Cargo.toml"@),
            final(self).spec_proposals().len() == old(self).spec_proposals().len() + 1,
            final(self).spec_proposals().take(old(self).spec_proposals().len() as int) == old(self).spec_proposals(),
            final(self).spec_proposals().last().id == p.id,
            final(self).spec_proposals().last().diff == p.diff,
            final(self).spec_config() == old(self).spec_config(),
            final(self).spec_targets() == old(self).spec_targets(),
            final(self).spec_findings() == old(self).spec_findings(),
            final(self).spec_runs() == old(self).spec_runs(),
            final(self).spec_minted() == old(self).spec_minted(),
    {
        proof { use_type_invariant(&self.runs); }
        let manifest = join_path(self.config.root.as_str(), "Cargo.toml");
        let updated = with_release_profile(current, configuration);
        let diff = unified_diff(manifest.as_str(), current, updated.as_str());
        let name = configuration.name();
        let mut id = text_of("apply-");
        push_text(&mut id, name.as_str());
        let mut finding = text_of("frontier-");
        push_text(&mut finding, name.as_str());
        let mut summary = text_of("Write ");
        let described = configuration.describe();
        push_text(&mut summary, described.as_str());
        push_text(&mut summary, " into [profile.release]");
        let mut writes: Vec<String> = Vec::new();
        writes.push(manifest);
        let proposal = Proposal { id, finding, summary, diff, writes };
        let ghost old_proposals = self.proposals@;
        self.proposals.push(proposal.clone());
        assert(self.proposals@.take(old_proposals.len() as int) =~= old_proposals);
        proposal
    }

}

} // verus!
