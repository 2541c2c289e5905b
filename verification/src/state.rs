//! What the interface knows, as plain data.
//!
//! Deliberately free of any framework type: the view state can be driven by
//! scripted events without a window.

use crate::capability::{Capabilities, Capability};
use crate::event::{event_run, EngineEvent, RunId};
use crate::facade::{Probe, ProbeStatus};
use crate::finding::{Finding, FindingKind};
use crate::keyed::{entry, find_key, get_keyed, has_key, insert_keyed, keys_ordered, remove_keyed, Keyed};
use crate::text::text_eq;
use crate::traits::{Target, TargetFamily};
use vstd::prelude::*;
use vstd::view::View as _;

verus! {

/// The views the nav rail can offer.
///
/// A view a target cannot support is **absent** from the rail rather than
/// present and empty. That is a different failure from a blocked action,
/// which states its reason instead of disappearing.
#[derive(Debug, Clone, Copy, PartialEq, Eq, PartialOrd, Ord, Hash, Structural)]
pub enum View {
    Target,
    Size,
    Tune,
    Failure,
    Perf,
    Load,
    Replay,
    Agent,
    Environment,
}

pub open spec fn view_label(v: View) -> Seq<char> {
    match v {
        View::Target => "Target"@,
        View::Size => "Size"@,
        View::Tune => "Tune"@,
        View::Failure => "Failure"@,
        View::Perf => "Perf"@,
        View::Load => "Load"@,
        View::Replay => "Replay"@,
        View::Agent => "Agent"@,
        View::Environment => "Environment"@,
    }
}

/// The capability a view needs; `None` for the views every target has.
pub open spec fn view_requires(v: View) -> Option<Capability> {
    match v {
        View::Target | View::Agent | View::Environment => None,
        View::Size => Some(Capability::SizeAttribution),
        View::Tune => Some(Capability::ConfigurationSweep),
        View::Failure => Some(Capability::CrashAnalysis),
        View::Perf => Some(Capability::PerformanceAttribution),
        View::Load => Some(Capability::LoadTime),
        View::Replay => Some(Capability::ReplayDebugging),
    }
}

/// Every view, in nav rail order.
pub open spec fn all_views() -> Seq<View> {
    seq![
        View::Target,
        View::Size,
        View::Tune,
        View::Failure,
        View::Perf,
        View::Load,
        View::Replay,
        View::Agent,
        View::Environment,
    ]
}

impl View {
    pub fn label(self) -> (s: &'static str)
        ensures
            s@ == view_label(self),
    {
        match self {
            View::Target => "Target",
            View::Size => "Size",
            View::Tune => "Tune",
            View::Failure => "Failure",
            View::Perf => "Perf",
            View::Load => "Load",
            View::Replay => "Replay",
            View::Agent => "Agent",
            View::Environment => "Environment",
        }
    }

    /// The capability this view needs. `None` for the views that are always
    /// available whatever the target is.
    pub fn required_capability(self) -> (c: Option<Capability>)
        ensures
            c == view_requires(self),
    {
        match self {
            View::Target | View::Agent | View::Environment => None,
            View::Size => Some(Capability::SizeAttribution),
            View::Tune => Some(Capability::ConfigurationSweep),
            View::Failure => Some(Capability::CrashAnalysis),
            View::Perf => Some(Capability::PerformanceAttribution),
            View::Load => Some(Capability::LoadTime),
            View::Replay => Some(Capability::ReplayDebugging),
        }
    }

    /// In nav rail order.
    pub const ALL: [View; 9] = [
        View::Target,
        View::Size,
        View::Tune,
        View::Failure,
        View::Perf,
        View::Load,
        View::Replay,
        View::Agent,
        View::Environment,
    ];
}

fn every_view() -> (r: Vec<View>)
    ensures
        r@ == all_views(),
{
    let r = vec![
        View::Target,
        View::Size,
        View::Tune,
        View::Failure,
        View::Perf,
        View::Load,
        View::Replay,
        View::Agent,
        View::Environment,
    ];
    assert(r@ =~= all_views());
    r
}

/// One entry in the nav rail, with the count the design puts beside it.
#[derive(Debug, Clone, Copy, PartialEq, Eq, Structural)]
pub struct NavEntry {
    pub view: View,
    pub findings: usize,
}

#[derive(Debug, PartialEq, Eq)]
pub enum RunPhase {
    Running,
    Finished { summary: String },
    /// Cancelled, keeping everything measured. Not an error.
    Cancelled { completed: usize },
    Failed { error: String },
}

impl Clone for RunPhase {
    fn clone(&self) -> (r: Self)
        ensures
            r == *self,
    {
        match self {
            RunPhase::Running => RunPhase::Running,
            RunPhase::Finished { summary } => RunPhase::Finished { summary: summary.clone() },
            RunPhase::Cancelled { completed } => RunPhase::Cancelled { completed: *completed },
            RunPhase::Failed { error } => RunPhase::Failed { error: error.clone() },
        }
    }
}

/// A run in flight, as the progress indicator reads it.
#[derive(Debug, PartialEq, Eq)]
pub struct RunProgress {
    pub run: RunId,
    pub description: String,
    pub completed: usize,
    pub total: Option<usize>,
    /// The last thing that happened, shown under the bar.
    pub message: String,
    pub state: RunPhase,
}

impl Clone for RunProgress {
    fn clone(&self) -> (r: Self)
        ensures
            r == *self,
    {
        RunProgress {
            run: self.run.clone(),
            description: self.description.clone(),
            completed: self.completed,
            total: self.total,
            message: self.message.clone(),
            state: self.state.clone(),
        }
    }
}

impl Keyed for RunProgress {
    open spec fn key(&self) -> Seq<char> {
        self.run.0@
    }

    fn key_text(&self) -> (r: &str) {
        self.run.0.as_str()
    }
}

impl RunProgress {
    pub fn is_running(&self) -> (r: bool)
        ensures
            r == (self.state is Running),
    {
        match self.state {
            RunPhase::Running => true,
            _ => false,
        }
    }

    /// Steps done against the total, the done count capped at the total,
    /// where the total is known and not zero. `None` renders as an
    /// indeterminate bar rather than as a guess.
    pub fn ratio(&self) -> (r: Option<(usize, usize)>)
        ensures
            r == match self.total {
                Some(t) => if t == 0 {
                    None
                } else {
                    Some((if self.completed <= t { self.completed } else { t }, t))
                },
                None => None,
            },
    {
        match self.total {
            Some(t) => if t == 0 {
                None
            } else {
                Some((if self.completed <= t { self.completed } else { t }, t))
            },
            None => None,
        }
    }
}

/// Which view a finding of this kind belongs under. A kind this build does
/// not recognise belongs to no view rather than to the wrong one.
pub open spec fn view_for(kind: FindingKind) -> Option<View> {
    match kind {
        FindingKind::Configuration | FindingKind::FrontierPoint | FindingKind::RejectedCandidate => Some(View::Tune),
        FindingKind::SizeAttribution | FindingKind::Monomorphization | FindingKind::SizeDriver
        | FindingKind::Diff => Some(View::Size),
        FindingKind::EnvironmentProbe => Some(View::Environment),
        FindingKind::Other(_) => None,
    }
}

fn view_for_kind(kind: &FindingKind) -> (v: Option<View>)
    ensures
        v == view_for(*kind),
{
    match kind {
        FindingKind::Configuration | FindingKind::FrontierPoint | FindingKind::RejectedCandidate => Some(View::Tune),
        FindingKind::SizeAttribution | FindingKind::Monomorphization | FindingKind::SizeDriver
        | FindingKind::Diff => Some(View::Size),
        FindingKind::EnvironmentProbe => Some(View::Environment),
        FindingKind::Other(_) => None,
    }
}

/// `i` is the first target in `t` whose id is `id`.
pub open spec fn is_first_target(t: Seq<Target>, id: Seq<char>, i: int) -> bool {
    &&& 0 <= i < t.len()
    &&& t[i].id@ == id
    &&& forall|j: int| 0 <= j < i ==> (#[trigger] t[j]).id@ != id
}

pub open spec fn has_target(t: Seq<Target>, id: Seq<char>) -> bool {
    exists|i: int| 0 <= i < t.len() && (#[trigger] t[i]).id@ == id
}

/// Where the first target with `id` is.
pub open spec fn target_index(t: Seq<Target>, id: Seq<char>) -> int {
    choose|i: int| is_first_target(t, id, i)
}

/// Where a target is present, a first one is.
pub proof fn lemma_first_target(t: Seq<Target>, id: Seq<char>)
    requires
        has_target(t, id),
    ensures
        is_first_target(t, id, target_index(t, id)),
{
    let i = choose|i: int| 0 <= i < t.len() && (#[trigger] t[i]).id@ == id;
    lemma_first_target_below(t, id, i);
}

proof fn lemma_first_target_below(t: Seq<Target>, id: Seq<char>, i: int)
    requires
        0 <= i < t.len(),
        t[i].id@ == id,
    ensures
        exists|k: int| is_first_target(t, id, k),
    decreases i,
{
    if exists|j: int| 0 <= j < i && (#[trigger] t[j]).id@ == id {
        let j = choose|j: int| 0 <= j < i && (#[trigger] t[j]).id@ == id;
        lemma_first_target_below(t, id, j);
    } else {
        assert(is_first_target(t, id, i));
    }
}

/// The capabilities of the selected target; none where nothing is selected
/// or the selection names no target.
pub open spec fn caps_of(t: Seq<Target>, selected: Option<String>) -> Seq<Capability> {
    match selected {
        Some(id) => if has_target(t, id@) { t[target_index(t, id@)].capabilities@ } else { seq![] },
        None => seq![],
    }
}

/// Whether a target with these capabilities can show `v`.
pub open spec fn offered(caps: Seq<Capability>, v: View) -> bool {
    match view_requires(v) {
        None => true,
        Some(c) => caps.contains(c),
    }
}

/// The findings in `f` that belong under `v`, in order.
pub open spec fn findings_under(f: Seq<Finding>, v: View) -> Seq<Finding>
    decreases f.len(),
{
    if f.len() == 0 {
        seq![]
    } else if view_for(f.last().kind) == Some(v) {
        findings_under(f.drop_last(), v).push(f.last())
    } else {
        findings_under(f.drop_last(), v)
    }
}

proof fn lemma_findings_under_len(f: Seq<Finding>, v: View)
    ensures
        findings_under(f, v).len() <= f.len(),
    decreases f.len(),
{
    if f.len() > 0 {
        lemma_findings_under_len(f.drop_last(), v);
    }
}

/// The nav rail's entries for `views`: each view the capabilities allow,
/// with the number of findings under it.
pub open spec fn nav_from(views: Seq<View>, caps: Seq<Capability>, f: Seq<Finding>) -> Seq<NavEntry>
    decreases views.len(),
{
    if views.len() == 0 {
        seq![]
    } else if offered(caps, views.last()) {
        nav_from(views.drop_last(), caps, f).push(
            NavEntry { view: views.last(), findings: findings_under(f, views.last()).len() as usize },
        )
    } else {
        nav_from(views.drop_last(), caps, f)
    }
}

/// No two findings share an identifier.
pub open spec fn ids_unique(f: Seq<Finding>) -> bool {
    forall|i: int, j: int| 0 <= i < j < f.len() ==> (#[trigger] f[i]).id@ != (#[trigger] f[j]).id@
}

pub open spec fn has_finding(f: Seq<Finding>, id: Seq<char>) -> bool {
    exists|i: int| 0 <= i < f.len() && (#[trigger] f[i]).id@ == id
}

/// Where the finding with `id` is.
pub open spec fn finding_index(f: Seq<Finding>, id: Seq<char>) -> int {
    choose|i: int| 0 <= i < f.len() && (#[trigger] f[i]).id@ == id
}

/// Where the first target with `id` is, if any.
fn find_target(targets: &Vec<Target>, id: &str) -> (r: Option<usize>)
    ensures
        r is None <==> !has_target(targets@, id@),
        r matches Some(i) ==> is_first_target(targets@, id@, i as int) && i as int == target_index(targets@, id@),
{
    let mut i: usize = 0;
    while i < targets.len()
        invariant
            i <= targets@.len(),
            forall|j: int| 0 <= j < i ==> (#[trigger] targets@[j]).id@ != id@,
        decreases targets@.len() - i,
    {
        if text_eq(targets[i].id.as_str(), id) {
            proof {
                assert(is_first_target(targets@, id@, i as int));
                lemma_first_target(targets@, id@);
                let k = target_index(targets@, id@);
                if k < i {
                    assert(targets@[k].id@ != id@);
                } else if k > i {
                    assert(targets@[i as int].id@ != id@);
                }
            }
            return Some(i);
        }
        i = i + 1;
    }
    None
}

/// The capabilities of the selected target.
fn caps_for(targets: &Vec<Target>, selected: &Option<String>) -> (r: Capabilities)
    ensures
        r@ == caps_of(targets@, *selected),
{
    match selected {
        Some(id) => match find_target(targets, id.as_str()) {
            Some(i) => targets[i].capabilities.clone(),
            None => Capabilities::none(),
        },
        None => Capabilities::none(),
    }
}

fn is_offered(caps: &Capabilities, v: View) -> (r: bool)
    ensures
        r == offered(caps@, v),
{
    match v.required_capability() {
        None => true,
        Some(c) => caps.has(c),
    }
}

/// Where the finding with `id` is, if any.
fn find_finding(findings: &Vec<Finding>, id: &str) -> (r: Option<usize>)
    requires
        ids_unique(findings@),
    ensures
        r is None <==> !has_finding(findings@, id@),
        r matches Some(i) ==> i < findings@.len() && findings@[i as int].id@ == id@
            && i as int == finding_index(findings@, id@),
{
    let mut i: usize = 0;
    while i < findings.len()
        invariant
            i <= findings@.len(),
            ids_unique(findings@),
            forall|j: int| 0 <= j < i ==> (#[trigger] findings@[j]).id@ != id@,
        decreases findings@.len() - i,
    {
        if text_eq(findings[i].id.as_str(), id) {
            proof {
                assert(has_finding(findings@, id@)) by {
                    assert(findings@[i as int].id@ == id@);
                }
                let k = finding_index(findings@, id@);
                if k != i {
                    if k < i {
                        assert(findings@[k].id@ != findings@[i as int].id@);
                    } else {
                        assert(findings@[i as int].id@ != findings@[k].id@);
                    }
                }
            }
            return Some(i);
        }
        i = i + 1;
    }
    None
}

/// Everything one window shows.
#[derive(Debug)]
pub struct AppState {
    targets: Vec<Target>,
    selected_target: Option<String>,
    view: Option<View>,
    findings: Vec<Finding>,
    /// By id, so selection survives a re-sort.
    selected_finding: Option<String>,
    /// Ordered by run identifier, each run once.
    runs: Vec<RunProgress>,
    probes: Vec<Probe>,
}

impl AppState {
    /// Runs are held once each, findings once each, and the selected view is
    /// one the selected target supports.
    #[verifier::type_invariant]
    spec fn consistent(self) -> bool {
        &&& keys_ordered(self.runs@)
        &&& ids_unique(self.findings@)
        &&& match self.view {
            Some(v) => offered(caps_of(self.targets@, self.selected_target), v),
            None => true,
        }
    }

    pub closed spec fn spec_targets(&self) -> Seq<Target> {
        self.targets@
    }

    pub closed spec fn spec_selected_target(&self) -> Option<String> {
        self.selected_target
    }

    pub closed spec fn spec_view(&self) -> Option<View> {
        self.view
    }

    pub closed spec fn spec_findings(&self) -> Seq<Finding> {
        self.findings@
    }

    pub closed spec fn spec_selected_finding(&self) -> Option<String> {
        self.selected_finding
    }

    pub closed spec fn spec_runs(&self) -> Seq<RunProgress> {
        self.runs@
    }

    pub closed spec fn spec_probes(&self) -> Seq<Probe> {
        self.probes@
    }

    /// The capabilities of the selected target.
    pub open spec fn spec_caps(&self) -> Seq<Capability> {
        caps_of(self.spec_targets(), self.spec_selected_target())
    }

    pub open spec fn has_run(&self, k: Seq<char>) -> bool {
        has_key(self.spec_runs(), k)
    }

    pub open spec fn run_entry(&self, k: Seq<char>) -> RunProgress {
        entry(self.spec_runs(), k)
    }

    pub fn new() -> (s: Self)
        ensures
            s.spec_targets().len() == 0,
            s.spec_selected_target() is None,
            s.spec_view() is None,
            s.spec_findings().len() == 0,
            s.spec_selected_finding() is None,
            s.spec_runs().len() == 0,
            s.spec_probes().len() == 0,
    {
        AppState {
            targets: Vec::new(),
            selected_target: None,
            view: None,
            findings: Vec::new(),
            selected_finding: None,
            runs: Vec::new(),
            probes: Vec::new(),
        }
    }

    // -- targets ----------------------------------------------------------

    /// Replace the targets. The first one is selected where nothing was, and
    /// a view the selected target cannot support does not stay selected.
    pub fn set_targets(&mut self, targets: Vec<Target>)
        ensures
            final(self).spec_targets() == targets@,
            final(self).spec_selected_target() == match old(self).spec_selected_target() {
                Some(id) => Some(id),
                None => if targets@.len() > 0 { Some(targets@[0].id) } else { None },
            },
            final(self).spec_view() == match old(self).spec_view() {
                Some(v) => if offered(final(self).spec_caps(), v) { Some(v) } else { None },
                None => None,
            },
            final(self).spec_findings() == old(self).spec_findings(),
            final(self).spec_selected_finding() == old(self).spec_selected_finding(),
            final(self).spec_runs() == old(self).spec_runs(),
            final(self).spec_probes() == old(self).spec_probes(),
    {
        proof { use_type_invariant(&*self); }
        let selected = match &self.selected_target {
            Some(id) => Some(id.clone()),
            None => if targets.len() > 0 { Some(targets[0].id.clone()) } else { None },
        };
        let caps = caps_for(&targets, &selected);
        let view = match self.view {
            Some(v) => if is_offered(&caps, v) { Some(v) } else { None },
            None => None,
        };
        self.view = None;
        self.targets = targets;
        self.selected_target = selected;
        self.view = view;
    }

    pub fn targets(&self) -> (r: &[Target])
        ensures
            r@ == self.spec_targets(),
    {
        self.targets.as_slice()
    }

    /// Targets grouped by language, in the order the project view lists them:
    /// each family that has targets, in family order, with its targets in
    /// the order they were given.
    pub fn targets_by_family(&self) -> (r: Vec<(TargetFamily, Vec<&Target>)>)
        ensures
            r@.len() == families_present(self.spec_targets(), family_order()).len(),
            forall|i: int| 0 <= i < r@.len() ==> {
                let f = families_present(self.spec_targets(), family_order())[i];
                &&& (#[trigger] r@[i]).0 == f
                &&& r@[i].1@.len() == targets_in(self.spec_targets(), f).len()
                &&& forall|j: int| 0 <= j < r@[i].1@.len() ==> *(#[trigger] r@[i].1@[j]) == targets_in(self.spec_targets(), f)[j]
            },
    {
        let families = vec![TargetFamily::Rust, TargetFamily::TypeScript, TargetFamily::CSharp];
        assert(families@ =~= family_order());
        let mut r: Vec<(TargetFamily, Vec<&Target>)> = Vec::new();
        let mut k: usize = 0;
        while k < families.len()
            invariant
                k <= families@.len(),
                families@ == family_order(),
                r@.len() == families_present(self.targets@, families@.take(k as int)).len(),
                forall|i: int| 0 <= i < r@.len() ==> {
                    let f = families_present(self.targets@, families@.take(k as int))[i];
                    &&& (#[trigger] r@[i]).0 == f
                    &&& r@[i].1@.len() == targets_in(self.targets@, f).len()
                    &&& forall|j: int| 0 <= j < r@[i].1@.len() ==> *(#[trigger] r@[i].1@[j]) == targets_in(self.targets@, f)[j]
                },
            decreases families@.len() - k,
        {
            let family = families[k];
            assert(families@.take(k + 1).drop_last() =~= families@.take(k as int));
            let group = targets_of_family(&self.targets, family);
            if group.len() > 0 {
                r.push((family, group));
            }
            k = k + 1;
        }
        assert(families@.take(families@.len() as int) =~= families@);
        r
    }

    /// Select a target by id. Refuses an id no target has, and drops a view
    /// the new target cannot support.
    pub fn select_target(&mut self, id: &str) -> (r: bool)
        ensures
            r == has_target(old(self).spec_targets(), id@),
            final(self).spec_targets() == old(self).spec_targets(),
            !r ==> final(self).spec_selected_target() == old(self).spec_selected_target(),
            r ==> (final(self).spec_selected_target() matches Some(s) && s@ == id@),
            !r ==> final(self).spec_view() == old(self).spec_view(),
            r ==> final(self).spec_view() == match old(self).spec_view() {
                Some(v) => if offered(final(self).spec_caps(), v) { Some(v) } else { None },
                None => None,
            },
            final(self).spec_findings() == old(self).spec_findings(),
            final(self).spec_selected_finding() == old(self).spec_selected_finding(),
            final(self).spec_runs() == old(self).spec_runs(),
            final(self).spec_probes() == old(self).spec_probes(),
    {
        proof { use_type_invariant(&*self); }
        if find_target(&self.targets, id).is_none() {
            return false;
        }
        let selected = Some(crate::text::text_of(id));
        let caps = caps_for(&self.targets, &selected);
        let view = match self.view {
            Some(v) => if is_offered(&caps, v) { Some(v) } else { None },
            None => None,
        };
        self.view = None;
        self.selected_target = selected;
        self.view = view;
        true
    }

    /// The selected target, where the selection names one.
    pub fn selected_target(&self) -> (r: Option<&Target>)
        ensures
            r == match self.spec_selected_target() {
                Some(id) => if has_target(self.spec_targets(), id@) {
                    Some(&self.spec_targets()[target_index(self.spec_targets(), id@)])
                } else {
                    None
                },
                None => None,
            },
    {
        match &self.selected_target {
            Some(id) => match find_target(&self.targets, id.as_str()) {
                Some(i) => Some(&self.targets[i]),
                None => None,
            },
            None => None,
        }
    }

    // -- the nav rail -----------------------------------------------------

    /// The entries the rail shows for the selected target.
    ///
    /// Entries whose capability the target lacks are simply not here. That is
    /// the rule, and it is why this returns a list rather than a list of
    /// enabled-or-not.
    pub fn nav_entries(&self) -> (r: Vec<NavEntry>)
        ensures
            r@ == nav_from(all_views(), self.spec_caps(), self.spec_findings()),
    {
        let caps = caps_for(&self.targets, &self.selected_target);
        let views = every_view();
        let mut r: Vec<NavEntry> = Vec::new();
        let mut i: usize = 0;
        while i < views.len()
            invariant
                i <= views@.len(),
                views@ == all_views(),
                caps@ == caps_of(self.targets@, self.selected_target),
                r@ == nav_from(views@.take(i as int), caps@, self.findings@),
            decreases views@.len() - i,
        {
            let v = views[i];
            assert(views@.take(i + 1).drop_last() =~= views@.take(i as int));
            if is_offered(&caps, v) {
                let count = self.findings_for(v).len();
                r.push(NavEntry { view: v, findings: count });
            }
            i = i + 1;
        }
        assert(views@.take(views@.len() as int) =~= views@);
        r
    }

    pub fn view(&self) -> (v: Option<View>)
        ensures
            v == self.spec_view(),
            v matches Some(w) ==> offered(self.spec_caps(), w),
    {
        proof { use_type_invariant(self); }
        self.view
    }

    /// Select a view. Refuses a view the target cannot support rather than
    /// showing an empty one.
    pub fn select_view(&mut self, view: View) -> (r: bool)
        ensures
            r == offered(old(self).spec_caps(), view),
            r ==> final(self).spec_view() == Some(view),
            !r ==> final(self).spec_view() == old(self).spec_view(),
            final(self).spec_targets() == old(self).spec_targets(),
            final(self).spec_selected_target() == old(self).spec_selected_target(),
            final(self).spec_findings() == old(self).spec_findings(),
            final(self).spec_selected_finding() == old(self).spec_selected_finding(),
            final(self).spec_runs() == old(self).spec_runs(),
            final(self).spec_probes() == old(self).spec_probes(),
    {
        proof { use_type_invariant(&*self); }
        let caps = caps_for(&self.targets, &self.selected_target);
        if !is_offered(&caps, view) {
            return false;
        }
        self.view = Some(view);
        true
    }

    // -- findings ---------------------------------------------------------

    pub fn findings(&self) -> (r: &[Finding])
        ensures
            r@ == self.spec_findings(),
            ids_unique(r@),
    {
        proof { use_type_invariant(self); }
        self.findings.as_slice()
    }

    /// The findings that belong under one view.
    pub fn findings_for(&self, view: View) -> (r: Vec<&Finding>)
        ensures
            r@.len() == findings_under(self.spec_findings(), view).len(),
            forall|i: int| 0 <= i < r@.len() ==> *(#[trigger] r@[i]) == findings_under(self.spec_findings(), view)[i],
    {
        let mut r: Vec<&Finding> = Vec::new();
        let mut i: usize = 0;
        while i < self.findings.len()
            invariant
                i <= self.findings@.len(),
                r@.len() == findings_under(self.findings@.take(i as int), view).len(),
                forall|j: int| 0 <= j < r@.len() ==> *(#[trigger] r@[j]) == findings_under(self.findings@.take(i as int), view)[j],
            decreases self.findings@.len() - i,
        {
            assert(self.findings@.take(i + 1).drop_last() =~= self.findings@.take(i as int));
            if view_for_kind(&self.findings[i].kind) == Some(view) {
                r.push(&self.findings[i]);
            }
            i = i + 1;
        }
        assert(self.findings@.take(self.findings@.len() as int) =~= self.findings@);
        r
    }

    /// Select a finding by id. Refuses an id no finding has.
    pub fn select_finding(&mut self, id: &str) -> (r: bool)
        ensures
            r == has_finding(old(self).spec_findings(), id@),
            r ==> (final(self).spec_selected_finding() matches Some(s) && s@ == id@),
            !r ==> final(self).spec_selected_finding() == old(self).spec_selected_finding(),
            final(self).spec_targets() == old(self).spec_targets(),
            final(self).spec_selected_target() == old(self).spec_selected_target(),
            final(self).spec_view() == old(self).spec_view(),
            final(self).spec_findings() == old(self).spec_findings(),
            final(self).spec_runs() == old(self).spec_runs(),
            final(self).spec_probes() == old(self).spec_probes(),
    {
        proof { use_type_invariant(&*self); }
        if find_finding(&self.findings, id).is_none() {
            return false;
        }
        self.selected_finding = Some(crate::text::text_of(id));
        true
    }

    /// What the Inspector is showing. Always present as a panel; empty is a
    /// state it renders rather than a reason to hide.
    pub fn selected_finding(&self) -> (r: Option<&Finding>)
        ensures
            r == match self.spec_selected_finding() {
                Some(id) => if has_finding(self.spec_findings(), id@) {
                    Some(&self.spec_findings()[finding_index(self.spec_findings(), id@)])
                } else {
                    None
                },
                None => None,
            },
    {
        proof { use_type_invariant(self); }
        match &self.selected_finding {
            Some(id) => match find_finding(&self.findings, id.as_str()) {
                Some(i) => Some(&self.findings[i]),
                None => None,
            },
            None => None,
        }
    }

    // -- runs -------------------------------------------------------------

    /// Every run, in the order of their identifiers.
    pub fn runs(&self) -> (r: Vec<&RunProgress>)
        ensures
            r@.len() == self.spec_runs().len(),
            forall|i: int| 0 <= i < r@.len() ==> *(#[trigger] r@[i]) == self.spec_runs()[i],
            keys_ordered(self.spec_runs()),
    {
        proof { use_type_invariant(self); }
        let mut r: Vec<&RunProgress> = Vec::new();
        let mut i: usize = 0;
        while i < self.runs.len()
            invariant
                i <= self.runs@.len(),
                r@.len() == i,
                forall|j: int| 0 <= j < i ==> *(#[trigger] r@[j]) == self.runs@[j],
            decreases self.runs@.len() - i,
        {
            r.push(&self.runs[i]);
            i = i + 1;
        }
        r
    }

    pub fn run(&self, run: &RunId) -> (r: Option<&RunProgress>)
        ensures
            r is Some <==> self.has_run(run.0@),
            r matches Some(p) ==> *p == self.run_entry(run.0@),
    {
        proof { use_type_invariant(self); }
        get_keyed(&self.runs, run.0.as_str())
    }

    /// Whether any run is still going.
    pub fn is_busy(&self) -> (r: bool)
        ensures
            r <==> exists|i: int| 0 <= i < self.spec_runs().len() && (#[trigger] self.spec_runs()[i]).state is Running,
    {
        let mut i: usize = 0;
        while i < self.runs.len()
            invariant
                i <= self.runs@.len(),
                forall|j: int| 0 <= j < i ==> !((#[trigger] self.runs@[j]).state is Running),
            decreases self.runs@.len() - i,
        {
            if self.runs[i].is_running() {
                return true;
            }
            i = i + 1;
        }
        false
    }
}

/// Every family, in the order the project view lists them.
pub open spec fn family_order() -> Seq<TargetFamily> {
    seq![TargetFamily::Rust, TargetFamily::TypeScript, TargetFamily::CSharp]
}

/// The targets of one family, in order.
pub open spec fn targets_in(t: Seq<Target>, f: TargetFamily) -> Seq<Target>
    decreases t.len(),
{
    if t.len() == 0 {
        seq![]
    } else if t.last().family == f {
        targets_in(t.drop_last(), f).push(t.last())
    } else {
        targets_in(t.drop_last(), f)
    }
}

/// The families among `order` that have targets, in that order.
pub open spec fn families_present(t: Seq<Target>, order: Seq<TargetFamily>) -> Seq<TargetFamily>
    decreases order.len(),
{
    if order.len() == 0 {
        seq![]
    } else if targets_in(t, order.last()).len() > 0 {
        families_present(t, order.drop_last()).push(order.last())
    } else {
        families_present(t, order.drop_last())
    }
}

fn targets_of_family(targets: &Vec<Target>, family: TargetFamily) -> (r: Vec<&Target>)
    ensures
        r@.len() == targets_in(targets@, family).len(),
        forall|j: int| 0 <= j < r@.len() ==> *(#[trigger] r@[j]) == targets_in(targets@, family)[j],
{
    let mut r: Vec<&Target> = Vec::new();
    let mut i: usize = 0;
    while i < targets.len()
        invariant
            i <= targets@.len(),
            r@.len() == targets_in(targets@.take(i as int), family).len(),
            forall|j: int| 0 <= j < r@.len() ==> *(#[trigger] r@[j]) == targets_in(targets@.take(i as int), family)[j],
        decreases targets@.len() - i,
    {
        assert(targets@.take(i + 1).drop_last() =~= targets@.take(i as int));
        if targets[i].family == family {
            r.push(&targets[i]);
        }
        i = i + 1;
    }
    assert(targets@.take(targets@.len() as int) =~= targets@);
    r
}

/// A run as a non-starting event leaves it.
pub open spec fn stepped_run(p: RunProgress, e: EngineEvent) -> RunProgress {
    match e {
        EngineEvent::Progress { completed, message, .. } => RunProgress {
            completed: if p.completed >= completed { p.completed } else { completed },
            message,
            ..p
        },
        EngineEvent::Finished { summary, .. } => RunProgress {
            completed: match p.total {
                Some(t) => t,
                None => p.completed,
            },
            state: RunPhase::Finished { summary },
            ..p
        },
        EngineEvent::Cancelled { completed, .. } => RunProgress {
            completed: if p.completed >= completed { p.completed } else { completed },
            state: RunPhase::Cancelled { completed },
            ..p
        },
        EngineEvent::Failed { error, .. } => RunProgress { state: RunPhase::Failed { error }, ..p },
        _ => p,
    }
}

/// The runs of `new` are those of `old` with the run keyed `k` stepped by
/// `e`, where `old` has it, and are those of `old` otherwise.
pub open spec fn runs_stepped(old: AppState, e: EngineEvent, new: AppState, k: Seq<char>) -> bool {
    &&& forall|q: Seq<char>| #[trigger] new.has_run(q) <==> old.has_run(q)
    &&& forall|q: Seq<char>| q != k && old.has_run(q) ==> #[trigger] new.run_entry(q) == old.run_entry(q)
    &&& old.has_run(k) ==> new.run_entry(k) == stepped_run(old.run_entry(k), e)
}

/// What applying `e` to `old` gives: the relation [`AppState::apply`]
/// establishes between the state before and after.
pub open spec fn applied(old: AppState, e: EngineEvent, new: AppState) -> bool {
    &&& new.spec_targets() == old.spec_targets()
    &&& new.spec_selected_target() == old.spec_selected_target()
    &&& new.spec_view() == old.spec_view()
    &&& new.spec_probes() == old.spec_probes()
    &&& match e {
        EngineEvent::Started { run, description, total } => {
            &&& forall|q: Seq<char>| #[trigger] new.has_run(q) <==> (old.has_run(q) || q == run.0@)
            &&& forall|q: Seq<char>| q != run.0@ && old.has_run(q) ==> #[trigger] new.run_entry(q) == old.run_entry(q)
            &&& new.run_entry(run.0@).run == run
            &&& new.run_entry(run.0@).description == description
            &&& new.run_entry(run.0@).completed == 0
            &&& new.run_entry(run.0@).total == total
            &&& new.run_entry(run.0@).message@ == Seq::<char>::empty()
            &&& new.run_entry(run.0@).state == RunPhase::Running
            &&& new.spec_findings() == old.spec_findings()
            &&& new.spec_selected_finding() == old.spec_selected_finding()
        },
        EngineEvent::Finding { finding, .. } => {
            &&& new.spec_runs() == old.spec_runs()
            &&& if has_finding(old.spec_findings(), finding.id@) {
                &&& new.spec_findings() == old.spec_findings().update(
                    finding_index(old.spec_findings(), finding.id@),
                    *finding,
                )
                &&& new.spec_selected_finding() == old.spec_selected_finding()
            } else {
                &&& new.spec_findings() == old.spec_findings().push(*finding)
                &&& new.spec_selected_finding() == match old.spec_selected_finding() {
                    Some(id) => Some(id),
                    None => Some(finding.id),
                }
            }
        },
        _ => {
            &&& runs_stepped(old, e, new, event_run(e).0@)
            &&& new.spec_findings() == old.spec_findings()
            &&& new.spec_selected_finding() == old.spec_selected_finding()
        },
    }
}

impl AppState {
    // -- the event model --------------------------------------------------

    /// Apply one engine event.
    ///
    /// This is the whole of how the interface learns anything. Findings appear
    /// as they are discovered, and a cancelled run keeps everything it
    /// measured: both are properties of this function rather than promises
    /// made elsewhere.
    pub fn apply(&mut self, event: EngineEvent)
        ensures
            applied(*old(self), event, *final(self)),
    {
        proof { use_type_invariant(&*self); }
        let ghost e = event;
        match event {
            EngineEvent::Started { run, description, total } => {
                let progress = RunProgress {
                    run,
                    description,
                    completed: 0,
                    total,
                    message: String::new(),
                    state: RunPhase::Running,
                };
                let mut runs: Vec<RunProgress> = Vec::new();
                std::mem::swap(&mut runs, &mut self.runs);
                insert_keyed(&mut runs, progress);
                self.runs = runs;
            },
            EngineEvent::Finding { run: _, finding } => {
                let f = *finding;
                match find_finding(&self.findings, f.id.as_str()) {
                    Some(i) => {
                        let mut findings: Vec<Finding> = Vec::new();
                        std::mem::swap(&mut findings, &mut self.findings);
                        let ghost before = findings@;
                        findings.set(i, f);
                        proof {
                            assert forall|a: int, b: int| 0 <= a < b < findings@.len() implies
                                (#[trigger] findings@[a]).id@ != (#[trigger] findings@[b]).id@ by {
                                assert(before[a].id@ != before[b].id@);
                            }
                        }
                        self.findings = findings;
                    },
                    None => {
                        if self.selected_finding.is_none() {
                            self.selected_finding = Some(f.id.clone());
                        }
                        let mut findings: Vec<Finding> = Vec::new();
                        std::mem::swap(&mut findings, &mut self.findings);
                        let ghost before = findings@;
                        findings.push(f);
                        proof {
                            assert forall|a: int, b: int| 0 <= a < b < findings@.len() implies
                                (#[trigger] findings@[a]).id@ != (#[trigger] findings@[b]).id@ by {
                                if b == before.len() {
                                    assert(before[a] == findings@[a]);
                                    assert(!has_finding(before, f.id@));
                                } else {
                                    assert(before[a].id@ != before[b].id@);
                                }
                            }
                        }
                        self.findings = findings;
                    },
                }
            },
            EngineEvent::Progress { run, completed, message } => {
                let mut runs: Vec<RunProgress> = Vec::new();
                std::mem::swap(&mut runs, &mut self.runs);
                match remove_keyed(&mut runs, run.0.as_str()) {
                    Some(p) => {
                        let mut p = p;
                        if completed > p.completed {
                            p.completed = completed;
                        }
                        p.message = message;
                        insert_keyed(&mut runs, p);
                    },
                    None => {},
                }
                self.runs = runs;
            },
            EngineEvent::Finished { run, summary } => {
                let mut runs: Vec<RunProgress> = Vec::new();
                std::mem::swap(&mut runs, &mut self.runs);
                match remove_keyed(&mut runs, run.0.as_str()) {
                    Some(p) => {
                        let mut p = p;
                        if let Some(total) = p.total {
                            p.completed = total;
                        }
                        p.state = RunPhase::Finished { summary };
                        insert_keyed(&mut runs, p);
                    },
                    None => {},
                }
                self.runs = runs;
            },
            EngineEvent::Cancelled { run, completed } => {
                let mut runs: Vec<RunProgress> = Vec::new();
                std::mem::swap(&mut runs, &mut self.runs);
                match remove_keyed(&mut runs, run.0.as_str()) {
                    Some(p) => {
                        let mut p = p;
                        if completed > p.completed {
                            p.completed = completed;
                        }
                        p.state = RunPhase::Cancelled { completed };
                        insert_keyed(&mut runs, p);
                    },
                    None => {},
                }
                self.runs = runs;
            },
            EngineEvent::Failed { run, error } => {
                let mut runs: Vec<RunProgress> = Vec::new();
                std::mem::swap(&mut runs, &mut self.runs);
                match remove_keyed(&mut runs, run.0.as_str()) {
                    Some(p) => {
                        let mut p = p;
                        p.state = RunPhase::Failed { error };
                        insert_keyed(&mut runs, p);
                    },
                    None => {},
                }
                self.runs = runs;
            },
        }
    }
}

/// The group names in `p`, each once, in the order they first appear.
pub open spec fn group_order(p: Seq<Probe>) -> Seq<Seq<char>>
    decreases p.len(),
{
    if p.len() == 0 {
        seq![]
    } else if group_order(p.drop_last()).contains(p.last().group@) {
        group_order(p.drop_last())
    } else {
        group_order(p.drop_last()).push(p.last().group@)
    }
}

/// The probes in `p` filed under `group`, in order.
pub open spec fn probes_in(p: Seq<Probe>, group: Seq<char>) -> Seq<Probe>
    decreases p.len(),
{
    if p.len() == 0 {
        seq![]
    } else if p.last().group@ == group {
        probes_in(p.drop_last(), group).push(p.last())
    } else {
        probes_in(p.drop_last(), group)
    }
}

/// How many probes in `p` need attention.
pub open spec fn unmet_in(p: Seq<Probe>) -> nat
    decreases p.len(),
{
    if p.len() == 0 {
        0
    } else {
        unmet_in(p.drop_last()) + if p.last().status == ProbeStatus::Present { 0nat } else { 1nat }
    }
}

proof fn lemma_unmet_bound(p: Seq<Probe>)
    ensures
        unmet_in(p) <= p.len(),
    decreases p.len(),
{
    if p.len() > 0 {
        lemma_unmet_bound(p.drop_last());
    }
}

fn probes_filed_under<'a>(probes: &'a Vec<Probe>, group: &str) -> (r: Vec<&'a Probe>)
    ensures
        r@.len() == probes_in(probes@, group@).len(),
        forall|j: int| 0 <= j < r@.len() ==> *(#[trigger] r@[j]) == probes_in(probes@, group@)[j],
{
    let mut r: Vec<&Probe> = Vec::new();
    let mut i: usize = 0;
    while i < probes.len()
        invariant
            i <= probes@.len(),
            r@.len() == probes_in(probes@.take(i as int), group@).len(),
            forall|j: int| 0 <= j < r@.len() ==> *(#[trigger] r@[j]) == probes_in(probes@.take(i as int), group@)[j],
        decreases probes@.len() - i,
    {
        assert(probes@.take(i + 1).drop_last() =~= probes@.take(i as int));
        if text_eq(probes[i].group.as_str(), group) {
            r.push(&probes[i]);
        }
        i = i + 1;
    }
    assert(probes@.take(probes@.len() as int) =~= probes@);
    r
}

/// Whether `names` holds `name`.
fn holds_name(names: &Vec<&str>, name: &str) -> (r: bool)
    ensures
        r == names@.map_values(|n: &str| n@).contains(name@),
{
    let ghost views = names@.map_values(|n: &str| n@);
    let mut i: usize = 0;
    while i < names.len()
        invariant
            i <= names@.len(),
            views == names@.map_values(|n: &str| n@),
            forall|j: int| 0 <= j < i ==> views[j] != name@,
        decreases names@.len() - i,
    {
        if text_eq(names[i], name) {
            assert(views[i as int] == name@);
            return true;
        }
        i = i + 1;
    }
    false
}

impl AppState {
    // -- probes -----------------------------------------------------------

    pub fn set_probes(&mut self, probes: Vec<Probe>)
        ensures
            final(self).spec_probes() == probes@,
            final(self).spec_targets() == old(self).spec_targets(),
            final(self).spec_selected_target() == old(self).spec_selected_target(),
            final(self).spec_view() == old(self).spec_view(),
            final(self).spec_findings() == old(self).spec_findings(),
            final(self).spec_selected_finding() == old(self).spec_selected_finding(),
            final(self).spec_runs() == old(self).spec_runs(),
    {
        proof { use_type_invariant(&*self); }
        self.probes = probes;
    }

    pub fn probes(&self) -> (r: &[Probe])
        ensures
            r@ == self.spec_probes(),
    {
        self.probes.as_slice()
    }

    /// Probes grouped as the environment panel renders them: each group in the
    /// order it was first reported, with its probes in the order they were
    /// reported.
    pub fn probes_by_group(&self) -> (r: Vec<(&str, Vec<&Probe>)>)
        ensures
            r@.len() == group_order(self.spec_probes()).len(),
            forall|i: int| 0 <= i < r@.len() ==> {
                let g = group_order(self.spec_probes())[i];
                &&& (#[trigger] r@[i]).0@ == g
                &&& r@[i].1@.len() == probes_in(self.spec_probes(), g).len()
                &&& forall|j: int| 0 <= j < r@[i].1@.len() ==> *(#[trigger] r@[i].1@[j]) == probes_in(self.spec_probes(), g)[j]
            },
    {
        let mut names: Vec<&str> = Vec::new();
        let mut i: usize = 0;
        while i < self.probes.len()
            invariant
                i <= self.probes@.len(),
                names@.map_values(|n: &str| n@) == group_order(self.probes@.take(i as int)),
            decreases self.probes@.len() - i,
        {
            assert(self.probes@.take(i + 1).drop_last() =~= self.probes@.take(i as int));
            let group = self.probes[i].group.as_str();
            if !holds_name(&names, group) {
                let ghost before = names@;
                names.push(group);
                assert(names@.map_values(|n: &str| n@) =~= before.map_values(|n: &str| n@).push(group@));
            }
            i = i + 1;
        }
        assert(self.probes@.take(self.probes@.len() as int) =~= self.probes@);
        let ghost order = group_order(self.probes@);
        let mut r: Vec<(&str, Vec<&Probe>)> = Vec::new();
        let mut k: usize = 0;
        while k < names.len()
            invariant
                k <= names@.len(),
                names@.map_values(|n: &str| n@) == order,
                order == group_order(self.probes@),
                r@.len() == k,
                forall|i: int| 0 <= i < k ==> {
                    let g = order[i];
                    &&& (#[trigger] r@[i]).0@ == g
                    &&& r@[i].1@.len() == probes_in(self.probes@, g).len()
                    &&& forall|j: int| 0 <= j < r@[i].1@.len() ==> *(#[trigger] r@[i].1@[j]) == probes_in(self.probes@, g)[j]
                },
            decreases names@.len() - k,
        {
            let name = names[k];
            assert(order[k as int] == name@);
            let filed = probes_filed_under(&self.probes, name);
            r.push((name, filed));
            k = k + 1;
        }
        r
    }

    /// How many probes need attention. The badge on the Environment entry.
    pub fn unmet_probes(&self) -> (n: usize)
        ensures
            n == unmet_in(self.spec_probes()),
    {
        let mut n: usize = 0;
        let mut i: usize = 0;
        while i < self.probes.len()
            invariant
                i <= self.probes@.len(),
                n == unmet_in(self.probes@.take(i as int)),
            decreases self.probes@.len() - i,
        {
            assert(self.probes@.take(i + 1).drop_last() =~= self.probes@.take(i as int));
            proof { lemma_unmet_bound(self.probes@.take(i as int)); }
            if self.probes[i].needs_attention() {
                n = n + 1;
            }
            i = i + 1;
        }
        assert(self.probes@.take(self.probes@.len() as int) =~= self.probes@);
        n
    }
}

/// Progress never goes backwards: events from concurrent workers can arrive
/// out of order, and a progress report, a cancellation or a failure leaves
/// every run at least as far along as it was.
pub proof fn lemma_progress_never_goes_backwards(old: AppState, e: EngineEvent, new: AppState, k: Seq<char>)
    requires
        applied(old, e, new),
        e is Progress || e is Cancelled || e is Failed,
        old.has_run(k),
    ensures
        new.has_run(k),
        new.run_entry(k).completed >= old.run_entry(k).completed,
{
    assert(new.has_run(k));
}

/// A finished run whose total is known reads as complete, even if a progress
/// event was missed.
pub proof fn lemma_a_finished_run_is_complete(old: AppState, e: EngineEvent, new: AppState)
    requires
        applied(old, e, new),
        e is Finished,
        old.has_run(event_run(e).0@),
        old.run_entry(event_run(e).0@).total is Some,
    ensures
        new.run_entry(event_run(e).0@).completed == old.run_entry(event_run(e).0@).total->0,
        new.run_entry(event_run(e).0@).state is Finished,
{
}

/// No event discards a finding: every finding held before an event is held
/// after it, under the same identifier, and the count never falls.
pub proof fn lemma_findings_are_kept(old: AppState, e: EngineEvent, new: AppState, i: int)
    requires
        applied(old, e, new),
        0 <= i < old.spec_findings().len(),
    ensures
        has_finding(new.spec_findings(), old.spec_findings()[i].id@),
        new.spec_findings().len() >= old.spec_findings().len(),
{
    let f = old.spec_findings();
    let id = f[i].id@;
    match e {
        EngineEvent::Finding { finding, .. } => {
            if has_finding(f, finding.id@) {
                let j = finding_index(f, finding.id@);
                if j == i {
                    assert(new.spec_findings()[i].id@ == id);
                } else {
                    assert(new.spec_findings()[i] == f[i]);
                }
            } else {
                assert(new.spec_findings()[i] == f[i]);
            }
        },
        _ => {
            assert(new.spec_findings()[i] == f[i]);
        },
    }
}

/// A finding that arrives twice replaces the first rather than being listed
/// twice.
pub proof fn lemma_a_repeated_finding_replaces(old: AppState, e: EngineEvent, new: AppState)
    requires
        applied(old, e, new),
        e matches EngineEvent::Finding { finding, .. } && has_finding(old.spec_findings(), finding.id@),
    ensures
        new.spec_findings().len() == old.spec_findings().len(),
{
}

/// Events for a run that was never seen to start are ignored rather than
/// invented: they change nothing.
pub proof fn lemma_unknown_runs_are_ignored(old: AppState, e: EngineEvent, new: AppState, q: Seq<char>)
    requires
        applied(old, e, new),
        !(e is Started),
        !(e is Finding),
        !old.has_run(event_run(e).0@),
    ensures
        new.has_run(q) == old.has_run(q),
        old.has_run(q) ==> new.run_entry(q) == old.run_entry(q),
        new.spec_findings() == old.spec_findings(),
        new.spec_selected_finding() == old.spec_selected_finding(),
{
    assert(new.has_run(q) == old.has_run(q));
}

/// Cancelling keeps everything measured: the findings are untouched, and the
/// run reads as cancelled rather than failed.
pub proof fn lemma_cancelling_keeps_findings(old: AppState, e: EngineEvent, new: AppState)
    requires
        applied(old, e, new),
        e is Cancelled,
        old.has_run(event_run(e).0@),
    ensures
        new.spec_findings() == old.spec_findings(),
        new.run_entry(event_run(e).0@).state == (RunPhase::Cancelled { completed: e->Cancelled_completed }),
{
}

} // verus!
