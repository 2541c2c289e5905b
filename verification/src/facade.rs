//! The seam between the interface and everything that computes.
//!
//! The interface reaches analyses through an engine and never calls one
//! directly. What crosses the seam is here: probes of the environment,
//! measurements as the Profile Lab renders them, proposals, and requests.

use crate::event::RunId;
use crate::gate::{first_failure, Gate, VerificationReport};
use vstd::prelude::*;

verus! {

/// One probe of the environment, and the exact command that fixes it.
///
/// Never assume a capability that has not been confirmed, and when one is
/// missing, say what to type.
#[derive(Debug, PartialEq, Eq)]
pub struct Probe {
    /// The group the environment panel files this under.
    pub group: String,
    pub name: String,
    pub status: ProbeStatus,
    /// What was found, in one line: a version, a path, or what was missing.
    pub detail: String,
    /// The command that fixes it. `None` when nothing is wrong.
    pub remedy: Option<String>,
    /// The label for the button beside the fix, where the fix can be applied
    /// from inside the application.
    pub action: Option<String>,
}

impl Clone for Probe {
    fn clone(&self) -> (r: Self)
        ensures
            r == *self,
    {
        Probe {
            group: self.group.clone(),
            name: self.name.clone(),
            status: self.status,
            detail: self.detail.clone(),
            remedy: crate::evidence::clone_text_option(&self.remedy),
            action: crate::evidence::clone_text_option(&self.action),
        }
    }
}

impl Probe {
    pub fn present(group: String, name: String, detail: String) -> (p: Self)
        ensures
            p == (Probe { group, name, status: ProbeStatus::Present, detail, remedy: None, action: None }),
    {
        Probe { group, name, status: ProbeStatus::Present, detail, remedy: None, action: None }
    }

    /// Something is wrong, and this is the command that fixes it.
    ///
    /// The remedy is not optional here: a probe that reports a problem without
    /// saying what to type has told the user there is a problem and left them
    /// with it.
    pub fn needs(group: String, name: String, status: ProbeStatus, detail: String, remedy: String) -> (p: Self)
        ensures
            p == (Probe { group, name, status, detail, remedy: Some(remedy), action: None }),
    {
        Probe { group, name, status, detail, remedy: Some(remedy), action: None }
    }

    /// Attach the label for the in-app button.
    pub fn with_action(self, action: String) -> (p: Self)
        ensures
            p == (Probe { action: Some(action), ..self }),
    {
        let mut p = self;
        p.action = Some(action);
        p
    }

    pub fn needs_attention(&self) -> (r: bool)
        ensures
            r == (self.status != ProbeStatus::Present),
    {
        match self.status {
            ProbeStatus::Present => false,
            _ => true,
        }
    }
}

#[derive(Debug, Clone, Copy, PartialEq, Eq, Structural)]
pub enum ProbeStatus {
    /// Present and usable.
    Present,
    /// Absent, and something depends on it. The remedy is populated.
    Missing,
    /// Present but not usable as-is: wrong version, or a kernel setting in the
    /// way. The remedy is populated.
    Unusable,
}

pub open spec fn status_label(s: ProbeStatus) -> Seq<char> {
    match s {
        ProbeStatus::Present => "Present"@,
        ProbeStatus::Missing => "Missing"@,
        ProbeStatus::Unusable => "Unusable"@,
    }
}

impl ProbeStatus {
    pub fn label(self) -> (s: &'static str)
        ensures
            s@ == status_label(self),
    {
        match self {
            ProbeStatus::Present => "Present",
            ProbeStatus::Missing => "Missing",
            ProbeStatus::Unusable => "Unusable",
        }
    }
}

/// One configuration, measured, as the Profile Lab renders it.
///
/// Everything here is a measurement or a conclusion drawn from one; nothing
/// is presentation.
#[derive(Debug, PartialEq, Eq)]
pub struct Measurement {
    /// The configuration's stable name, and the row's identity.
    pub id: String,
    /// The flags, as a user would read them.
    pub flags: String,
    /// The axes this configuration set, for the selected-configuration panel.
    pub settings: Vec<(String, String)>,
    /// `None` when the candidate did not build.
    pub size_bytes: Option<u64>,
    /// Against the baseline. Negative is smaller.
    pub size_delta: Option<i64>,
    /// `None` when no benchmark is declared, which is different from fast.
    pub runtime_nanos: Option<u64>,
    /// `None` when the sweep built concurrently and wall-clock time therefore
    /// measured the machine's load rather than the configuration.
    pub build_time_nanos: Option<u64>,
    pub gates: VerificationReport,
    /// Derived by Pareto dominance, against the machine's noise floor. Never
    /// flagged by whatever produced the point.
    pub on_frontier: bool,
    pub built: bool,
}

/// Whether a measured configuration passed every gate.
pub open spec fn measurement_passed(m: Measurement) -> bool {
    first_failure(m.gates.outcomes@) is None
}

impl Measurement {
    pub fn passed(&self) -> (r: bool)
        ensures
            r == measurement_passed(*self),
    {
        self.gates.passed()
    }

    /// What rejected it, for the table's Gates column.
    pub fn rejected_by(&self) -> (r: Option<Gate>)
        ensures
            r == first_failure(self.gates.outcomes@),
    {
        self.gates.rejected_by()
    }
}

/// How many of `s` some gate rejected.
pub open spec fn rejected_in(s: Seq<Measurement>) -> nat
    decreases s.len(),
{
    if s.len() == 0 {
        0
    } else {
        rejected_in(s.drop_last()) + if measurement_passed(s.last()) { 0nat } else { 1nat }
    }
}

proof fn lemma_rejected_in_bound(s: Seq<Measurement>)
    ensures
        rejected_in(s) <= s.len(),
    decreases s.len(),
{
    if s.len() > 0 {
        lemma_rejected_in_bound(s.drop_last());
    }
}

/// How many measured configurations some gate rejected.
pub fn rejected_count(measured: &Vec<Measurement>) -> (n: usize)
    ensures
        n == rejected_in(measured@),
{
    let mut n: usize = 0;
    let mut i: usize = 0;
    while i < measured.len()
        invariant
            i <= measured@.len(),
            n == rejected_in(measured@.take(i as int)),
        decreases measured@.len() - i,
    {
        assert(measured@.take(i + 1).drop_last() =~= measured@.take(i as int));
        proof { lemma_rejected_in_bound(measured@.take(i as int)); }
        if !measured[i].passed() {
            n = n + 1;
        }
        i = i + 1;
    }
    assert(measured@.take(measured@.len() as int) =~= measured@);
    n
}

/// The measured configurations on the frontier, in order.
pub open spec fn frontier_of(s: Seq<Measurement>) -> Seq<Measurement>
    decreases s.len(),
{
    if s.len() == 0 {
        seq![]
    } else if s.last().on_frontier {
        frontier_of(s.drop_last()).push(s.last())
    } else {
        frontier_of(s.drop_last())
    }
}

/// The measured configurations on the frontier, in the order they were
/// measured.
pub fn frontier(measured: &Vec<Measurement>) -> (r: Vec<&Measurement>)
    ensures
        r@.len() == frontier_of(measured@).len(),
        forall|i: int| 0 <= i < r@.len() ==> *(#[trigger] r@[i]) == frontier_of(measured@)[i],
{
    let mut r: Vec<&Measurement> = Vec::new();
    let mut i: usize = 0;
    while i < measured.len()
        invariant
            i <= measured@.len(),
            r@.len() == frontier_of(measured@.take(i as int)).len(),
            forall|j: int| 0 <= j < r@.len() ==> *(#[trigger] r@[j]) == frontier_of(measured@.take(i as int))[j],
        decreases measured@.len() - i,
    {
        assert(measured@.take(i + 1).drop_last() =~= measured@.take(i as int));
        if measured[i].on_frontier {
            r.push(&measured[i]);
        }
        i = i + 1;
    }
    assert(measured@.take(measured@.len() as int) =~= measured@);
    r
}

/// Whether a measurement counts towards the best size: it built, passed every
/// gate, and has a size.
pub open spec fn size_candidate(m: Measurement) -> bool {
    m.built && measurement_passed(m) && m.size_bytes is Some
}

/// The smallest size among the candidates in `s`.
pub open spec fn smallest_size(s: Seq<Measurement>) -> Option<u64>
    decreases s.len(),
{
    if s.len() == 0 {
        None
    } else {
        let rest = smallest_size(s.drop_last());
        if size_candidate(s.last()) {
            let b = s.last().size_bytes->0;
            match rest {
                Some(r) => if b < r { Some(b) } else { Some(r) },
                None => Some(b),
            }
        } else {
            rest
        }
    }
}

/// The smallest artifact among the configurations that built and passed
/// every gate: the number a size reduction is stated with.
pub fn best_size(measured: &Vec<Measurement>) -> (r: Option<u64>)
    ensures
        r == smallest_size(measured@),
{
    let mut best: Option<u64> = None;
    let mut i: usize = 0;
    while i < measured.len()
        invariant
            i <= measured@.len(),
            best == smallest_size(measured@.take(i as int)),
        decreases measured@.len() - i,
    {
        assert(measured@.take(i + 1).drop_last() =~= measured@.take(i as int));
        let m = &measured[i];
        if m.built && m.passed() {
            if let Some(b) = m.size_bytes {
                best = match best {
                    Some(r) => if b < r { Some(b) } else { Some(r) },
                    None => Some(b),
                };
            }
        }
        i = i + 1;
    }
    assert(measured@.take(measured@.len() as int) =~= measured@);
    best
}

/// A change the user may apply, and everything they need to decide.
#[derive(Debug, PartialEq, Eq)]
pub struct Proposal {
    pub id: String,
    /// The finding this proposal acts on.
    pub finding: String,
    pub summary: String,
    /// The unified diff, exactly as it would be written.
    pub diff: String,
    /// The files it touches, so the apply dialog can state what it will write.
    pub writes: Vec<String>,
}

impl Clone for Proposal {
    fn clone(&self) -> (r: Self)
        ensures
            r.id == self.id,
            r.finding == self.finding,
            r.summary == self.summary,
            r.diff == self.diff,
            r.writes@ == self.writes@,
    {
        let writes = self.writes.clone();
        assert(writes@ =~= self.writes@);
        Proposal {
            id: self.id.clone(),
            finding: self.finding.clone(),
            summary: self.summary.clone(),
            diff: self.diff.clone(),
            writes,
        }
    }
}

/// A run the engine can be asked to start.
#[derive(Debug, PartialEq, Eq)]
pub enum Request {
    /// Sweep the configured matrix over the selected target.
    Sweep { target: String },
    /// Resume a sweep that was cancelled, skipping configurations already
    /// measured.
    ResumeSweep { run: RunId },
    /// Measure the machine's noise floor by timing one unchanged binary
    /// repeatedly. Runs before any runtime comparison, and its result is shown
    /// beside every timing number.
    NoiseFloor { target: String },
    /// Verify a proposal through the five gates without applying it.
    Verify { proposal: String },
    /// Write a verified proposal into the working tree. Requires the Tune
    /// tier.
    Apply { proposal: String },
}

} // verus!
