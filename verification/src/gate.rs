//! What a candidate is checked for, what each check concluded, and how a
//! rejection is stated.
//!
//! The interface renders these words and the session artifact carries them;
//! the harness that runs the gates lives elsewhere.

use crate::evidence::EvidenceId;
use crate::text::{join, join_strings, push_text, text_of};
use vstd::prelude::*;

verus! {

/// The five gates. Ordered cheapest-first: a candidate that does not build is
/// not worth timing.
#[derive(Debug, Clone, Copy, PartialEq, Eq, PartialOrd, Ord, Hash, Structural)]
pub enum Gate {
    /// The build succeeds, warnings diffed against the baseline. Always.
    Builds,
    /// The suite passes, using the user's command where declared. Always.
    TestsPass,
    /// Size measured and recorded, whatever the objective was. Always.
    ///
    /// The pass condition is deliberately "we know what happened to size",
    /// not "size did not increase": a candidate chosen for runtime is allowed
    /// to cost bytes, but it is never allowed to cost them unnoticed.
    SizeNotWorse,
    /// A statistically significant win, or no significant regression, against
    /// the measured noise floor. Only where a benchmark is declared.
    BenchmarkNotWorse,
    /// Sanitizers clean over the reachable portion. Only when unsafe is
    /// touched.
    MiriClean,
}

pub open spec fn gate_label(g: Gate) -> Seq<char> {
    match g {
        Gate::Builds => "Builds"@,
        Gate::TestsPass => "TestsPass"@,
        Gate::SizeNotWorse => "SizeNotWorse"@,
        Gate::BenchmarkNotWorse => "BenchmarkNotWorse"@,
        Gate::MiriClean => "MiriClean"@,
    }
}

pub open spec fn gate_describes(g: Gate) -> Seq<char> {
    match g {
        Gate::Builds => "the build succeeds and adds no warnings"@,
        Gate::TestsPass => "the test suite passes"@,
        Gate::SizeNotWorse => "the size change is measured and recorded"@,
        Gate::BenchmarkNotWorse => "the benchmark does not significantly regress"@,
        Gate::MiriClean => "sanitizers are clean over the reachable code"@,
    }
}

impl Gate {
    /// Every gate, cheapest first.
    pub const ALL: [Gate; 5] = [
        Gate::Builds,
        Gate::TestsPass,
        Gate::SizeNotWorse,
        Gate::BenchmarkNotWorse,
        Gate::MiriClean,
    ];

    pub fn label(self) -> (s: &'static str)
        ensures
            s@ == gate_label(self),
    {
        match self {
            Gate::Builds => "Builds",
            Gate::TestsPass => "TestsPass",
            Gate::SizeNotWorse => "SizeNotWorse",
            Gate::BenchmarkNotWorse => "BenchmarkNotWorse",
            Gate::MiriClean => "MiriClean",
        }
    }

    /// What is checked, in the words of the tally.
    pub fn describes(self) -> (s: &'static str)
        ensures
            s@ == gate_describes(self),
    {
        match self {
            Gate::Builds => "the build succeeds and adds no warnings",
            Gate::TestsPass => "the test suite passes",
            Gate::SizeNotWorse => "the size change is measured and recorded",
            Gate::BenchmarkNotWorse => "the benchmark does not significantly regress",
            Gate::MiriClean => "sanitizers are clean over the reachable code",
        }
    }

    /// The name, as text.
    pub fn to_string(self) -> (s: String)
        ensures
            s@ == gate_label(self),
    {
        text_of(self.label())
    }
}

/// What a gate concluded.
#[derive(Debug, PartialEq, Eq)]
pub enum GateResult {
    Passed,
    /// The candidate is rejected, and this gate is the reason.
    Failed,
    /// It did not apply. The reason is stated, so a check that never ran is
    /// never mistaken for a passing one.
    Skipped { reason: String },
    /// It ran and could not tell: a difference inside the noise floor.
    /// Never rendered as a pass.
    Inconclusive { reason: String },
}

pub open spec fn result_label(r: GateResult) -> Seq<char> {
    match r {
        GateResult::Passed => "Passed"@,
        GateResult::Failed => "Failed"@,
        GateResult::Skipped { .. } => "Skipped"@,
        GateResult::Inconclusive { .. } => "Inconclusive"@,
    }
}

impl Clone for GateResult {
    fn clone(&self) -> (r: Self)
        ensures
            r == *self,
    {
        match self {
            GateResult::Passed => GateResult::Passed,
            GateResult::Failed => GateResult::Failed,
            GateResult::Skipped { reason } => GateResult::Skipped { reason: reason.clone() },
            GateResult::Inconclusive { reason } => GateResult::Inconclusive { reason: reason.clone() },
        }
    }
}

impl GateResult {
    pub fn is_failure(&self) -> (r: bool)
        ensures
            r == (*self is Failed),
    {
        match self {
            GateResult::Failed => true,
            _ => false,
        }
    }

    pub fn is_inconclusive(&self) -> (r: bool)
        ensures
            r == (*self is Inconclusive),
    {
        match self {
            GateResult::Inconclusive { .. } => true,
            _ => false,
        }
    }

    pub fn label(&self) -> (s: &'static str)
        ensures
            s@ == result_label(*self),
    {
        match self {
            GateResult::Passed => "Passed",
            GateResult::Failed => "Failed",
            GateResult::Skipped { .. } => "Skipped",
            GateResult::Inconclusive { .. } => "Inconclusive",
        }
    }
}

/// One gate's verdict, with the evidence behind it.
#[derive(Debug, PartialEq, Eq)]
pub struct GateOutcome {
    pub gate: Gate,
    pub result: GateResult,
    /// One line, in the words of the tally.
    pub detail: String,
    /// A caveat the interface must show alongside a pass, where the pass means
    /// less than it sounds. `MiriClean` over code with substantial foreign
    /// calls is the case this exists for.
    pub caveat: Option<String>,
    pub evidence: Vec<EvidenceId>,
}

/// Two outcomes alike in every field.
pub open spec fn same_outcome(a: GateOutcome, b: GateOutcome) -> bool {
    &&& a.gate == b.gate
    &&& a.result == b.result
    &&& a.detail == b.detail
    &&& a.caveat == b.caveat
    &&& a.evidence@ == b.evidence@
}

impl Clone for GateOutcome {
    fn clone(&self) -> (r: Self)
        ensures
            same_outcome(r, *self),
    {
        let evidence = self.evidence.clone();
        assert(evidence@ =~= self.evidence@);
        GateOutcome {
            gate: self.gate,
            result: self.result.clone(),
            detail: self.detail.clone(),
            caveat: crate::evidence::clone_text_option(&self.caveat),
            evidence,
        }
    }
}

impl GateOutcome {
    pub fn new(gate: Gate, result: GateResult, detail: String) -> (o: Self)
        ensures
            o.gate == gate,
            o.result == result,
            o.detail == detail,
            o.caveat is None,
            o.evidence@ == Seq::<EvidenceId>::empty(),
    {
        GateOutcome { gate, result, detail, caveat: None, evidence: Vec::new() }
    }

    /// A gate that did not apply, carrying the reason as its detail so an
    /// absent gate never reads as a passing one.
    pub fn skipped(gate: Gate, reason: String) -> (o: Self)
        ensures
            o.gate == gate,
            o.result == (GateResult::Skipped { reason }),
            o.detail == reason,
            o.caveat is None,
            o.evidence@ == Seq::<EvidenceId>::empty(),
    {
        let detail = reason.clone();
        GateOutcome::new(gate, GateResult::Skipped { reason }, detail)
    }

    pub fn citing(self, evidence: EvidenceId) -> (o: Self)
        ensures
            o.gate == self.gate,
            o.result == self.result,
            o.detail == self.detail,
            o.caveat == self.caveat,
            o.evidence@ == self.evidence@.push(evidence),
    {
        let mut o = self;
        o.evidence.push(evidence);
        o
    }

    pub fn with_caveat(self, caveat: String) -> (o: Self)
        ensures
            o.gate == self.gate,
            o.result == self.result,
            o.detail == self.detail,
            o.caveat == Some(caveat),
            o.evidence@ == self.evidence@,
    {
        let mut o = self;
        o.caveat = Some(caveat);
        o
    }
}

/// The first gate in `s` that failed.
pub open spec fn first_failure(s: Seq<GateOutcome>) -> Option<Gate>
    decreases s.len(),
{
    if s.len() == 0 {
        None
    } else {
        match first_failure(s.drop_last()) {
            Some(g) => Some(g),
            None => if s.last().result is Failed { Some(s.last().gate) } else { None },
        }
    }
}

/// The gates in `s` that ran and could not tell, in order.
pub open spec fn inconclusive_gates(s: Seq<GateOutcome>) -> Seq<Gate>
    decreases s.len(),
{
    if s.len() == 0 {
        seq![]
    } else if s.last().result is Inconclusive {
        inconclusive_gates(s.drop_last()).push(s.last().gate)
    } else {
        inconclusive_gates(s.drop_last())
    }
}

/// The caveats attached to the outcomes in `s`, in order.
pub open spec fn caveats_of(s: Seq<GateOutcome>) -> Seq<Seq<char>>
    decreases s.len(),
{
    if s.len() == 0 {
        seq![]
    } else {
        match s.last().caveat {
            Some(c) => caveats_of(s.drop_last()).push(c@),
            None => caveats_of(s.drop_last()),
        }
    }
}

/// The one-line verdict on a list of outcomes.
pub open spec fn summary_of(s: Seq<GateOutcome>) -> Seq<char> {
    match first_failure(s) {
        Some(g) => "Rejected by "@ + gate_label(g),
        None => {
            let names = inconclusive_gates(s).map_values(|g: Gate| gate_label(g));
            if names.len() == 0 {
                "All gates passed"@
            } else {
                "Passed, with "@ + join(names, " and "@) + " inconclusive"@
            }
        },
    }
}

/// A failure anywhere in `s` is found by [`first_failure`], and only then.
pub proof fn lemma_first_failure(s: Seq<GateOutcome>)
    ensures
        first_failure(s) is None <==> forall|i: int| 0 <= i < s.len() ==> !(#[trigger] s[i].result is Failed),
        first_failure(s) matches Some(g) ==> exists|i: int|
            0 <= i < s.len() && #[trigger] s[i].gate == g && s[i].result is Failed
            && forall|j: int| 0 <= j < i ==> !(#[trigger] s[j].result is Failed),
    decreases s.len(),
{
    if s.len() > 0 {
        let p = s.drop_last();
        lemma_first_failure(p);
        assert forall|i: int| 0 <= i < p.len() implies p[i] == s[i] by {}
        if first_failure(p) is None && s.last().result is Failed {
            let k = s.len() - 1;
            assert(s[k].gate == s.last().gate);
            assert(forall|j: int| 0 <= j < k ==> !(#[trigger] s[j].result is Failed)) by {
                assert forall|j: int| 0 <= j < k implies !(#[trigger] s[j].result is Failed) by {
                    assert(p[j] == s[j]);
                }
            }
        }
        if first_failure(p) is Some {
            let g = first_failure(p)->0;
            let i = choose|i: int| 0 <= i < p.len() && #[trigger] p[i].gate == g && p[i].result is Failed
                && forall|j: int| 0 <= j < i ==> !(#[trigger] p[j].result is Failed);
            assert(s[i].gate == g && s[i].result is Failed);
            assert forall|j: int| 0 <= j < i implies !(#[trigger] s[j].result is Failed) by {
                assert(p[j] == s[j]);
            }
        }
        if first_failure(s) is None {
            assert forall|i: int| 0 <= i < s.len() implies !(#[trigger] s[i].result is Failed) by {
                if i < p.len() {
                    assert(p[i] == s[i]);
                }
            }
        }
    }
}

/// Every gate's verdict on one candidate.
#[derive(Debug, PartialEq, Eq)]
pub struct VerificationReport {
    /// The candidate this is about: a configuration name, or a proposal id.
    pub candidate: String,
    pub outcomes: Vec<GateOutcome>,
}

impl Clone for VerificationReport {
    fn clone(&self) -> (r: Self)
        ensures
            r.candidate == self.candidate,
            r.outcomes@.len() == self.outcomes@.len(),
            forall|i: int| 0 <= i < r.outcomes@.len() ==> same_outcome(#[trigger] r.outcomes@[i], self.outcomes@[i]),
    {
        let mut outcomes: Vec<GateOutcome> = Vec::new();
        let mut i: usize = 0;
        while i < self.outcomes.len()
            invariant
                i <= self.outcomes@.len(),
                outcomes@.len() == i,
                forall|j: int| 0 <= j < i ==> same_outcome(#[trigger] outcomes@[j], self.outcomes@[j]),
            decreases self.outcomes@.len() - i,
        {
            outcomes.push(self.outcomes[i].clone());
            i = i + 1;
        }
        VerificationReport { candidate: self.candidate.clone(), outcomes }
    }
}

impl VerificationReport {
    /// The first gate that failed, if any. This is the name the interface puts
    /// on a rejected candidate: "rejected: TestsPass", never just "rejected".
    pub fn rejected_by(&self) -> (r: Option<Gate>)
        ensures
            r == first_failure(self.outcomes@),
    {
        let mut found: Option<Gate> = None;
        let mut i: usize = 0;
        while i < self.outcomes.len()
            invariant
                i <= self.outcomes@.len(),
                found == first_failure(self.outcomes@.take(i as int)),
            decreases self.outcomes@.len() - i,
        {
            assert(self.outcomes@.take(i + 1).drop_last() =~= self.outcomes@.take(i as int));
            if found.is_none() && self.outcomes[i].result.is_failure() {
                found = Some(self.outcomes[i].gate);
            }
            i = i + 1;
        }
        assert(self.outcomes@.take(self.outcomes@.len() as int) =~= self.outcomes@);
        found
    }

    /// Whether no gate failed.
    pub fn passed(&self) -> (r: bool)
        ensures
            r == (first_failure(self.outcomes@) is None),
            r <==> forall|i: int| 0 <= i < self.outcomes@.len() ==> !(#[trigger] self.outcomes@[i].result is Failed),
    {
        proof { lemma_first_failure(self.outcomes@); }
        self.rejected_by().is_none()
    }

    /// The gates that ran and could not tell. Shown beside a pass, because a
    /// candidate that passed only because nothing could be measured is a
    /// different thing from one that passed on measurements.
    pub fn inconclusive(&self) -> (r: Vec<Gate>)
        ensures
            r@ == inconclusive_gates(self.outcomes@),
    {
        let mut r: Vec<Gate> = Vec::new();
        let mut i: usize = 0;
        while i < self.outcomes.len()
            invariant
                i <= self.outcomes@.len(),
                r@ == inconclusive_gates(self.outcomes@.take(i as int)),
            decreases self.outcomes@.len() - i,
        {
            assert(self.outcomes@.take(i + 1).drop_last() =~= self.outcomes@.take(i as int));
            if self.outcomes[i].result.is_inconclusive() {
                r.push(self.outcomes[i].gate);
            }
            i = i + 1;
        }
        assert(self.outcomes@.take(self.outcomes@.len() as int) =~= self.outcomes@);
        r
    }

    /// Every caveat attached to a gate, so the interface can state the
    /// sanitizer gap rather than implying a guarantee it does not have.
    pub fn caveats(&self) -> (r: Vec<&str>)
        ensures
            r@.map_values(|c: &str| c@) == caveats_of(self.outcomes@),
    {
        let mut r: Vec<&str> = Vec::new();
        let mut i: usize = 0;
        while i < self.outcomes.len()
            invariant
                i <= self.outcomes@.len(),
                r@.map_values(|c: &str| c@) == caveats_of(self.outcomes@.take(i as int)),
            decreases self.outcomes@.len() - i,
        {
            assert(self.outcomes@.take(i + 1).drop_last() =~= self.outcomes@.take(i as int));
            match &self.outcomes[i].caveat {
                Some(c) => {
                    let ghost before = r@;
                    r.push(c.as_str());
                    assert(r@.map_values(|c: &str| c@) =~= before.map_values(|c: &str| c@).push(c@));
                },
                None => {},
            }
            i = i + 1;
        }
        assert(self.outcomes@.take(self.outcomes@.len() as int) =~= self.outcomes@);
        r
    }

    /// One line saying what happened, and what rejected the candidate if anything did.
    pub fn summary(&self) -> (s: String)
        ensures
            s@ == summary_of(self.outcomes@),
    {
        match self.rejected_by() {
            Some(gate) => {
                let mut s = text_of("Rejected by ");
                push_text(&mut s, gate.label());
                proof { reveal_strlit("Rejected by "); }
                s
            },
            None => {
                let inconclusive = self.inconclusive();
                if inconclusive.len() == 0 {
                    text_of("All gates passed")
                } else {
                    let mut names: Vec<String> = Vec::new();
                    let mut i: usize = 0;
                    while i < inconclusive.len()
                        invariant
                            i <= inconclusive@.len(),
                            names@.map_values(|p: String| p@)
                                =~= inconclusive@.take(i as int).map_values(|g: Gate| gate_label(g)),
                        decreases inconclusive@.len() - i,
                    {
                        let ghost before = names@;
                        names.push(text_of(inconclusive[i].label()));
                        assert(inconclusive@.take(i + 1) =~= inconclusive@.take(i as int).push(inconclusive@[i as int]));
                        assert(names@.map_values(|p: String| p@)
                            =~= before.map_values(|p: String| p@).push(gate_label(inconclusive@[i as int])));
                        i = i + 1;
                    }
                    assert(inconclusive@.take(inconclusive@.len() as int) =~= inconclusive@);
                    let mut s = text_of("Passed, with ");
                    let joined = join_strings(&names, " and ");
                    push_text(&mut s, joined.as_str());
                    push_text(&mut s, " inconclusive");
                    s
                }
            },
        }
    }

    /// The outcome of `gate`, if it ran.
    pub fn outcome(&self, gate: Gate) -> (r: Option<&GateOutcome>)
        ensures
            r is None <==> forall|i: int| 0 <= i < self.outcomes@.len() ==> (#[trigger] self.outcomes@[i]).gate != gate,
            r matches Some(o) ==> exists|i: int|
                0 <= i < self.outcomes@.len() && #[trigger] self.outcomes@[i] == *o && o.gate == gate
                && forall|j: int| 0 <= j < i ==> (#[trigger] self.outcomes@[j]).gate != gate,
    {
        let mut i: usize = 0;
        while i < self.outcomes.len()
            invariant
                i <= self.outcomes@.len(),
                forall|j: int| 0 <= j < i ==> (#[trigger] self.outcomes@[j]).gate != gate,
            decreases self.outcomes@.len() - i,
        {
            if self.outcomes[i].gate == gate {
                return Some(&self.outcomes[i]);
            }
            i = i + 1;
        }
        None
    }
}

} // verus!
