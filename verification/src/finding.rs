//! `Finding` is the whole product.
//!
//! Every analysis produces findings, every view renders them, and the exported
//! artifact is a list of them. A finding carries a kind, a location, an impact,
//! a confidence, a provenance and a non-empty evidence list, and the
//! constructor is the thing that makes "non-empty" and "actually issued" true
//! rather than merely intended.
//!
//! The words in [`Provenance`] and [`Confidence`] are fixed vocabulary.

use crate::error::Error;
use crate::evidence::{EvidenceId, EvidenceStore};
use crate::location::{is_nowhere, Location};
use vstd::prelude::*;

verus! {

/// How we came to believe a finding, and therefore how far it can be trusted.
#[derive(Debug, PartialEq, Eq)]
pub enum Provenance {
    /// A tool ran. Command, arguments and output digest are recorded.
    Measured,
    /// A named rule of ours concluded it from measured inputs.
    Derived { rule: String },
    /// Our own loop, which forces a hypothesis before every tool call.
    InferredNatively { model: String },
    /// An external agent's claim, validated at the airlock. A weaker
    /// guarantee, and the interface labels it as one.
    InferredExternally { agent: String },
}

impl Clone for Provenance {
    fn clone(&self) -> (r: Self)
        ensures
            r == *self,
    {
        match self {
            Provenance::Measured => Provenance::Measured,
            Provenance::Derived { rule } => Provenance::Derived { rule: rule.clone() },
            Provenance::InferredNatively { model } => Provenance::InferredNatively { model: model.clone() },
            Provenance::InferredExternally { agent } => Provenance::InferredExternally { agent: agent.clone() },
        }
    }
}

/// How sure we are. Four words, ordered, never paraphrased.
#[derive(Debug, Clone, Copy, PartialEq, Eq, PartialOrd, Ord, Structural)]
pub enum Confidence {
    Speculative,
    Probable,
    High,
    Certain,
}

pub open spec fn confidence_rank(c: Confidence) -> nat {
    match c {
        Confidence::Speculative => 0,
        Confidence::Probable => 1,
        Confidence::High => 2,
        Confidence::Certain => 3,
    }
}

/// The lower of two confidences.
pub open spec fn confidence_min(a: Confidence, b: Confidence) -> Confidence {
    if confidence_rank(a) <= confidence_rank(b) { a } else { b }
}

pub open spec fn confidence_label(c: Confidence) -> Seq<char> {
    match c {
        Confidence::Certain => "Certain"@,
        Confidence::High => "High"@,
        Confidence::Probable => "Probable"@,
        Confidence::Speculative => "Speculative"@,
    }
}

/// The highest confidence a provenance may carry.
pub open spec fn ceiling_of(p: Provenance) -> Confidence {
    match p {
        Provenance::Measured => Confidence::Certain,
        Provenance::Derived { .. } => Confidence::High,
        _ => Confidence::Probable,
    }
}

pub open spec fn provenance_label(p: Provenance) -> Seq<char> {
    match p {
        Provenance::Measured => "Measured"@,
        Provenance::Derived { .. } => "Derived"@,
        Provenance::InferredNatively { .. } => "Inferred, natively"@,
        Provenance::InferredExternally { .. } => "Inferred, externally"@,
    }
}

/// The badge glyph: a filled circle for measured, a diamond in a diamond for
/// derived, a filled diamond for inferred.
pub open spec fn provenance_glyph(p: Provenance) -> char {
    match p {
        Provenance::Measured => '\u{25CF}',
        Provenance::Derived { .. } => '\u{25C8}',
        _ => '\u{25C6}',
    }
}

impl Provenance {
    /// The badge glyph, matching the design.
    pub fn glyph(&self) -> (c: char)
        ensures
            c == provenance_glyph(*self),
    {
        match self {
            Provenance::Measured => '\u{25CF}',
            Provenance::Derived { .. } => '\u{25C8}',
            Provenance::InferredNatively { .. } | Provenance::InferredExternally { .. } => '\u{25C6}',
        }
    }

    /// The label, in the fixed vocabulary.
    pub fn label(&self) -> (s: &'static str)
        ensures
            s@ == provenance_label(*self),
    {
        match self {
            Provenance::Measured => "Measured",
            Provenance::Derived { .. } => "Derived",
            Provenance::InferredNatively { .. } => "Inferred, natively",
            Provenance::InferredExternally { .. } => "Inferred, externally",
        }
    }

    /// The highest confidence this provenance may carry. A finding claiming
    /// more is clamped by [`Finding::new`] rather than rejected.
    pub fn ceiling(&self) -> (c: Confidence)
        ensures
            c == ceiling_of(*self),
    {
        match self {
            Provenance::Measured => Confidence::Certain,
            Provenance::Derived { .. } => Confidence::High,
            Provenance::InferredNatively { .. } | Provenance::InferredExternally { .. } => Confidence::Probable,
        }
    }

    /// Whether the claim entered from outside our own loop.
    pub fn is_external(&self) -> (r: bool)
        ensures
            r == (*self is InferredExternally),
    {
        match self {
            Provenance::InferredExternally { .. } => true,
            _ => false,
        }
    }
}

impl Confidence {
    pub fn rank(self) -> (r: u8)
        ensures
            r as nat == confidence_rank(self),
    {
        match self {
            Confidence::Speculative => 0,
            Confidence::Probable => 1,
            Confidence::High => 2,
            Confidence::Certain => 3,
        }
    }

    /// The lower of this confidence and `other`.
    pub fn min(self, other: Confidence) -> (c: Confidence)
        ensures
            c == confidence_min(self, other),
    {
        if self.rank() <= other.rank() { self } else { other }
    }

    pub fn label(self) -> (s: &'static str)
        ensures
            s@ == confidence_label(self),
    {
        match self {
            Confidence::Certain => "Certain",
            Confidence::High => "High",
            Confidence::Probable => "Probable",
            Confidence::Speculative => "Speculative",
        }
    }
}

/// What the finding is about. Open-ended by design: each phase adds kinds.
#[derive(Debug, PartialEq, Eq, Hash)]
#[non_exhaustive]
pub enum FindingKind {
    /// A build configuration measured during a sweep.
    Configuration,
    /// A configuration on the Pareto frontier over size, runtime and build time.
    FrontierPoint,
    /// A configuration that was measured and lost, kept visible because a near
    /// miss is informative.
    RejectedCandidate,
    /// A probe of the environment.
    EnvironmentProbe,
    /// Bytes attributed to a unit of the artifact.
    SizeAttribution,
    /// Generic instantiations that could be collapsed.
    Monomorphization,
    /// A recurring size driver: formatting machinery, panic strings, vtables.
    SizeDriver,
    /// A difference between two artifacts.
    Diff,
    /// Anything a later phase adds without a schema break.
    Other(String),
}

impl Clone for FindingKind {
    fn clone(&self) -> (r: Self)
        ensures
            r == *self,
    {
        match self {
            FindingKind::Configuration => FindingKind::Configuration,
            FindingKind::FrontierPoint => FindingKind::FrontierPoint,
            FindingKind::RejectedCandidate => FindingKind::RejectedCandidate,
            FindingKind::EnvironmentProbe => FindingKind::EnvironmentProbe,
            FindingKind::SizeAttribution => FindingKind::SizeAttribution,
            FindingKind::Monomorphization => FindingKind::Monomorphization,
            FindingKind::SizeDriver => FindingKind::SizeDriver,
            FindingKind::Diff => FindingKind::Diff,
            FindingKind::Other(name) => FindingKind::Other(name.clone()),
        }
    }
}

pub open spec fn kind_label(k: FindingKind) -> Seq<char> {
    match k {
        FindingKind::Configuration => "Configuration"@,
        FindingKind::FrontierPoint => "Frontier point"@,
        FindingKind::RejectedCandidate => "Rejected candidate"@,
        FindingKind::EnvironmentProbe => "Environment probe"@,
        FindingKind::SizeAttribution => "Size attribution"@,
        FindingKind::Monomorphization => "Monomorphization"@,
        FindingKind::SizeDriver => "Size driver"@,
        FindingKind::Diff => "Diff"@,
        FindingKind::Other(name) => name@,
    }
}

impl FindingKind {
    pub fn label(&self) -> (s: &str)
        ensures
            s@ == kind_label(*self),
    {
        match self {
            FindingKind::Configuration => "Configuration",
            FindingKind::FrontierPoint => "Frontier point",
            FindingKind::RejectedCandidate => "Rejected candidate",
            FindingKind::EnvironmentProbe => "Environment probe",
            FindingKind::SizeAttribution => "Size attribution",
            FindingKind::Monomorphization => "Monomorphization",
            FindingKind::SizeDriver => "Size driver",
            FindingKind::Diff => "Diff",
            FindingKind::Other(name) => name.as_str(),
        }
    }
}

/// What acting on the finding is worth, in the dimensions we measure.
///
/// Every field is a signed delta against the baseline, and negative is an
/// improvement. All are optional, because a finding that did not measure a
/// dimension must not imply it measured zero.
#[derive(Debug, Clone, Copy, PartialEq, Eq, Structural)]
pub struct Impact {
    pub size_bytes: Option<i64>,
    pub runtime_nanos: Option<i64>,
    pub build_time_nanos: Option<i64>,
    /// True when the measured difference fell inside the machine's noise floor.
    pub within_noise_floor: bool,
}

/// Whether an impact is an improvement worth colouring as one.
pub open spec fn impact_is_win(i: Impact) -> bool {
    !i.within_noise_floor && ((i.size_bytes matches Some(b) && b < 0) || (i.runtime_nanos matches Some(n) && n < 0))
}

impl Default for Impact {
    fn default() -> (i: Self)
        ensures
            i == Impact::none_spec(),
    {
        Impact::none()
    }
}

impl Impact {
    pub open spec fn none_spec() -> Impact {
        Impact { size_bytes: None, runtime_nanos: None, build_time_nanos: None, within_noise_floor: false }
    }

    pub fn none() -> (i: Self)
        ensures
            i == Impact::none_spec(),
    {
        Impact { size_bytes: None, runtime_nanos: None, build_time_nanos: None, within_noise_floor: false }
    }

    pub fn size(bytes: i64) -> (i: Self)
        ensures
            i == (Impact { size_bytes: Some(bytes), ..Impact::none_spec() }),
    {
        Impact { size_bytes: Some(bytes), ..Impact::none() }
    }

    pub fn with_runtime(self, nanos: i64) -> (i: Self)
        ensures
            i == (Impact { runtime_nanos: Some(nanos), ..self }),
    {
        Impact { runtime_nanos: Some(nanos), ..self }
    }

    pub fn with_build_time(self, nanos: i64) -> (i: Self)
        ensures
            i == (Impact { build_time_nanos: Some(nanos), ..self }),
    {
        Impact { build_time_nanos: Some(nanos), ..self }
    }

    pub fn inconclusive(self) -> (i: Self)
        ensures
            i == (Impact { within_noise_floor: true, ..self }),
    {
        Impact { within_noise_floor: true, ..self }
    }

    /// Whether this is an improvement worth colouring as one. A result inside
    /// the noise floor is not, whatever its sign.
    pub fn is_a_win(&self) -> (r: bool)
        ensures
            r == impact_is_win(*self),
    {
        if self.within_noise_floor {
            return false;
        }
        let size_win = match self.size_bytes {
            Some(b) => b < 0,
            None => false,
        };
        let runtime_win = match self.runtime_nanos {
            Some(n) => n < 0,
            None => false,
        };
        size_win || runtime_win
    }
}

/// A single claim about the artifact, and the grounds for it.
#[derive(Debug, PartialEq, Eq)]
pub struct Finding {
    pub id: String,
    pub kind: FindingKind,
    /// One line, as it appears in the Inspector header.
    pub title: String,
    /// The hypothesis, in full.
    pub detail: String,
    pub location: Location,
    pub impact: Impact,
    pub confidence: Confidence,
    pub provenance: Provenance,
    /// Never empty, and every identifier issued by the store it was built
    /// against. Enforced by [`Finding::new`].
    pub evidence: Vec<EvidenceId>,
}

/// Two findings alike in every field.
pub open spec fn same_finding(a: Finding, b: Finding) -> bool {
    &&& a.id == b.id
    &&& a.kind == b.kind
    &&& a.title == b.title
    &&& a.detail == b.detail
    &&& a.location == b.location
    &&& a.impact == b.impact
    &&& a.confidence == b.confidence
    &&& a.provenance == b.provenance
    &&& a.evidence@ == b.evidence@
}

pub fn clone_ids(v: &Vec<EvidenceId>) -> (r: Vec<EvidenceId>)
    ensures
        r@ == v@,
{
    let r = v.clone();
    assert(r@ =~= v@);
    r
}

impl Clone for Finding {
    fn clone(&self) -> (r: Self)
        ensures
            same_finding(r, *self),
    {
        Finding {
            id: self.id.clone(),
            kind: self.kind.clone(),
            title: self.title.clone(),
            detail: self.detail.clone(),
            location: self.location.clone(),
            impact: self.impact,
            confidence: self.confidence,
            provenance: self.provenance.clone(),
            evidence: clone_ids(&self.evidence),
        }
    }
}

/// The fields of a finding, before it has been checked.
///
/// Constructing one of these is free; turning it into a [`Finding`] is where
/// the grounding gate runs.
#[derive(Debug)]
pub struct FindingDraft {
    pub id: String,
    pub kind: FindingKind,
    pub title: String,
    pub detail: String,
    pub location: Location,
    pub impact: Impact,
    pub confidence: Confidence,
    pub provenance: Provenance,
    pub evidence: Vec<EvidenceId>,
}

impl FindingDraft {
    pub fn new(id: String, kind: FindingKind, title: String) -> (d: Self)
        ensures
            d.id == id,
            d.kind == kind,
            d.title == title,
            d.detail@.len() == 0,
            is_nowhere(d.location),
            d.impact == Impact::none_spec(),
            d.confidence == Confidence::Probable,
            d.provenance == Provenance::Measured,
            d.evidence@.len() == 0,
    {
        FindingDraft {
            id,
            kind,
            title,
            detail: String::new(),
            location: Location::nowhere(),
            impact: Impact::none(),
            confidence: Confidence::Probable,
            provenance: Provenance::Measured,
            evidence: Vec::new(),
        }
    }

    pub fn detail(self, detail: String) -> (d: Self)
        ensures
            d == (FindingDraft { detail, ..self }),
    {
        FindingDraft { detail, ..self }
    }

    pub fn at(self, location: Location) -> (d: Self)
        ensures
            d == (FindingDraft { location, ..self }),
    {
        FindingDraft { location, ..self }
    }

    pub fn impact(self, impact: Impact) -> (d: Self)
        ensures
            d == (FindingDraft { impact, ..self }),
    {
        FindingDraft { impact, ..self }
    }

    pub fn confidence(self, confidence: Confidence) -> (d: Self)
        ensures
            d == (FindingDraft { confidence, ..self }),
    {
        FindingDraft { confidence, ..self }
    }

    pub fn provenance(self, provenance: Provenance) -> (d: Self)
        ensures
            d == (FindingDraft { provenance, ..self }),
    {
        FindingDraft { provenance, ..self }
    }

    /// Cite every identifier in `evidence`, after those already cited.
    pub fn citing(self, evidence: Vec<EvidenceId>) -> (d: Self)
        ensures
            d.evidence@ == self.evidence@ + evidence@,
            d.id == self.id && d.kind == self.kind && d.title == self.title && d.detail == self.detail,
            d.location == self.location && d.impact == self.impact && d.confidence == self.confidence,
            d.provenance == self.provenance,
    {
        let mut d = self;
        let mut more = evidence;
        d.evidence.append(&mut more);
        d
    }

    /// Cite one more identifier.
    pub fn cite(self, evidence: EvidenceId) -> (d: Self)
        ensures
            d.evidence@ == self.evidence@.push(evidence),
            d.id == self.id && d.kind == self.kind && d.title == self.title && d.detail == self.detail,
            d.location == self.location && d.impact == self.impact && d.confidence == self.confidence,
            d.provenance == self.provenance,
    {
        let mut d = self;
        d.evidence.push(evidence);
        d
    }
}

/// The first identifier in `ids` the store never issued, if any.
pub open spec fn first_unissued(ids: Seq<EvidenceId>, store: EvidenceStore) -> int
    decreases ids.len(),
{
    if ids.len() == 0 {
        -1
    } else if !store.spec_issued(ids[0]@) {
        0
    } else {
        let rest = first_unissued(ids.drop_first(), store);
        if rest < 0 { -1 } else { rest + 1 }
    }
}

/// Whether every identifier in `ids` was issued by the store.
pub open spec fn all_issued(ids: Seq<EvidenceId>, store: EvidenceStore) -> bool {
    forall|i: int| 0 <= i < ids.len() ==> store.spec_issued(#[trigger] ids[i]@)
}

proof fn lemma_first_unissued(ids: Seq<EvidenceId>, store: EvidenceStore)
    ensures
        -1 <= first_unissued(ids, store) < ids.len(),
        first_unissued(ids, store) == -1 <==> all_issued(ids, store),
        first_unissued(ids, store) >= 0 ==> !store.spec_issued(ids[first_unissued(ids, store)]@),
        forall|j: int| 0 <= j < first_unissued(ids, store) ==> store.spec_issued(#[trigger] ids[j]@),
    decreases ids.len(),
{
    if ids.len() > 0 {
        lemma_first_unissued(ids.drop_first(), store);
        if store.spec_issued(ids[0]@) {
            assert forall|j: int| 1 <= j < ids.len() implies ids[j] == #[trigger] ids.drop_first()[j - 1] by {}
            if all_issued(ids.drop_first(), store) {
                assert forall|i: int| 0 <= i < ids.len() implies store.spec_issued(#[trigger] ids[i]@) by {
                    if i > 0 {
                        assert(ids[i] == ids.drop_first()[i - 1]);
                    }
                }
            } else {
                let k = first_unissued(ids.drop_first(), store);
                assert(ids[k + 1] == ids.drop_first()[k]);
            }
            assert forall|j: int| 0 <= j < first_unissued(ids, store) implies store.spec_issued(#[trigger] ids[j]@) by {
                if j > 0 {
                    assert(ids[j] == ids.drop_first()[j - 1]);
                }
            }
        }
    }
}

impl Finding {
    /// The only way to make a finding.
    ///
    /// Two things are checked: the evidence list is not empty, and every
    /// identifier in it was issued by this store (the airlock). A confidence
    /// above what the provenance allows is clamped to the ceiling rather than
    /// rejected.
    pub fn new(draft: FindingDraft, store: &EvidenceStore) -> (r: Result<Finding, Error>)
        ensures
            draft.evidence@.len() == 0 ==> r == Err::<Finding, Error>(Error::Ungrounded(draft.id)),
            draft.evidence@.len() > 0 && !all_issued(draft.evidence@, *store) ==> (r matches Err(
                Error::UnknownEvidence { finding, evidence },
            ) && finding == draft.id && evidence@ == draft.evidence@[first_unissued(
                draft.evidence@,
                *store,
            )]@),
            r is Ok <==> draft.evidence@.len() > 0 && all_issued(draft.evidence@, *store),
            r matches Ok(f) ==> {
                &&& f.id == draft.id
                &&& f.kind == draft.kind
                &&& f.title == draft.title
                &&& f.detail == draft.detail
                &&& f.location == draft.location
                &&& f.impact == draft.impact
                &&& f.confidence == confidence_min(draft.confidence, ceiling_of(draft.provenance))
                &&& f.provenance == draft.provenance
                &&& f.evidence == draft.evidence
            },
    {
        if draft.evidence.len() == 0 {
            return Err(Error::Ungrounded(draft.id));
        }
        let mut i: usize = 0;
        while i < draft.evidence.len()
            invariant
                i <= draft.evidence@.len(),
                forall|j: int| 0 <= j < i ==> store.spec_issued(#[trigger] draft.evidence@[j]@),
            decreases draft.evidence@.len() - i,
        {
            if !store.issued(&draft.evidence[i]) {
                proof {
                    lemma_first_unissued(draft.evidence@, *store);
                    let k = first_unissued(draft.evidence@, *store);
                    assert(!all_issued(draft.evidence@, *store));
                    if 0 <= k < i {
                        assert(store.spec_issued(draft.evidence@[k]@));
                    }
                    if k > i {
                        assert(store.spec_issued(draft.evidence@[i as int]@));
                    }
                    assert(k == i);
                }
                return Err(Error::UnknownEvidence { finding: draft.id, evidence: draft.evidence[i].to_string() });
            }
            i = i + 1;
        }
        proof { lemma_first_unissued(draft.evidence@, *store); }
        let ceiling = draft.provenance.ceiling();
        Ok(Finding {
            id: draft.id,
            kind: draft.kind,
            title: draft.title,
            detail: draft.detail,
            location: draft.location,
            impact: draft.impact,
            confidence: draft.confidence.min(ceiling),
            provenance: draft.provenance,
            evidence: draft.evidence,
        })
    }

    /// Re-check an imported finding against the store that adopted its
    /// evidence. Import is not construction, so it needs its own gate.
    pub fn revalidate(&self, store: &EvidenceStore) -> (r: Result<(), Error>)
        ensures
            self.evidence@.len() == 0 ==> (r matches Err(Error::Ungrounded(id)) && id == self.id),
            self.evidence@.len() > 0 && !all_issued(self.evidence@, *store) ==> (r matches Err(
                Error::UnknownEvidence { finding, evidence },
            ) && finding == self.id && evidence@ == self.evidence@[first_unissued(
                self.evidence@,
                *store,
            )]@),
            r is Ok <==> self.evidence@.len() > 0 && all_issued(self.evidence@, *store),
    {
        if self.evidence.len() == 0 {
            return Err(Error::Ungrounded(self.id.clone()));
        }
        let mut i: usize = 0;
        while i < self.evidence.len()
            invariant
                i <= self.evidence@.len(),
                forall|j: int| 0 <= j < i ==> store.spec_issued(#[trigger] self.evidence@[j]@),
            decreases self.evidence@.len() - i,
        {
            if !store.issued(&self.evidence[i]) {
                proof {
                    lemma_first_unissued(self.evidence@, *store);
                    let k = first_unissued(self.evidence@, *store);
                    assert(!all_issued(self.evidence@, *store));
                    if 0 <= k < i {
                        assert(store.spec_issued(self.evidence@[k]@));
                    }
                    if k > i {
                        assert(store.spec_issued(self.evidence@[i as int]@));
                    }
                    assert(k == i);
                }
                return Err(Error::UnknownEvidence { finding: self.id.clone(), evidence: self.evidence[i].to_string() });
            }
            i = i + 1;
        }
        proof { lemma_first_unissued(self.evidence@, *store); }
        Ok(())
    }
}

} // verus!
