//! Sweeping the matrix: build, measure, gate, and derive the frontier.
//!
//! Three ordering decisions here are not arbitrary and are the difference
//! between a sweep and a random number generator:
//!
//! 1. **The baseline is measured first**, and every number in the run is
//!    stated against it. "25% smaller" is meaningless without saying than what.
//! 2. **The noise floor is measured before any timing comparison**, by running
//!    one unchanged binary repeatedly.
//! 3. **Benchmarks never run concurrently with anything.** When builds run
//!    concurrently, build time is recorded as *unmeasured* rather than
//!    recorded wrong, and an unmeasured axis can never win on the frontier.
//!
//! Everything the sweep decides is here; everything it asks the machine to
//! do (build, measure, run the gates, time a benchmark) goes through a
//! [`SweepBackend`].

use crate::configuration::{describe_of, name_of, unset, BuildConfiguration};
use crate::error::{error_message, Error};
use crate::event::{terminal, Cancellation, EngineEvent, EventSink, RecordedEvents, RunId};
use crate::evidence::{clone_text_option, EvidenceId, EvidenceStore};
use crate::finding::{all_issued, clone_ids, first_unissued, Confidence, Finding, FindingDraft, FindingKind, Impact, Provenance};
use crate::gate::{first_failure, same_outcome, summary_of, Gate, GateOutcome, GateResult, VerificationReport};
use crate::keyed::{sorted_by_key, sort_by_key, lemma_sorted_contains, lemma_sorted_len, Keyed};
use crate::location::Location;
use crate::text::{decimal, decimal_string, lowercase_text, push_decimal, push_text, text_of};
use crate::tool::ToolRunner;
use crate::traits::{BuildOutcome, Target};
use vstd::prelude::*;

verus! {

/// How the sweep should run.
#[derive(Debug, Clone, Copy, PartialEq, Eq)]
pub struct SweepOptions {
    /// The cap on concurrent builds.
    pub parallelism: usize,
    /// How many times to run one unchanged binary to establish the machine's
    /// noise floor.
    pub noise_floor_samples: u32,
}

impl SweepOptions {
    /// One build at a time, and seven runs for the noise floor.
    pub fn new() -> (o: Self)
        ensures
            o.parallelism == 1,
            o.noise_floor_samples == 7,
    {
        SweepOptions { parallelism: 1, noise_floor_samples: 7 }
    }

    /// At least one build at a time, whatever was asked.
    pub fn with_parallelism(self, parallelism: usize) -> (o: Self)
        ensures
            o.parallelism == if parallelism >= 1 { parallelism } else { 1 },
            o.noise_floor_samples == self.noise_floor_samples,
    {
        SweepOptions { parallelism: if parallelism >= 1 { parallelism } else { 1 }, ..self }
    }

    /// Whether wall-clock build times mean anything in this run.
    ///
    /// They do not once builds overlap, and the honest response is to record
    /// no build time at all rather than one inflated by the sweep itself.
    pub fn build_time_is_measurable(&self) -> (r: bool)
        ensures
            r == (self.parallelism == 1),
    {
        self.parallelism == 1
    }
}

/// What the gates are asked to judge: one configuration, the evidence it has
/// so far, and its size against the baseline where both are known.
#[derive(Debug, PartialEq, Eq)]
pub struct Candidate {
    pub name: String,
    pub evidence: Vec<EvidenceId>,
    /// `(baseline bytes, candidate bytes)`.
    pub size: Option<(u64, u64)>,
}

/// What one benchmark comparison found.
#[derive(Debug, PartialEq, Eq)]
pub struct Timing {
    /// The median of the candidate's samples, where there were any.
    pub median_nanos: Option<u64>,
    /// Where the candidate is slower than the baseline by more than the noise
    /// floor, the words that say so.
    pub regression: Option<String>,
}

/// One configuration, measured.
#[derive(Debug, PartialEq, Eq)]
pub struct MeasuredConfiguration {
    pub configuration: BuildConfiguration,
    /// The stable name, which is also the key a resumed sweep looks up.
    pub name: String,
    pub built: bool,
    /// Where the build put the artifact. Kept so a benchmark pass, which runs
    /// after every build, times the right binary, and re-checked before use.
    pub artifact: Option<String>,
    pub size_bytes: Option<u64>,
    pub build_time_nanos: Option<u64>,
    pub runtime_nanos: Option<u64>,
    pub report: VerificationReport,
    pub evidence: Vec<EvidenceId>,
}

/// Whether every gate passed this configuration.
pub open spec fn passed(m: MeasuredConfiguration) -> bool {
    first_failure(m.report.outcomes@) is None
}

/// Two measured configurations alike in every field.
pub open spec fn same_measured(a: MeasuredConfiguration, b: MeasuredConfiguration) -> bool {
    &&& a.configuration == b.configuration
    &&& a.name == b.name
    &&& a.built == b.built
    &&& a.artifact == b.artifact
    &&& a.size_bytes == b.size_bytes
    &&& a.build_time_nanos == b.build_time_nanos
    &&& a.runtime_nanos == b.runtime_nanos
    &&& a.report.candidate == b.report.candidate
    &&& a.report.outcomes@.len() == b.report.outcomes@.len()
    &&& forall|i: int| 0 <= i < a.report.outcomes@.len()
        ==> same_outcome(#[trigger] a.report.outcomes@[i], b.report.outcomes@[i])
    &&& a.evidence@ == b.evidence@
}

impl Clone for MeasuredConfiguration {
    fn clone(&self) -> (r: Self)
        ensures
            same_measured(r, *self),
    {
        MeasuredConfiguration {
            configuration: self.configuration.clone(),
            name: self.name.clone(),
            built: self.built,
            artifact: crate::evidence::clone_text_option(&self.artifact),
            size_bytes: self.size_bytes,
            build_time_nanos: self.build_time_nanos,
            runtime_nanos: self.runtime_nanos,
            report: self.report.clone(),
            evidence: clone_ids(&self.evidence),
        }
    }
}

/// A measured configuration as the frontier sees it: its objectives, and
/// whether it may stand on the frontier at all.
#[derive(Debug, Clone, Copy, PartialEq, Eq)]
pub struct Point {
    /// Bytes; a configuration with no size counts as the largest possible.
    pub size_bytes: u64,
    pub build_time_nanos: Option<u64>,
    pub runtime_nanos: Option<u64>,
    /// Built and passed every gate.
    pub eligible: bool,
}

pub open spec fn point_of(m: MeasuredConfiguration) -> Point {
    Point {
        size_bytes: match m.size_bytes {
            Some(b) => b,
            None => u64::MAX,
        },
        build_time_nanos: m.build_time_nanos,
        runtime_nanos: m.runtime_nanos,
        eligible: passed(m) && m.built,
    }
}

/// `a` is no worse than `b` on one objective. A value that was not measured
/// is worse than any that was, so an unmeasured axis never wins.
pub open spec fn no_worse(a: Option<u64>, b: Option<u64>) -> bool {
    match (a, b) {
        (Some(x), Some(y)) => x <= y,
        (_, None) => true,
        (None, Some(_)) => false,
    }
}

/// `a` is strictly better than `b` on one objective.
pub open spec fn better(a: Option<u64>, b: Option<u64>) -> bool {
    match (a, b) {
        (Some(x), Some(y)) => x < y,
        (Some(_), None) => true,
        (None, _) => false,
    }
}

/// Pareto dominance: `a` stands on the frontier, is no worse than `b` on
/// every objective, and is better on at least one.
pub open spec fn dominates(a: Point, b: Point) -> bool {
    &&& a.eligible
    &&& a.size_bytes <= b.size_bytes
    &&& no_worse(a.build_time_nanos, b.build_time_nanos)
    &&& no_worse(a.runtime_nanos, b.runtime_nanos)
    &&& (a.size_bytes < b.size_bytes || better(a.build_time_nanos, b.build_time_nanos)
        || better(a.runtime_nanos, b.runtime_nanos))
}

/// Whether the point at `i` is on the frontier of `ps`: eligible, and
/// dominated by nothing.
pub open spec fn on_frontier(ps: Seq<Point>, i: int) -> bool {
    &&& 0 <= i < ps.len()
    &&& ps[i].eligible
    &&& forall|j: int| 0 <= j < ps.len() ==> !dominates(#[trigger] ps[j], ps[i])
}

/// Index `i` comes before index `j`: smaller first, and in measured order
/// among equals.
pub open spec fn before(ps: Seq<Point>, i: int, j: int) -> bool {
    ps[i].size_bytes < ps[j].size_bytes || (ps[i].size_bytes == ps[j].size_bytes && i < j)
}

/// `r` lists indices in strictly increasing `before` order.
pub open spec fn ordered(ps: Seq<Point>, r: Seq<usize>) -> bool {
    forall|a: int, b: int| 0 <= a < b < r.len() ==> before(ps, #[trigger] r[a] as int, #[trigger] r[b] as int)
}

impl MeasuredConfiguration {
    /// How the frontier sees this configuration.
    pub fn point(&self) -> (p: Point)
        ensures
            p == point_of(*self),
    {
        Point {
            size_bytes: match self.size_bytes {
                Some(b) => b,
                None => u64::MAX,
            },
            build_time_nanos: self.build_time_nanos,
            runtime_nanos: self.runtime_nanos,
            eligible: self.report.passed() && self.built,
        }
    }
}

fn no_worse_exec(a: Option<u64>, b: Option<u64>) -> (r: bool)
    ensures
        r == no_worse(a, b),
{
    match (a, b) {
        (Some(x), Some(y)) => x <= y,
        (_, None) => true,
        (None, Some(_)) => false,
    }
}

fn better_exec(a: Option<u64>, b: Option<u64>) -> (r: bool)
    ensures
        r == better(a, b),
{
    match (a, b) {
        (Some(x), Some(y)) => x < y,
        (Some(_), None) => true,
        (None, _) => false,
    }
}

fn dominates_exec(a: &Point, b: &Point) -> (r: bool)
    ensures
        r == dominates(*a, *b),
{
    a.eligible && a.size_bytes <= b.size_bytes && no_worse_exec(a.build_time_nanos, b.build_time_nanos)
        && no_worse_exec(a.runtime_nanos, b.runtime_nanos) && (a.size_bytes < b.size_bytes || better_exec(
        a.build_time_nanos,
        b.build_time_nanos,
    ) || better_exec(a.runtime_nanos, b.runtime_nanos))
}

/// The indices of the points on the Pareto frontier, smallest first, and in
/// measured order among equal sizes.
pub fn frontier_by_size(points: &Vec<Point>) -> (r: Vec<usize>)
    ensures
        ordered(points@, r@),
        forall|i: int| 0 <= i < r@.len() ==> on_frontier(points@, #[trigger] r@[i] as int),
        forall|i: int| on_frontier(points@, i) ==> r@.contains(i as usize),
{
    let mut r: Vec<usize> = Vec::new();
    let mut i: usize = 0;
    while i < points.len()
        invariant
            i <= points@.len(),
            ordered(points@, r@),
            forall|k: int| 0 <= k < r@.len() ==> on_frontier(points@, #[trigger] r@[k] as int) && r@[k] < i,
            forall|k: int| 0 <= k < i && on_frontier(points@, k) ==> r@.contains(k as usize),
        decreases points@.len() - i,
    {
        let mut dominated = false;
        if points[i].eligible {
            let mut j: usize = 0;
            while j < points.len()
                invariant_except_break
                    !dominated,
                invariant
                    i < points@.len(),
                    j <= points@.len(),
                    forall|k: int| 0 <= k < j ==> !dominates(#[trigger] points@[k], points@[i as int]),
                ensures
                    dominated ==> !on_frontier(points@, i as int),
                    !dominated ==> forall|k: int| 0 <= k < points@.len() ==> !dominates(#[trigger] points@[k], points@[i as int]),
                decreases points@.len() - j,
            {
                if dominates_exec(&points[j], &points[i]) {
                    dominated = true;
                    break;
                }
                j = j + 1;
            }
            if !dominated {
                assert(on_frontier(points@, i as int));
                // Insert `i` after every index that comes before it.
                let mut p: usize = 0;
                while p < r.len() && before_exec(points, r[p], i)
                    invariant
                        p <= r@.len(),
                        i < points@.len(),
                        forall|k: int| 0 <= k < r@.len() ==> r@[k] < points@.len(),
                        forall|k: int| 0 <= k < p ==> before(points@, #[trigger] r@[k] as int, i as int),
                    decreases r@.len() - p,
                {
                    p = p + 1;
                }
                proof {
                    if p < r@.len() {
                        assert(!before(points@, r@[p as int] as int, i as int));
                        assert forall|k: int| p <= k < r@.len() implies before(points@, i as int, #[trigger] r@[k] as int) by {
                            if k > p {
                                assert(before(points@, r@[p as int] as int, r@[k] as int));
                            }
                        }
                    }
                }
                let ghost old_r = r@;
                r.insert(p, i);
                assert(r@ =~= old_r.take(p as int).push(i).add(old_r.skip(p as int)));
                assert forall|a: int, b: int| 0 <= a < b < r@.len() implies before(
                    points@,
                    #[trigger] r@[a] as int,
                    #[trigger] r@[b] as int,
                ) by {
                    if a < p && b < p {
                        assert(r@[a] == old_r[a] && r@[b] == old_r[b]);
                    } else if a < p && b == p {
                    } else if a < p {
                        assert(r@[a] == old_r[a] && r@[b] == old_r[b - 1]);
                    } else if a == p {
                        assert(r@[b] == old_r[b - 1]);
                    } else {
                        assert(r@[a] == old_r[a - 1] && r@[b] == old_r[b - 1]);
                    }
                }
                assert forall|k: int| 0 <= k < i + 1 && on_frontier(points@, k) implies r@.contains(k as usize) by {
                    if k == i {
                        assert(r@[p as int] == i);
                    } else {
                        let w = choose|w: int| 0 <= w < old_r.len() && old_r[w] == k as usize;
                        if w < p {
                            assert(r@[w] == old_r[w]);
                        } else {
                            assert(r@[w + 1] == old_r[w]);
                        }
                    }
                }
                assert forall|k: int| 0 <= k < r@.len() implies on_frontier(points@, #[trigger] r@[k] as int) && r@[k] < i + 1 by {
                    if k < p {
                        assert(r@[k] == old_r[k]);
                    } else if k > p {
                        assert(r@[k] == old_r[k - 1]);
                    }
                }
            }
        }
        proof {
            if dominated || !points@[i as int].eligible {
                assert(!on_frontier(points@, i as int));
            }
        }
        i = i + 1;
    }
    r
}

fn before_exec(points: &Vec<Point>, i: usize, j: usize) -> (r: bool)
    requires
        i < points@.len(),
        j < points@.len(),
    ensures
        r == before(points@, i as int, j as int),
{
    points[i].size_bytes < points[j].size_bytes || (points[i].size_bytes == points[j].size_bytes && i < j)
}

/// Whether a configuration named `name` is among `ms`.
pub open spec fn is_measured(ms: Seq<MeasuredConfiguration>, name: Seq<char>) -> bool {
    exists|k: int| 0 <= k < ms.len() && (#[trigger] ms[k]).name@ == name
}

/// The planned configurations that nothing in `ms` has measured yet, in
/// planned order.
pub open spec fn owed(planned: Seq<BuildConfiguration>, ms: Seq<MeasuredConfiguration>) -> Seq<BuildConfiguration>
    decreases planned.len(),
{
    if planned.len() == 0 {
        seq![]
    } else {
        let rest = owed(planned.drop_last(), ms);
        if is_measured(ms, name_of(planned.last())) {
            rest
        } else {
            rest.push(planned.last())
        }
    }
}

/// The smallest size among the configurations that built and passed every
/// gate.
pub open spec fn best_size_of(ms: Seq<MeasuredConfiguration>) -> Option<u64>
    decreases ms.len(),
{
    if ms.len() == 0 {
        None
    } else {
        let rest = best_size_of(ms.drop_last());
        let m = ms.last();
        if passed(m) && m.built && m.size_bytes is Some {
            let b = m.size_bytes->0;
            match rest {
                Some(r) => if b < r { Some(b) } else { Some(r) },
                None => Some(b),
            }
        } else {
            rest
        }
    }
}

/// A measured configuration whose size counts towards the best: it built,
/// passed every gate, and has a size.
pub open spec fn size_counts(m: MeasuredConfiguration) -> bool {
    passed(m) && m.built && m.size_bytes is Some
}

/// The best size is a minimum: it is the size of some configuration that
/// built and passed every gate, and no such configuration is smaller; and
/// there is none exactly when no configuration counts.
pub proof fn lemma_best_size_is_the_smallest(ms: Seq<MeasuredConfiguration>)
    ensures
        best_size_of(ms) matches Some(s) ==> (exists|k: int| 0 <= k < ms.len() && size_counts(#[trigger] ms[k])
            && ms[k].size_bytes == Some(s)),
        best_size_of(ms) matches Some(s) ==> forall|k: int| 0 <= k < ms.len() && size_counts(#[trigger] ms[k])
            ==> s <= ms[k].size_bytes->0,
        best_size_of(ms) is None <==> forall|k: int| 0 <= k < ms.len() ==> !size_counts(#[trigger] ms[k]),
    decreases ms.len(),
{
    if ms.len() > 0 {
        let rest = ms.drop_last();
        lemma_best_size_is_the_smallest(rest);
        assert forall|k: int| 0 <= k < rest.len() implies #[trigger] rest[k] == ms[k] by {}
        let last = ms.len() - 1;
        if let Some(s) = best_size_of(ms) {
            if size_counts(ms.last()) && (best_size_of(rest) is None || ms.last().size_bytes->0 < best_size_of(rest)->0) {
                assert(size_counts(ms[last]) && ms[last].size_bytes == Some(s));
            } else {
                let k = choose|k: int| 0 <= k < rest.len() && size_counts(#[trigger] rest[k]) && rest[k].size_bytes == Some(s);
                assert(size_counts(ms[k]) && ms[k].size_bytes == Some(s));
            }
            assert forall|k: int| 0 <= k < ms.len() && size_counts(#[trigger] ms[k]) implies s <= ms[k].size_bytes->0 by {
                if k < last {
                    assert(size_counts(rest[k]));
                }
            }
        } else {
            assert forall|k: int| 0 <= k < ms.len() implies !size_counts(#[trigger] ms[k]) by {
                if k < last {
                    assert(rest[k] == ms[k]);
                }
            }
        }
        if forall|k: int| 0 <= k < ms.len() ==> !size_counts(#[trigger] ms[k]) {
            assert forall|k: int| 0 <= k < rest.len() implies !size_counts(#[trigger] rest[k]) by {
                assert(rest[k] == ms[k]);
            }
            assert(!size_counts(ms[last]));
        }
    }
}

/// The best size reduction is stated against the baseline, by the smallest
/// configuration that built and passed every gate: the pair is the baseline
/// and a size that some such configuration has and none beats. There is
/// none exactly when the baseline is unknown or empty, or nothing counts.
pub proof fn lemma_best_reduction_is_the_smallest(baseline: Option<u64>, ms: Seq<MeasuredConfiguration>)
    ensures
        reduction_of(baseline, ms) matches Some((b, s)) ==> {
            &&& baseline == Some(b)
            &&& b > 0
            &&& exists|k: int| 0 <= k < ms.len() && size_counts(#[trigger] ms[k]) && ms[k].size_bytes == Some(s)
            &&& forall|k: int| 0 <= k < ms.len() && size_counts(#[trigger] ms[k]) ==> s <= ms[k].size_bytes->0
        },
        reduction_of(baseline, ms) is None <==> (baseline is None || baseline == Some(0u64)
            || forall|k: int| 0 <= k < ms.len() ==> !size_counts(#[trigger] ms[k])),
{
    lemma_best_size_is_the_smallest(ms);
}

/// The baseline and the best passing size, where both exist and the baseline
/// is not empty.
pub open spec fn reduction_of(baseline: Option<u64>, ms: Seq<MeasuredConfiguration>) -> Option<(u64, u64)> {
    match baseline {
        None => None,
        Some(b) => if b == 0 {
            None
        } else {
            match best_size_of(ms) {
                None => None,
                Some(s) => Some((b, s)),
            }
        },
    }
}

pub open spec fn points_of(ms: Seq<MeasuredConfiguration>) -> Seq<Point> {
    ms.map_values(|m: MeasuredConfiguration| point_of(m))
}

/// A sweep in progress or interrupted, in a form that survives the session.
///
/// Cancellation keeps everything measured so far, and a resumed sweep skips
/// the configurations already in `measured` rather than repeating an
/// afternoon's builds.
#[derive(Debug, PartialEq)]
pub struct SweepState {
    pub run: RunId,
    pub target: String,
    /// The full matrix this run was started against, so a resume knows what it
    /// still owes.
    pub planned: Vec<BuildConfiguration>,
    pub measured: Vec<MeasuredConfiguration>,
    /// The baseline's benchmark samples, in nanoseconds: the machine's noise
    /// floor, measured on one unchanged binary.
    pub noise_floor: Option<Vec<u64>>,
    /// The baseline every number is stated against.
    pub baseline_bytes: Option<u64>,
    pub complete: bool,
}

/// Two states alike in everything but the reports' and evidence lists'
/// storage.
pub open spec fn same_state(a: SweepState, b: SweepState) -> bool {
    &&& a.run == b.run
    &&& a.target == b.target
    &&& a.planned@ == b.planned@
    &&& a.measured@.len() == b.measured@.len()
    &&& forall|k: int| 0 <= k < a.measured@.len() ==> same_measured(#[trigger] a.measured@[k], b.measured@[k])
    &&& match (a.noise_floor, b.noise_floor) {
        (Some(x), Some(y)) => x@ == y@,
        (None, None) => true,
        _ => false,
    }
    &&& a.baseline_bytes == b.baseline_bytes
    &&& a.complete == b.complete
}

impl Clone for SweepState {
    fn clone(&self) -> (r: Self)
        ensures
            same_state(r, *self),
    {
        let planned = self.planned.clone();
        assert(planned@ =~= self.planned@);
        let mut measured: Vec<MeasuredConfiguration> = Vec::new();
        let mut i: usize = 0;
        while i < self.measured.len()
            invariant
                i <= self.measured@.len(),
                measured@.len() == i,
                forall|k: int| 0 <= k < i ==> same_measured(#[trigger] measured@[k], self.measured@[k]),
            decreases self.measured@.len() - i,
        {
            measured.push(self.measured[i].clone());
            i = i + 1;
        }
        let noise_floor = match &self.noise_floor {
            Some(v) => {
                let c = v.clone();
                assert(c@ =~= v@);
                Some(c)
            },
            None => None,
        };
        SweepState {
            run: self.run.clone(),
            target: self.target.clone(),
            planned,
            measured,
            noise_floor,
            baseline_bytes: self.baseline_bytes,
            complete: self.complete,
        }
    }
}

/// Keyed by run, so the engine holds one state per run.
impl Keyed for SweepState {
    open spec fn key(&self) -> Seq<char> {
        self.run.0@
    }

    fn key_text(&self) -> (r: &str) {
        self.run.0.as_str()
    }
}

impl SweepState {
    pub fn new(run: RunId, target: String, planned: Vec<BuildConfiguration>) -> (s: Self)
        ensures
            s.run == run,
            s.target == target,
            s.planned == planned,
            s.measured@.len() == 0,
            s.noise_floor is None,
            s.baseline_bytes is None,
            !s.complete,
    {
        SweepState {
            run,
            target,
            planned,
            measured: Vec::new(),
            noise_floor: None,
            baseline_bytes: None,
            complete: false,
        }
    }

    /// Whether a configuration called `name` has been measured.
    fn has_measured(&self, name: &str) -> (r: bool)
        ensures
            r == is_measured(self.measured@, name@),
    {
        let mut i: usize = 0;
        while i < self.measured.len()
            invariant
                i <= self.measured@.len(),
                forall|k: int| 0 <= k < i ==> (#[trigger] self.measured@[k]).name@ != name@,
            decreases self.measured@.len() - i,
        {
            if crate::text::text_eq(self.measured[i].name.as_str(), name) {
                return true;
            }
            i = i + 1;
        }
        false
    }

    /// The configurations still owed. A resume builds exactly these.
    pub fn remaining(&self) -> (r: Vec<BuildConfiguration>)
        ensures
            r@ == owed(self.planned@, self.measured@),
    {
        let mut r: Vec<BuildConfiguration> = Vec::new();
        let mut i: usize = 0;
        while i < self.planned.len()
            invariant
                i <= self.planned@.len(),
                r@ == owed(self.planned@.take(i as int), self.measured@),
            decreases self.planned@.len() - i,
        {
            assert(self.planned@.take(i + 1).drop_last() =~= self.planned@.take(i as int));
            let name = self.planned[i].name();
            if !self.has_measured(name.as_str()) {
                r.push(self.planned[i].clone());
            }
            i = i + 1;
        }
        assert(self.planned@.take(self.planned@.len() as int) =~= self.planned@);
        r
    }

    /// `(measured, planned)`.
    pub fn progress(&self) -> (r: (usize, usize))
        ensures
            r == (self.measured@.len() as usize, self.planned@.len() as usize),
    {
        (self.measured.len(), self.planned.len())
    }

    /// The indices of the measured configurations on the Pareto frontier,
    /// smallest first.
    pub fn frontier(&self) -> (r: Vec<usize>)
        ensures
            ordered(points_of(self.measured@), r@),
            forall|i: int| 0 <= i < r@.len() ==> on_frontier(points_of(self.measured@), #[trigger] r@[i] as int),
            forall|i: int| on_frontier(points_of(self.measured@), i) ==> r@.contains(i as usize),
    {
        let mut points: Vec<Point> = Vec::new();
        let mut i: usize = 0;
        while i < self.measured.len()
            invariant
                i <= self.measured@.len(),
                points@ =~= points_of(self.measured@.take(i as int)),
            decreases self.measured@.len() - i,
        {
            points.push(self.measured[i].point());
            i = i + 1;
        }
        assert(self.measured@.take(self.measured@.len() as int) =~= self.measured@);
        frontier_by_size(&points)
    }

    /// The baseline and the best size that built and passed every gate, for
    /// stating the reduction: `(baseline - best) / baseline`. `None` without
    /// a baseline, with an empty one, or with nothing that passed.
    pub fn best_size_reduction(&self) -> (r: Option<(u64, u64)>)
        ensures
            r == reduction_of(self.baseline_bytes, self.measured@),
    {
        let baseline = match self.baseline_bytes {
            None => return None,
            Some(b) => b,
        };
        if baseline == 0 {
            return None;
        }
        let mut best: Option<u64> = None;
        let mut i: usize = 0;
        while i < self.measured.len()
            invariant
                i <= self.measured@.len(),
                best == best_size_of(self.measured@.take(i as int)),
            decreases self.measured@.len() - i,
        {
            assert(self.measured@.take(i + 1).drop_last() =~= self.measured@.take(i as int));
            let m = &self.measured[i];
            if m.report.passed() && m.built {
                if let Some(b) = m.size_bytes {
                    best = match best {
                        Some(r) => if b < r { Some(b) } else { Some(r) },
                        None => Some(b),
                    };
                }
            }
            i = i + 1;
        }
        assert(self.measured@.take(self.measured@.len() as int) =~= self.measured@);
        match best {
            None => None,
            Some(s) => Some((baseline, s)),
        }
    }
}

/// The signed difference `bytes - baseline`, as the size impact records it.
/// Sizes past `i64::MAX` wrap, as the subtraction of their two's-complement
/// readings does.
pub fn size_delta(baseline: u64, bytes: u64) -> (d: i64)
    ensures
        baseline <= i64::MAX && bytes <= i64::MAX ==> d == bytes - baseline,
{
    if baseline <= 0x7fff_ffff_ffff_ffffu64 && bytes <= 0x7fff_ffff_ffff_ffffu64 {
        bytes as i64 - baseline as i64
    } else {
        (bytes as i64).wrapping_sub(baseline as i64)
    }
}

/// The size impact of a configuration against the baseline: a delta where
/// both sizes are known, nothing otherwise.
fn size_impact(baseline: Option<u64>, bytes: Option<u64>) -> (i: Impact)
    ensures
        match (baseline, bytes) {
            (Some(b), Some(s)) => i.size_bytes is Some && i.runtime_nanos is None && i.build_time_nanos is None
                && !i.within_noise_floor && (b <= i64::MAX && s <= i64::MAX ==> i.size_bytes == Some((s - b) as i64)),
            _ => i == Impact::none_spec(),
        },
{
    match (baseline, bytes) {
        (Some(b), Some(s)) => Impact::size(size_delta(b, s)),
        _ => Impact::none(),
    }
}

/// The location a configuration's findings point at.
pub open spec fn at_configuration(l: Location, name: Seq<char>) -> bool {
    &&& l.configuration matches Some(n) && n@ == name
    &&& l == (Location { configuration: l.configuration, ..Location::nowhere_spec() })
}

/// What a finding built from `id` and `evidence` by [`Finding::new`] came to,
/// when it failed.
pub open spec fn grounding_error(e: Error, id: Seq<char>, evidence: Seq<EvidenceId>, store: EvidenceStore) -> bool {
    if evidence.len() == 0 {
        e matches Error::Ungrounded(i) && i@ == id
    } else {
        e matches Error::UnknownEvidence { finding, evidence: cited } && finding@ == id
            && cited@ == evidence[first_unissued(evidence, store)]@
    }
}

pub open spec fn configuration_title(m: MeasuredConfiguration) -> Seq<char> {
    if passed(m) {
        m.name@ + ": measured"@
    } else {
        m.name@ + ": "@ + summary_of(m.report.outcomes@)
    }
}

/// The finding a measured configuration streams as soon as it is measured:
/// a configuration when it passed every gate, a rejected candidate when one
/// refused it, either way stated against the baseline and citing everything
/// the measurement recorded.
pub fn configuration_finding(state: &SweepState, measured: &MeasuredConfiguration, store: &EvidenceStore) -> (r: Result<Finding, Error>)
    ensures
        r is Ok <==> measured.evidence@.len() > 0 && all_issued(measured.evidence@, *store),
        r matches Err(e) ==> grounding_error(e, "cfg-"@ + measured.name@, measured.evidence@, *store),
        r matches Ok(f) ==> {
            &&& f.id@ == "cfg-"@ + measured.name@
            &&& f.kind == if passed(*measured) { FindingKind::Configuration } else { FindingKind::RejectedCandidate }
            &&& f.title@ == configuration_title(*measured)
            &&& f.detail@ == describe_of(measured.configuration)
            &&& at_configuration(f.location, measured.name@)
            &&& match (state.baseline_bytes, measured.size_bytes) {
                (Some(b), Some(s)) => f.impact.size_bytes is Some && (b <= i64::MAX && s <= i64::MAX ==> f.impact.size_bytes == Some((s - b) as i64)),
                _ => f.impact == Impact::none_spec(),
            }
            &&& f.confidence == Confidence::Certain
            &&& f.provenance == Provenance::Measured
            &&& f.evidence@ == measured.evidence@
        },
{
    let passed_all = measured.report.passed();
    let mut title = text_of(measured.name.as_str());
    let kind = if !passed_all {
        push_text(&mut title, ": ");
        let summary = measured.report.summary();
        push_text(&mut title, summary.as_str());
        FindingKind::RejectedCandidate
    } else {
        push_text(&mut title, ": measured");
        FindingKind::Configuration
    };
    let mut id = text_of("cfg-");
    push_text(&mut id, measured.name.as_str());
    let impact = size_impact(state.baseline_bytes, measured.size_bytes);
    let draft = FindingDraft::new(id, kind, title)
        .detail(measured.configuration.describe())
        .at(Location::configuration(text_of(measured.name.as_str())))
        .impact(impact)
        .confidence(Confidence::Certain)
        .provenance(Provenance::Measured)
        .citing(clone_ids(&measured.evidence));
    Finding::new(draft, store)
}

pub open spec fn frontier_detail(m: MeasuredConfiguration) -> Seq<char> {
    "Nothing else measured in this sweep beat it on every objective at once. "@ + describe_of(m.configuration)
}

/// The finding for a configuration on the frontier. The measurements behind
/// it are certain; the conclusion, drawn by the rule of Pareto dominance, is
/// a derived one, and says which rule drew it.
pub fn frontier_finding(state: &SweepState, measured: &MeasuredConfiguration, store: &EvidenceStore) -> (r: Result<Finding, Error>)
    ensures
        r is Ok <==> measured.evidence@.len() > 0 && all_issued(measured.evidence@, *store),
        r matches Err(e) ==> grounding_error(e, "frontier-"@ + measured.name@, measured.evidence@, *store),
        r matches Ok(f) ==> {
            &&& f.id@ == "frontier-"@ + measured.name@
            &&& f.kind == FindingKind::FrontierPoint
            &&& f.title@ == measured.name@ + " is on the frontier"@
            &&& f.detail@ == frontier_detail(*measured)
            &&& at_configuration(f.location, measured.name@)
            &&& match (state.baseline_bytes, measured.size_bytes) {
                (Some(b), Some(s)) => f.impact.size_bytes is Some && (b <= i64::MAX && s <= i64::MAX ==> f.impact.size_bytes == Some((s - b) as i64)),
                _ => f.impact == Impact::none_spec(),
            }
            &&& f.confidence == Confidence::High
            &&& f.provenance matches Provenance::Derived { rule } && rule@ == "pareto-dominance"@
            &&& f.evidence@ == measured.evidence@
        },
{
    let mut id = text_of("frontier-");
    push_text(&mut id, measured.name.as_str());
    let mut title = text_of(measured.name.as_str());
    push_text(&mut title, " is on the frontier");
    let mut detail = text_of("Nothing else measured in this sweep beat it on every objective at once. ");
    let described = measured.configuration.describe();
    push_text(&mut detail, described.as_str());
    let impact = size_impact(state.baseline_bytes, measured.size_bytes);
    let draft = FindingDraft::new(id, FindingKind::FrontierPoint, title)
        .detail(detail)
        .at(Location::configuration(text_of(measured.name.as_str())))
        .impact(impact)
        .confidence(Confidence::High)
        .provenance(Provenance::Derived { rule: text_of("pareto-dominance") })
        .citing(clone_ids(&measured.evidence));
    Finding::new(draft, store)
}

/// How many of `ms` passed every gate.
pub open spec fn passing_count(ms: Seq<MeasuredConfiguration>) -> nat
    decreases ms.len(),
{
    if ms.len() == 0 {
        0
    } else {
        passing_count(ms.drop_last()) + if passed(ms.last()) { 1nat } else { 0nat }
    }
}

proof fn lemma_passing_count_bound(ms: Seq<MeasuredConfiguration>)
    ensures
        passing_count(ms) <= ms.len(),
    decreases ms.len(),
{
    if ms.len() > 0 {
        lemma_passing_count_bound(ms.drop_last());
    }
}

/// How many points stand on the frontier.
pub open spec fn frontier_size(ps: Seq<Point>) -> nat {
    Set::new(|i: usize| on_frontier(ps, i as int)).len()
}

/// A list of the frontier's indices, in order, is as long as the frontier.
proof fn lemma_frontier_count(ps: Seq<Point>, r: Seq<usize>)
    requires
        ordered(ps, r),
        forall|i: int| 0 <= i < r.len() ==> on_frontier(ps, #[trigger] r[i] as int),
        forall|i: int| on_frontier(ps, i) ==> r.contains(i as usize),
    ensures
        r.len() == frontier_size(ps),
{
    assert(r.no_duplicates()) by {
        assert forall|a: int, b: int| 0 <= a < r.len() && 0 <= b < r.len() && a != b implies r[a] != r[b] by {
            if a < b {
                assert(before(ps, r[a] as int, r[b] as int));
            } else {
                assert(before(ps, r[b] as int, r[a] as int));
            }
        }
    }
    r.unique_seq_to_set();
    assert(r.to_set() =~= Set::new(|i: usize| on_frontier(ps, i as int))) by {
        assert forall|i: usize| r.to_set().contains(i) implies on_frontier(ps, i as int) by {
            let k = choose|k: int| 0 <= k < r.len() && r[k] == i;
            assert(on_frontier(ps, r[k] as int));
        }
        assert forall|i: usize| on_frontier(ps, i as int) implies r.to_set().contains(i) by {
            assert(r.contains((i as int) as usize));
        }
    }
}

/// Whether the best configuration that passed beat the baseline.
pub open spec fn beats_baseline(state: SweepState) -> bool {
    reduction_of(state.baseline_bytes, state.measured@) matches Some((b, s)) && s < b
}

/// The line a finished sweep ends on. `under` is the reduction as a
/// percentage, shown only where something beat the baseline.
pub open spec fn summary_text(measured: nat, passing: nat, frontier: nat, under: Option<Seq<char>>) -> Seq<char> {
    decimal(measured) + " configurations measured, "@ + decimal(passing) + " passed every gate, "@ + decimal(frontier)
        + " on the frontier; "@ + match under {
        Some(p) => "the smallest is "@ + p + "% under default release"@,
        None => "none beat default release on size"@,
    }
}

/// The summary of a finished sweep, with `under` the best reduction against
/// the baseline as a percentage, as the interface prints it.
pub fn summary(state: &SweepState, under: &str) -> (s: String)
    ensures
        s@ == summary_text(
            state.measured@.len(),
            passing_count(state.measured@),
            frontier_size(points_of(state.measured@)),
            if beats_baseline(*state) { Some(under@) } else { None },
        ),
{
    let measured = state.measured.len();
    let mut passing: usize = 0;
    let mut i: usize = 0;
    while i < state.measured.len()
        invariant
            i <= state.measured@.len(),
            passing == passing_count(state.measured@.take(i as int)),
        decreases state.measured@.len() - i,
    {
        assert(state.measured@.take(i + 1).drop_last() =~= state.measured@.take(i as int));
        proof { lemma_passing_count_bound(state.measured@.take(i as int)); }
        if state.measured[i].report.passed() {
            passing = passing + 1;
        }
        i = i + 1;
    }
    assert(state.measured@.take(state.measured@.len() as int) =~= state.measured@);
    let frontier = state.frontier();
    proof { lemma_frontier_count(points_of(state.measured@), frontier@); }
    let mut s = decimal_string(measured as u64);
    push_text(&mut s, " configurations measured, ");
    push_decimal(&mut s, passing as u64);
    push_text(&mut s, " passed every gate, ");
    push_decimal(&mut s, frontier.len() as u64);
    push_text(&mut s, " on the frontier; ");
    let beats = match state.best_size_reduction() {
        Some((b, best)) => best < b,
        None => false,
    };
    if beats {
        push_text(&mut s, "the smallest is ");
        push_text(&mut s, under);
        push_text(&mut s, "% under default release");
    } else {
        push_text(&mut s, "none beat default release on size");
    }
    s
}

/// Everything a sweep asks of the machine: building, measuring, running the
/// gates, timing a benchmark. The sweep decides what to ask and what the
/// answers mean; an implementation only does as it is told, running its
/// tools through the runner it is handed so that every run leaves a record
/// in the sweep's evidence store.
pub trait SweepBackend {
    /// Build one configuration of `target`.
    fn build(&mut self, runner: &mut ToolRunner, target: &Target, configuration: &BuildConfiguration) -> Result<BuildOutcome, Error>;

    /// The size of the artifact at `artifact`, in bytes, and the evidence
    /// record of the measurement.
    fn measure_size(&mut self, runner: &mut ToolRunner, artifact: &str) -> Result<(u64, EvidenceId), Error>;

    /// Run every gate on one candidate.
    fn verify(&mut self, runner: &mut ToolRunner, candidate: &Candidate) -> VerificationReport;

    /// Whether the user declared a benchmark.
    fn has_benchmark(&self) -> bool;

    /// Run the benchmark once against `artifact`, in nanoseconds per run.
    fn samples(&mut self, runner: &mut ToolRunner, artifact: &str) -> Result<Vec<u64>, Error>;

    /// Compare a candidate's samples with the baseline's, against the noise
    /// floor those baseline samples establish.
    fn compare(&mut self, baseline: &Vec<u64>, samples: &Vec<u64>) -> Timing;

    /// Whether the file at `artifact` is still there.
    fn artifact_exists(&mut self, artifact: &str) -> bool;


    /// `(baseline - best) / baseline`, as a percentage to one decimal place.
    fn percent_under(&self, baseline: u64, best: u64) -> String;
}

/// Keyed by name, so measured configurations sort the way they are looked
/// up.
impl Keyed for MeasuredConfiguration {
    open spec fn key(&self) -> Seq<char> {
        self.name@
    }

    fn key_text(&self) -> (r: &str) {
        self.name.as_str()
    }
}

/// The first line of a run: a fresh sweep says what it will do, a resumed
/// one what is left.
pub open spec fn start_text(already: nat, total: nat, remaining: nat, target: Seq<char>) -> Seq<char> {
    if already == 0 {
        "Sweeping "@ + decimal(total) + " configurations over "@ + target
    } else {
        "Resuming: "@ + decimal(remaining) + " of "@ + decimal(total) + " configurations remain"@
    }
}

pub fn start_description(already: usize, total: usize, remaining: usize, target: &str) -> (s: String)
    ensures
        s@ == start_text(already as nat, total as nat, remaining as nat, target@),
{
    if already == 0 {
        let mut s = text_of("Sweeping ");
        push_decimal(&mut s, total as u64);
        push_text(&mut s, " configurations over ");
        push_text(&mut s, target);
        s
    } else {
        let mut s = text_of("Resuming: ");
        push_decimal(&mut s, remaining as u64);
        push_text(&mut s, " of ");
        push_decimal(&mut s, total as u64);
        push_text(&mut s, " configurations remain");
        s
    }
}

/// The evidence a build's answer cites: the build's own record, where the
/// build ran at all.
pub open spec fn build_cited(build: Result<BuildOutcome, Error>) -> Seq<EvidenceId> {
    match build {
        Ok(o) => seq![o.evidence],
        Err(_) => seq![],
    }
}

/// The evidence a size measurement cites, where one was taken and answered.
pub open spec fn size_cited(size: Option<Result<(u64, EvidenceId), Error>>) -> Seq<EvidenceId> {
    match size {
        Some(Ok((_, id))) => seq![id],
        _ => seq![],
    }
}

/// Every record the gates cited, gate by gate.
pub open spec fn report_cited(report: VerificationReport) -> Seq<EvidenceId> {
    report.outcomes@.flat_map(|o: GateOutcome| o.evidence@)
}

/// What one configuration's measurement records, from what its build, its
/// size measurement and its gates answered.
///
/// A build that errored counts as not built; build time is kept only where
/// it is measurable and the build succeeded; the evidence is the build's,
/// then the size's, then every gate's, in order.
pub fn measurement_of(
    configuration: &BuildConfiguration,
    build: Result<BuildOutcome, Error>,
    size: Option<Result<(u64, EvidenceId), Error>>,
    report: VerificationReport,
    build_time_measurable: bool,
) -> (m: MeasuredConfiguration)
    ensures
        m.configuration == *configuration,
        m.name@ == name_of(*configuration),
        m.built == (match build {
            Ok(o) => o.succeeded,
            Err(_) => false,
        }),
        m.artifact == (match build {
            Ok(o) => o.artifact,
            Err(_) => None,
        }),
        m.size_bytes == (match size {
            Some(Ok((bytes, _))) => Some(bytes),
            _ => None,
        }),
        m.build_time_nanos == (match build {
            Ok(o) => if build_time_measurable && o.succeeded { Some(o.duration_nanos) } else { None },
            Err(_) => None,
        }),
        m.runtime_nanos is None,
        m.report == report,
        m.evidence@ == build_cited(build) + size_cited(size) + report_cited(report),
{
    let ghost build0 = build;
    let ghost size0 = size;
    let mut evidence: Vec<EvidenceId> = Vec::new();
    let (built, artifact, build_time) = match build {
        Ok(o) => {
            evidence.push(o.evidence);
            (o.succeeded, o.artifact, o.duration_nanos)
        },
        Err(_) => (false, None, 0u64),
    };
    let size_bytes = match size {
        Some(Ok((bytes, id))) => {
            evidence.push(id);
            Some(bytes)
        },
        _ => None,
    };
    let ghost before = evidence@;
    assert(before =~= build_cited(build0) + size_cited(size0));
    let ghost f = |o: GateOutcome| o.evidence@;
    let mut i: usize = 0;
    while i < report.outcomes.len()
        invariant
            i <= report.outcomes@.len(),
            evidence@ == before + report.outcomes@.take(i as int).flat_map(f),
            f == (|o: GateOutcome| o.evidence@),
        decreases report.outcomes@.len() - i,
    {
        let ghost at_i = evidence@;
        let mut j: usize = 0;
        while j < report.outcomes[i].evidence.len()
            invariant
                i < report.outcomes@.len(),
                j <= report.outcomes@[i as int].evidence@.len(),
                evidence@ == at_i + report.outcomes@[i as int].evidence@.take(j as int),
            decreases report.outcomes@[i as int].evidence@.len() - j,
        {
            evidence.push(report.outcomes[i].evidence[j].clone());
            proof {
                assert(report.outcomes@[i as int].evidence@.take(j + 1)
                    =~= report.outcomes@[i as int].evidence@.take(j as int).push(report.outcomes@[i as int].evidence@[j as int]));
            }
            j = j + 1;
        }
        proof {
            assert(report.outcomes@[i as int].evidence@.take(j as int) =~= report.outcomes@[i as int].evidence@);
            report.outcomes@.lemma_flat_map_take_append(f, i as int);
        }
        i = i + 1;
    }
    proof {
        assert(report.outcomes@.take(i as int) =~= report.outcomes@);
    }
    MeasuredConfiguration {
        configuration: configuration.clone(),
        name: configuration.name(),
        built,
        artifact,
        size_bytes,
        build_time_nanos: if build_time_measurable && built { Some(build_time) } else { None },
        runtime_nanos: None,
        report,
        evidence,
    }
}

/// What the gates are handed: the configuration's name, what it has cited
/// so far, and its size against the baseline where both are known.
pub fn candidate_for(name: &str, evidence: &Vec<EvidenceId>, baseline: Option<u64>, size: Option<u64>) -> (c: Candidate)
    ensures
        c.name@ == name@,
        c.evidence@ == evidence@,
        c.size == match (baseline, size) {
            (Some(b), Some(s)) => Some((b, s)),
            _ => None,
        },
{
    Candidate {
        name: text_of(name),
        evidence: clone_ids(evidence),
        size: match (baseline, size) {
            (Some(b), Some(s)) => Some((b, s)),
            _ => None,
        },
    }
}

/// A report whose benchmark gate, where it has one, now fails with `detail`:
/// a regression found after every cheaper gate had passed.
pub fn reject_on_regression(report: &mut VerificationReport, detail: String)
    ensures
        final(report).candidate == old(report).candidate,
        final(report).outcomes@.len() == old(report).outcomes@.len(),
        forall|i: int| 0 <= i < old(report).outcomes@.len() ==> {
            let o = #[trigger] old(report).outcomes@[i];
            let n = final(report).outcomes@[i];
            if o.gate == Gate::BenchmarkNotWorse && forall|j: int| 0 <= j < i ==> (#[trigger] old(report).outcomes@[j]).gate != Gate::BenchmarkNotWorse {
                n.gate == o.gate && n.result == GateResult::Failed && n.detail == detail && n.caveat == o.caveat
                    && n.evidence@ == o.evidence@
            } else {
                n == o
            }
        },
{
    let mut i: usize = 0;
    while i < report.outcomes.len()
        invariant
            i <= report.outcomes@.len(),
            report.outcomes@ == old(report).outcomes@,
            report.candidate == old(report).candidate,
            forall|j: int| 0 <= j < i ==> (#[trigger] report.outcomes@[j]).gate != Gate::BenchmarkNotWorse,
        decreases report.outcomes@.len() - i,
    {
        if report.outcomes[i].gate == Gate::BenchmarkNotWorse {
            let ghost before = report.outcomes@;
            report.outcomes[i].result = GateResult::Failed;
            report.outcomes[i].detail = detail;
            assert forall|k: int| 0 <= k < before.len() && k != i implies report.outcomes@[k] == before[k] by {}
            return;
        }
        i = i + 1;
    }
}

/// `after` is `before` with events added, none of which ends the run.
pub open spec fn quietly_extends(before: Seq<EngineEvent>, after: Seq<EngineEvent>) -> bool {
    &&& before.len() <= after.len()
    &&& after.take(before.len() as int) == before
    &&& forall|k: int| before.len() <= k < after.len() ==> !terminal(#[trigger] after[k])
}

proof fn lemma_quiet_refl(s: Seq<EngineEvent>)
    ensures
        quietly_extends(s, s),
{
    assert(s.take(s.len() as int) =~= s);
}

proof fn lemma_quiet_trans(a: Seq<EngineEvent>, b: Seq<EngineEvent>, c: Seq<EngineEvent>)
    requires
        quietly_extends(a, b),
        quietly_extends(b, c),
    ensures
        quietly_extends(a, c),
{
    assert(c.take(a.len() as int) =~= c.take(b.len() as int).take(a.len() as int));
    assert forall|k: int| a.len() <= k < c.len() implies !terminal(#[trigger] c[k]) by {
        if k < b.len() {
            assert(c[k] == c.take(b.len() as int)[k]);
            assert(!terminal(b[k]));
        }
    }
}

/// Emit an event that does not end the run.
fn emit_quiet(events: &mut RecordedEvents, event: EngineEvent)
    requires
        !terminal(event),
    ensures
        final(events)@ == old(events)@.push(event),
        quietly_extends(old(events)@, final(events)@),
        forall|b: Seq<EngineEvent>| quietly_extends(b, old(events)@) ==> #[trigger] quietly_extends(b, final(events)@),
{
    events.emit(event);
    assert(final(events)@.take(old(events)@.len() as int) =~= old(events)@);
    assert forall|b: Seq<EngineEvent>| quietly_extends(b, old(events)@) implies #[trigger] quietly_extends(b, final(events)@) by {
        lemma_quiet_trans(b, old(events)@, final(events)@);
    }
}

/// The same configurations, by name, at the same places.
pub open spec fn same_names(a: Seq<MeasuredConfiguration>, b: Seq<MeasuredConfiguration>) -> bool {
    &&& a.len() == b.len()
    &&& forall|k: int| 0 <= k < a.len() ==> (#[trigger] b[k]).name == a[k].name && b[k].configuration == a[k].configuration
        && b[k].built == a[k].built && b[k].size_bytes == a[k].size_bytes && b[k].build_time_nanos == a[k].build_time_nanos
}

/// `after` is `before` and one run's events: it started first, and ended
/// once, last.
pub open spec fn one_run(before: Seq<EngineEvent>, after: Seq<EngineEvent>) -> bool {
    &&& before.len() + 2 <= after.len()
    &&& after.take(before.len() as int) == before
    &&& after[before.len() as int] is Started
    &&& terminal(after.last())
    &&& forall|k: int| before.len() <= k < after.len() - 1 ==> !terminal(#[trigger] after[k])
}

/// Each planned configuration is owed unless one of its name was measured.
proof fn lemma_owed_contains(planned: Seq<BuildConfiguration>, ms: Seq<MeasuredConfiguration>, i: int)
    requires
        0 <= i < planned.len(),
        !is_measured(ms, name_of(planned[i])),
    ensures
        owed(planned, ms).contains(planned[i]),
    decreases planned.len(),
{
    let rest = owed(planned.drop_last(), ms);
    if i == planned.len() - 1 {
        assert(owed(planned, ms) == rest.push(planned.last()));
        assert(owed(planned, ms)[rest.len() as int] == planned[i]);
    } else {
        assert(planned.drop_last()[i] == planned[i]);
        lemma_owed_contains(planned.drop_last(), ms, i);
        let k = choose|k: int| 0 <= k < rest.len() && rest[k] == planned[i];
        if !is_measured(ms, name_of(planned.last())) {
            assert(owed(planned, ms)[k] == planned[i]);
        }
    }
}

/// Nothing is owed once every planned configuration's name was measured.
proof fn lemma_owed_empty(planned: Seq<BuildConfiguration>, ms: Seq<MeasuredConfiguration>)
    requires
        forall|i: int| 0 <= i < planned.len() ==> is_measured(ms, name_of(#[trigger] planned[i])),
    ensures
        owed(planned, ms).len() == 0,
    decreases planned.len(),
{
    if planned.len() > 0 {
        assert forall|i: int| 0 <= i < planned.drop_last().len() implies is_measured(ms, name_of(#[trigger] planned.drop_last()[i])) by {
            assert(planned.drop_last()[i] == planned[i]);
        }
        lemma_owed_empty(planned.drop_last(), ms);
        assert(is_measured(ms, name_of(planned[planned.len() - 1])));
    }
}

/// What is owed never outgrows what was planned.
proof fn lemma_owed_len(planned: Seq<BuildConfiguration>, ms: Seq<MeasuredConfiguration>)
    ensures
        owed(planned, ms).len() <= planned.len(),
    decreases planned.len(),
{
    if planned.len() > 0 {
        lemma_owed_len(planned.drop_last(), ms);
    }
}

proof fn lemma_one_run(before: Seq<EngineEvent>, started: Seq<EngineEvent>, mid: Seq<EngineEvent>, last: EngineEvent)
    requires
        started.len() == before.len() + 1,
        started.take(before.len() as int) == before,
        started.last() is Started,
        quietly_extends(started, mid),
        terminal(last),
    ensures
        one_run(before, mid.push(last)),
{
    let after = mid.push(last);
    assert(after.take(before.len() as int) =~= mid.take(started.len() as int).take(before.len() as int));
    assert(after[before.len() as int] == mid.take(started.len() as int)[before.len() as int]);
    assert forall|k: int| before.len() <= k < after.len() - 1 implies !terminal(#[trigger] after[k]) by {
        assert(after[k] == mid[k]);
        if k == before.len() {
            assert(mid[k] == mid.take(started.len() as int)[k]);
        }
    }
}

/// Runs a matrix over one target.
pub struct Sweep {
    pub options: SweepOptions,
}

impl Sweep {
    /// Run, or resume, a sweep.
    ///
    /// Returns whatever was measured even when cancelled: the state is the
    /// result, and a cancelled sweep is a shorter run rather than a lost one.
    /// A resume measures only what is still owed, and a run that finishes owes
    /// nothing.
    pub fn run<B: SweepBackend>(&self, backend: &mut B, runner: &mut ToolRunner, target: &Target, state: &mut SweepState, events: &mut RecordedEvents, cancellation: &Cancellation) -> (r: Result<(), Error>)
        ensures
            final(state).run == old(state).run,
            final(state).target == old(state).target,
            final(state).planned == old(state).planned,
            one_run(old(events)@, final(events)@),
            final(events)@[old(events)@.len() as int] matches EngineEvent::Started { total, .. }
                && total == Some(old(state).planned@.len() as usize),
            // Nothing measured before is lost or renamed.
            old(state).measured@.len() <= final(state).measured@.len(),
            forall|k: int| 0 <= k < old(state).measured@.len() ==> (#[trigger] final(state).measured@[k]).name
                == old(state).measured@[k].name && final(state).measured@[k].configuration == old(state).measured@[k].configuration,
            // Only what was still owed is measured, once.
            final(state).measured@.len() <= old(state).measured@.len() + owed(old(state).planned@, old(state).measured@).len(),
            forall|k: int| old(state).measured@.len() <= k < final(state).measured@.len() ==> owed(
                old(state).planned@,
                old(state).measured@,
            ).contains((#[trigger] final(state).measured@[k]).configuration) && final(state).measured@[k].name@
                == name_of(final(state).measured@[k].configuration),
            // Runtimes only against a known noise floor, and only for what passed.
            forall|k: int| 0 <= k < old(state).measured@.len() && (#[trigger] final(state).measured@[k]).runtime_nanos
                != old(state).measured@[k].runtime_nanos ==> final(state).noise_floor is Some && passed(old(state).measured@[k]),
            forall|k: int| old(state).measured@.len() <= k < final(state).measured@.len()
                && (#[trigger] final(state).measured@[k]).runtime_nanos is Some ==> final(state).noise_floor is Some,
            // Build times only from a sweep that built one thing at a time.
            forall|k: int| old(state).measured@.len() <= k < final(state).measured@.len()
                ==> ((#[trigger] final(state).measured@[k]).build_time_nanos is Some ==> self.options.parallelism == 1),
            // How it ended.
            r is Err <==> final(events)@.last() is Failed,
            r matches Err(e) ==> final(events)@.last() matches EngineEvent::Failed { error, .. } && error@ == error_message(e),
            final(events)@.last() is Finished ==> final(state).complete && final(state).baseline_bytes is Some
                && owed(final(state).planned@, final(state).measured@).len() == 0,
            !(final(events)@.last() is Finished) ==> final(state).complete == old(state).complete,
            final(events)@.last() matches EngineEvent::Cancelled { run, completed } ==> r is Ok && run == old(state).run
                && completed == final(state).measured@.len(),
    {
        let ghost before = events@;
        let ghost start = *state;
        let remaining = state.remaining();
        proof { lemma_owed_len(state.planned@, state.measured@); }
        let (already, total) = state.progress();
        let description = start_description(already, total, remaining.len(), target.name.as_str());
        events.emit(EngineEvent::Started { run: state.run.clone(), description, total: Some(total) });
        let ghost started = events@;
        assert(started.take(before.len() as int) =~= before);
        proof { lemma_quiet_refl(events@); }
        if state.baseline_bytes.is_none() {
            match self.measure_baseline(backend, runner, target, state, events, cancellation) {
                Ok(()) => {},
                Err(Error::Cancelled) => {
                    let completed = state.measured.len();
                    let ghost mid = events@;
                    let last = EngineEvent::Cancelled { run: state.run.clone(), completed };
                    proof { lemma_one_run(before, started, mid, last); }
                    events.emit(last);
                    return Ok(());
                },
                Err(error) => {
                    let message = error.to_string();
                    let ghost mid = events@;
                    let last = EngineEvent::Failed { run: state.run.clone(), error: message };
                    proof { lemma_one_run(before, started, mid, last); }
                    events.emit(last);
                    return Err(error);
                },
            }
        }
        let ghost after_baseline = events@;
        let (mut measured, stopped_measuring) = self.measure_all(backend, runner, target, &remaining, state, events, cancellation);
        proof { lemma_quiet_trans(started, after_baseline, events@); }
        let ghost batch = measured@;
        state.measured.append(&mut measured);
        let ghost appended = state.measured@;
        assert(appended =~= start.measured@ + batch);
        let ghost after_all = events@;
        let mut stopped_timing = false;
        if backend.has_benchmark() {
            stopped_timing = self.benchmark_survivors(backend, runner, state, events, cancellation);
            proof { lemma_quiet_trans(started, after_all, events@); }
        }
        if stopped_measuring || stopped_timing || cancellation.is_cancelled() {
            let completed = state.measured.len();
            let ghost mid = events@;
            let last = EngineEvent::Cancelled { run: state.run.clone(), completed };
            proof { lemma_one_run(before, started, mid, last); }
            events.emit(last);
            return Ok(());
        }
        proof {
            assert forall|i: int| 0 <= i < state.planned@.len() implies is_measured(state.measured@, name_of(#[trigger] state.planned@[i])) by {
                let c = state.planned@[i];
                if is_measured(start.measured@, name_of(c)) {
                    let k = choose|k: int| 0 <= k < start.measured@.len() && (#[trigger] start.measured@[k]).name@ == name_of(c);
                    assert(appended[k] == start.measured@[k]);
                    assert(state.measured@[k].name == appended[k].name);
                } else {
                    lemma_owed_contains(start.planned@, start.measured@, i);
                    let k = choose|k: int| 0 <= k < remaining@.len() && remaining@[k] == c;
                    let j = choose|j: int| 0 <= j < batch.len() && (#[trigger] batch[j]).configuration == remaining@[k]
                        && batch[j].name@ == name_of(remaining@[k]);
                    assert(appended[start.measured@.len() + j] == batch[j]);
                    assert(state.measured@[start.measured@.len() + j].name == batch[j].name);
                }
            }
            lemma_owed_empty(state.planned@, state.measured@);
        }
        state.complete = true;
        let frontier = state.frontier();
        let ghost before_findings = events@;
        proof { lemma_quiet_refl(events@); }
        let mut f: usize = 0;
        while f < frontier.len()
            invariant
                f <= frontier@.len(),
                forall|i: int| 0 <= i < frontier@.len() ==> on_frontier(points_of(state.measured@), #[trigger] frontier@[i] as int),
                quietly_extends(before_findings, events@),
            decreases frontier@.len() - f,
        {
            let index = frontier[f];
            assert(on_frontier(points_of(state.measured@), frontier@[f as int] as int));
            match frontier_finding(state, &state.measured[index], runner.store()) {
                Ok(finding) => {
                    emit_quiet(events, EngineEvent::Finding { run: state.run.clone(), finding: Box::new(finding) });
                },
                Err(_) => {},
            }
            f = f + 1;
        }
        proof { lemma_quiet_trans(started, before_findings, events@); }
        let under = match state.best_size_reduction() {
            Some((baseline, best)) => if best < baseline { backend.percent_under(baseline, best) } else { String::new() },
            None => String::new(),
        };
        let line = summary(state, under.as_str());
        let ghost mid = events@;
        let last = EngineEvent::Finished { run: state.run.clone(), summary: line };
        proof { lemma_one_run(before, started, mid, last); }
        events.emit(last);
        Ok(())
    }

    /// Build default release, measure it, and time it repeatedly to learn how
    /// noisy this machine is.
    fn measure_baseline<B: SweepBackend>(&self, backend: &mut B, runner: &mut ToolRunner, target: &Target, state: &mut SweepState, events: &mut RecordedEvents, cancellation: &Cancellation) -> (r: Result<(), Error>)
        ensures
            final(state).run == old(state).run,
            final(state).target == old(state).target,
            final(state).planned == old(state).planned,
            final(state).measured == old(state).measured,
            final(state).complete == old(state).complete,
            r is Ok ==> final(state).baseline_bytes is Some,
            quietly_extends(old(events)@, final(events)@),
    {
        proof { lemma_quiet_refl(events@); }
        if cancellation.is_cancelled() {
            return Err(Error::Cancelled);
        }
        emit_quiet(events, EngineEvent::Progress {
            run: state.run.clone(),
            completed: 0,
            message: text_of("Measuring the baseline: default release"),
        });
        let baseline = BuildConfiguration::default_release();
        let outcome = match backend.build(runner, target, &baseline) {
            Ok(o) => o,
            Err(e) => return Err(e),
        };
        let artifact = match outcome.artifact {
            Some(a) => a,
            None => return Err(Error::Other(text_of("default release does not build; there is nothing to compare to"))),
        };
        let size = match backend.measure_size(runner, artifact.as_str()) {
            Ok((size, _)) => size,
            Err(e) => return Err(e),
        };
        state.baseline_bytes = Some(size);
        if backend.has_benchmark() {
            if cancellation.is_cancelled() {
                return Err(Error::Cancelled);
            }
            let mut message = text_of("Establishing the noise floor over ");
            push_decimal(&mut message, self.options.noise_floor_samples as u64);
            push_text(&mut message, " runs of the unchanged binary");
            emit_quiet(events, EngineEvent::Progress { run: state.run.clone(), completed: 0, message });
            let mut durations: Vec<u64> = Vec::new();
            let mut n: u32 = 0;
            while n < self.options.noise_floor_samples
                invariant
                    state.run == old(state).run,
                    state.target == old(state).target,
                    state.planned == old(state).planned,
                    state.measured == old(state).measured,
                    state.complete == old(state).complete,
                    state.baseline_bytes is Some,
                    quietly_extends(old(events)@, events@),
                    n <= self.options.noise_floor_samples,
                decreases self.options.noise_floor_samples - n,
            {
                if cancellation.is_cancelled() {
                    return Err(Error::Cancelled);
                }
                let mut more = match backend.samples(runner, artifact.as_str()) {
                    Ok(m) => m,
                    Err(e) => return Err(e),
                };
                durations.append(&mut more);
                n = n + 1;
            }
            state.noise_floor = if durations.len() > 0 { Some(durations) } else { None };
        }
        Ok(())
    }

    /// Build, size and gate every configuration, in order, until the sweep is
    /// told to stop. Each one streams its progress and its finding as it is
    /// measured. Returns what was measured, by name, and whether it stopped
    /// early.
    fn measure_all<B: SweepBackend>(
        &self,
        backend: &mut B,
        runner: &mut ToolRunner,
        target: &Target,
        configurations: &Vec<BuildConfiguration>,
        state: &SweepState,
        events: &mut RecordedEvents,
        cancellation: &Cancellation,
    ) -> (r: (Vec<MeasuredConfiguration>, bool))
        ensures
            quietly_extends(old(events)@, final(events)@),
            r.0@.len() <= configurations@.len(),
            forall|j: int| 0 <= j < r.0@.len() ==> exists|k: int| 0 <= k < configurations@.len()
                && (#[trigger] r.0@[j]).configuration == configurations@[k] && r.0@[j].name@ == name_of(configurations@[k]),
            forall|j: int| 0 <= j < r.0@.len() ==> ((#[trigger] r.0@[j]).build_time_nanos is Some
                ==> self.options.parallelism == 1 && r.0@[j].built),
            forall|j: int| 0 <= j < r.0@.len() ==> (#[trigger] r.0@[j]).runtime_nanos is None,
            !r.1 ==> forall|k: int| 0 <= k < configurations@.len() ==> exists|j: int| 0 <= j < r.0@.len()
                && (#[trigger] r.0@[j]).configuration == #[trigger] configurations@[k] && r.0@[j].name@ == name_of(configurations@[k]),
    {
        proof { lemma_quiet_refl(events@); }
        let mut done: usize = state.measured.len();
        let mut results: Vec<MeasuredConfiguration> = Vec::new();
        let mut stopped = false;
        let mut index: usize = 0;
        while index < configurations.len()
            invariant_except_break
                !stopped,
            invariant
                index <= configurations@.len(),
                results@.len() == index,
                forall|k: int| 0 <= k < index ==> (#[trigger] results@[k]).configuration == configurations@[k]
                    && results@[k].name@ == name_of(configurations@[k])
                    && (results@[k].build_time_nanos is Some ==> self.options.parallelism == 1 && results@[k].built)
                    && results@[k].runtime_nanos is None,
                quietly_extends(old(events)@, events@),
            ensures
                !stopped ==> index == configurations@.len(),
            decreases configurations@.len() - index,
        {
            if cancellation.is_cancelled() {
                stopped = true;
                break;
            }
            let measured = self.measure_one(backend, runner, target, &configurations[index], state.baseline_bytes);
            done = done.wrapping_add(1);
            let mut message = text_of(measured.name.as_str());
            push_text(&mut message, ": ");
            let verdict = measured.report.summary();
            let lowered = lowercase_text(verdict.as_str());
            push_text(&mut message, lowered.as_str());
            emit_quiet(events, EngineEvent::Progress { run: state.run.clone(), completed: done, message });
            match configuration_finding(state, &measured, runner.store()) {
                Ok(finding) => {
                    emit_quiet(events, EngineEvent::Finding { run: state.run.clone(), finding: Box::new(finding) });
                },
                Err(_) => {},
            }
            results.push(measured);
            index = index + 1;
        }
        let ghost unsorted = results@;
        let sorted = sort_by_key(results);
        proof {
            lemma_sorted_len(unsorted);
            assert forall|j: int| 0 <= j < sorted@.len() implies exists|k: int| 0 <= k < configurations@.len()
                && (#[trigger] sorted@[j]).configuration == configurations@[k] && sorted@[j].name@ == name_of(configurations@[k]) by {
                lemma_sorted_contains(unsorted, sorted@[j]);
                assert(sorted@.contains(sorted@[j]));
                let k = choose|k: int| 0 <= k < unsorted.len() && unsorted[k] == sorted@[j];
            }
            assert forall|j: int| 0 <= j < sorted@.len() && (#[trigger] sorted@[j]).build_time_nanos is Some
                implies self.options.parallelism == 1 && sorted@[j].built by {
                lemma_sorted_contains(unsorted, sorted@[j]);
                assert(sorted@.contains(sorted@[j]));
                let k = choose|k: int| 0 <= k < unsorted.len() && unsorted[k] == sorted@[j];
            }
            assert forall|j: int| 0 <= j < sorted@.len() implies (#[trigger] sorted@[j]).runtime_nanos is None by {
                lemma_sorted_contains(unsorted, sorted@[j]);
                assert(sorted@.contains(sorted@[j]));
                let k = choose|k: int| 0 <= k < unsorted.len() && unsorted[k] == sorted@[j];
            }
            if !stopped {
                assert forall|k: int| 0 <= k < configurations@.len() implies exists|j: int| 0 <= j < sorted@.len()
                    && (#[trigger] sorted@[j]).configuration == #[trigger] configurations@[k] && sorted@[j].name@ == name_of(configurations@[k]) by {
                    lemma_sorted_contains(unsorted, unsorted[k]);
                    assert(unsorted.contains(unsorted[k]));
                    let j = choose|j: int| 0 <= j < sorted@.len() && sorted@[j] == unsorted[k];
                }
            }
        }
        (sorted, stopped)
    }

    /// Time the configurations that passed their gates, one at a time,
    /// always. A regression found here rejects a configuration that had passed
    /// everything cheaper; it stays in the table, rejected by the benchmark
    /// check that caught it. Returns whether it was told to stop.
    fn benchmark_survivors<B: SweepBackend>(&self, backend: &mut B, runner: &mut ToolRunner, state: &mut SweepState, events: &mut RecordedEvents, cancellation: &Cancellation) -> (stopped: bool)
        ensures
            quietly_extends(old(events)@, final(events)@),
            final(state).run == old(state).run,
            final(state).target == old(state).target,
            final(state).planned == old(state).planned,
            final(state).noise_floor == old(state).noise_floor,
            final(state).baseline_bytes == old(state).baseline_bytes,
            final(state).complete == old(state).complete,
            same_names(old(state).measured@, final(state).measured@),
            forall|k: int| 0 <= k < old(state).measured@.len() && (#[trigger] final(state).measured@[k]).runtime_nanos
                != old(state).measured@[k].runtime_nanos ==> final(state).noise_floor is Some && passed(old(state).measured@[k]),
    {
        proof { lemma_quiet_refl(events@); }
        if !backend.has_benchmark() {
            return false;
        }
        let floor = match &state.noise_floor {
            Some(f) => f.clone(),
            None => return false,
        };
        let ghost kept = state.measured@;
        let mut index: usize = 0;
        while index < state.measured.len()
            invariant
                quietly_extends(old(events)@, events@),
                state.run == old(state).run,
                state.target == old(state).target,
                state.planned == old(state).planned,
                state.noise_floor == old(state).noise_floor,
                state.baseline_bytes == old(state).baseline_bytes,
                state.complete == old(state).complete,
                kept == old(state).measured@,
                same_names(kept, state.measured@),
                index <= state.measured@.len(),
                state.noise_floor is Some,
                forall|k: int| index <= k < kept.len() ==> #[trigger] state.measured@[k] == kept[k],
                forall|k: int| 0 <= k < kept.len() && (#[trigger] state.measured@[k]).runtime_nanos != kept[k].runtime_nanos
                    ==> passed(kept[k]),
            decreases state.measured@.len() - index,
        {
            if cancellation.is_cancelled() {
                return true;
            }
            if !state.measured[index].report.passed() {
                index = index + 1;
                continue;
            }
            let mut message = text_of("Timing ");
            push_text(&mut message, state.measured[index].name.as_str());
            push_text(&mut message, ", one run at a time");
            emit_quiet(events, EngineEvent::Progress { run: state.run.clone(), completed: index, message });
            let artifact = match &state.measured[index].artifact {
                Some(path) => text_of(path.as_str()),
                None => {
                    index = index + 1;
                    continue;
                },
            };
            if !backend.artifact_exists(artifact.as_str()) {
                index = index + 1;
                continue;
            }
            let durations = match backend.samples(runner, artifact.as_str()) {
                Ok(d) => d,
                Err(_) => {
                    index = index + 1;
                    continue;
                },
            };
            let timing = backend.compare(&floor, &durations);
            state.measured[index].runtime_nanos = timing.median_nanos;
            match timing.regression {
                Some(detail) => reject_on_regression(&mut state.measured[index].report, detail),
                None => {},
            }
            index = index + 1;
        }
        false
    }

    /// Build, size and gate one configuration.
    fn measure_one<B: SweepBackend>(&self, backend: &mut B, runner: &mut ToolRunner, target: &Target, configuration: &BuildConfiguration, baseline: Option<u64>) -> (m: MeasuredConfiguration)
        ensures
            m.configuration == *configuration,
            m.name@ == name_of(*configuration),
            m.runtime_nanos is None,
            m.size_bytes is Some ==> m.artifact is Some,
            m.build_time_nanos is Some ==> self.options.parallelism == 1 && m.built,
    {
        let name = configuration.name();
        let build = backend.build(runner, target, configuration);
        let mut cited: Vec<EvidenceId> = Vec::new();
        let mut artifact: Option<String> = None;
        if let Ok(o) = &build {
            cited.push(o.evidence.clone());
            artifact = clone_text_option(&o.artifact);
        }
        let size = match &artifact {
            Some(path) => Some(backend.measure_size(runner, path.as_str())),
            None => None,
        };
        let mut size_bytes: Option<u64> = None;
        if let Some(Ok((bytes, id))) = &size {
            cited.push(id.clone());
            size_bytes = Some(*bytes);
        }
        let candidate = candidate_for(name.as_str(), &cited, baseline, size_bytes);
        let report = backend.verify(runner, &candidate);
        measurement_of(configuration, build, size, report, self.options.build_time_is_measurable())
    }
}

} // verus!
