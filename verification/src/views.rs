//! What the frame and the panels show, worked out from the state: the status
//! line, the environment panel's counts, the Inspector's tabs and tallies,
//! the rail's glyphs, and the table's shortened flags. Drawing them is the
//! interface's; deciding them is here, where it can be checked.

use crate::config::TrustTier;
use crate::evidence::{command_line_of, Evidence};
use crate::gate::GateResult;
use crate::facade::{measurement_passed, Measurement, Probe, ProbeStatus};
use crate::finding::{Impact, confidence_label, provenance_glyph, provenance_label, Confidence, Finding, Provenance};
use crate::location::location_text;
use crate::state::{probes_in, group_order, AppState, RunPhase, RunProgress, View};
use crate::text::{ascii_uppercase, contains_text, lemma_position_of, position_of, text_contains, text_eq, join, join_strings, lines, lines_of, chars_of, decimal, push_char, push_decimal, push_text, text_of, text_of_chars, uppercase_text};
use vstd::prelude::*;
use vstd::view::View as _;

verus! {

/// The first running run, if any, else the last.
pub open spec fn first_running(runs: Seq<RunProgress>) -> Option<int> {
    if exists|i: int| 0 <= i < runs.len() && (#[trigger] runs[i]).state is Running {
        Some(choose|i: int| 0 <= i < runs.len() && (#[trigger] runs[i]).state is Running
            && forall|j: int| 0 <= j < i ==> !((#[trigger] runs[j]).state is Running))
    } else if runs.len() > 0 {
        Some(runs.len() - 1)
    } else {
        None
    }
}

/// What the status bar says about one run.
pub open spec fn status_message(run: RunProgress) -> Seq<char> {
    match run.state {
        RunPhase::Running => if run.message@.len() == 0 { run.description@ } else { run.message@ },
        RunPhase::Finished { summary } => summary@,
        RunPhase::Cancelled { completed } => "Cancelled after "@ + decimal(completed as nat)
            + "; everything measured was kept"@,
        RunPhase::Failed { error } => error@,
    }
}

/// The status bar: what the engine is doing, and what the session costs.
///
/// A run in flight shows its progress here and nowhere else, so the views
/// never have to reserve space for a bar that is usually absent.
#[derive(Debug, PartialEq, Eq)]
pub struct StatusBar {
    pub message: String,
    /// `(completed, total)` where the total is known.
    pub progress: Option<(usize, usize)>,
    pub running: bool,
    pub findings: usize,
}

impl StatusBar {
    /// The most recent run that is still going, else the last thing that
    /// happened, else the idle line.
    pub fn of(state: &AppState) -> (s: Self)
        ensures
            s.findings == state.spec_findings().len(),
            match first_running(state.spec_runs()) {
                None => s.message@ == "Ready"@ && s.progress is None && !s.running,
                Some(i) => {
                    let run = state.spec_runs()[i];
                    &&& s.message@ == status_message(run)
                    &&& s.progress == match run.total {
                        Some(t) => Some((run.completed, t)),
                        None => None,
                    }
                    &&& s.running == (run.state is Running)
                },
            },
    {
        let runs = state.runs();
        let findings = state.findings().len();
        let mut chosen: Option<usize> = None;
        let mut i: usize = 0;
        while i < runs.len()
            invariant
                i <= runs@.len(),
                runs@.len() == state.spec_runs().len(),
                forall|k: int| 0 <= k < runs@.len() ==> *(#[trigger] runs@[k]) == state.spec_runs()[k],
                chosen is None ==> forall|j: int| 0 <= j < i ==> !((#[trigger] state.spec_runs()[j]).state is Running),
                chosen matches Some(c) ==> c < runs@.len() && (state.spec_runs()[c as int].state is Running)
                    && forall|j: int| 0 <= j < c ==> !((#[trigger] state.spec_runs()[j]).state is Running),
            decreases runs@.len() - i,
        {
            if chosen.is_none() && runs[i].is_running() {
                chosen = Some(i);
            }
            i = i + 1;
        }
        let index = match chosen {
            Some(c) => Some(c),
            None => if runs.len() > 0 { Some(runs.len() - 1) } else { None },
        };
        proof {
            let rs = state.spec_runs();
            match chosen {
                Some(c) => {
                    assert(exists|i: int| 0 <= i < rs.len() && (#[trigger] rs[i]).state is Running) by {
                        assert(rs[c as int].state is Running);
                    }
                    let w = choose|i: int| 0 <= i < rs.len() && (#[trigger] rs[i]).state is Running
                        && forall|j: int| 0 <= j < i ==> !((#[trigger] rs[j]).state is Running);
                    if w < c {
                        assert(!(rs[w].state is Running));
                    }
                    if c < w {
                        assert(!(rs[c as int].state is Running));
                    }
                },
                None => {},
            }
        }
        match index {
            None => StatusBar { message: text_of("Ready"), progress: None, running: false, findings },
            Some(k) => {
                let run = runs[k];
                let message = match &run.state {
                    RunPhase::Running => {
                        if chars_of(run.message.as_str()).len() == 0 {
                            text_of(run.description.as_str())
                        } else {
                            text_of(run.message.as_str())
                        }
                    },
                    RunPhase::Finished { summary } => text_of(summary.as_str()),
                    RunPhase::Cancelled { completed } => {
                        let mut m = text_of("Cancelled after ");
                        push_decimal(&mut m, *completed as u64);
                        push_text(&mut m, "; everything measured was kept");
                        m
                    },
                    RunPhase::Failed { error } => text_of(error.as_str()),
                };
                let progress = match run.total {
                    Some(t) => Some((run.completed, t)),
                    None => None,
                };
                StatusBar { message, progress, running: run.is_running(), findings }
            },
        }
    }
}

/// How many of `ps` have `status`.
pub open spec fn with_status(ps: Seq<Probe>, status: ProbeStatus) -> nat
    decreases ps.len(),
{
    if ps.len() == 0 {
        0
    } else {
        with_status(ps.drop_last(), status) + if ps.last().status == status { 1nat } else { 0nat }
    }
}

proof fn lemma_with_status_bound(ps: Seq<Probe>, status: ProbeStatus)
    ensures
        with_status(ps, status) <= ps.len(),
    decreases ps.len(),
{
    if ps.len() > 0 {
        lemma_with_status_bound(ps.drop_last(), status);
    }
}

fn count_status(ps: &[Probe], status: ProbeStatus) -> (n: usize)
    ensures
        n == with_status(ps@, status),
{
    let mut n: usize = 0;
    let mut i: usize = 0;
    while i < ps.len()
        invariant
            i <= ps@.len(),
            n == with_status(ps@.take(i as int), status),
        decreases ps@.len() - i,
    {
        assert(ps@.take(i + 1).drop_last() =~= ps@.take(i as int));
        proof { lemma_with_status_bound(ps@.take(i as int), status); }
        if ps[i].status == status {
            n = n + 1;
        }
        i = i + 1;
    }
    assert(ps@.take(ps@.len() as int) =~= ps@);
    n
}

/// The environment panel: the probes in their groups, and how many need
/// attention of each kind.
#[derive(Debug, PartialEq, Eq)]
pub struct EnvironmentPanel {
    pub groups: Vec<(String, Vec<Probe>)>,
    /// Probes that found a tool that does not work.
    pub warnings: usize,
    /// Probes that found nothing.
    pub missing: usize,
}

impl EnvironmentPanel {
    pub fn of(state: &AppState) -> (p: Self)
        ensures
            p.warnings == with_status(state.spec_probes(), ProbeStatus::Unusable),
            p.missing == with_status(state.spec_probes(), ProbeStatus::Missing),
            p.groups@.len() == group_order(state.spec_probes()).len(),
            forall|i: int| 0 <= i < p.groups@.len() ==> {
                let g = group_order(state.spec_probes())[i];
                &&& (#[trigger] p.groups@[i]).0@ == g
                &&& p.groups@[i].1@ == probes_in(state.spec_probes(), g)
            },
    {
        let grouped = state.probes_by_group();
        let mut groups: Vec<(String, Vec<Probe>)> = Vec::new();
        let mut i: usize = 0;
        while i < grouped.len()
            invariant
                i <= grouped@.len(),
                grouped@.len() == group_order(state.spec_probes()).len(),
                forall|k: int| 0 <= k < grouped@.len() ==> {
                    let g = group_order(state.spec_probes())[k];
                    &&& (#[trigger] grouped@[k]).0@ == g
                    &&& grouped@[k].1@.len() == probes_in(state.spec_probes(), g).len()
                    &&& forall|j: int| 0 <= j < grouped@[k].1@.len() ==> *(#[trigger] grouped@[k].1@[j])
                        == probes_in(state.spec_probes(), g)[j]
                },
                groups@.len() == i,
                forall|k: int| 0 <= k < i ==> {
                    let g = group_order(state.spec_probes())[k];
                    &&& (#[trigger] groups@[k]).0@ == g
                    &&& groups@[k].1@ == probes_in(state.spec_probes(), g)
                },
            decreases grouped@.len() - i,
        {
            let (name, members) = (grouped[i].0, &grouped[i].1);
            let ghost g = group_order(state.spec_probes())[i as int];
            let mut owned: Vec<Probe> = Vec::new();
            let mut j: usize = 0;
            while j < members.len()
                invariant
                    j <= members@.len(),
                    members@.len() == probes_in(state.spec_probes(), g).len(),
                    forall|x: int| 0 <= x < members@.len() ==> *(#[trigger] members@[x]) == probes_in(state.spec_probes(), g)[x],
                    owned@ =~= probes_in(state.spec_probes(), g).take(j as int),
                decreases members@.len() - j,
            {
                owned.push(members[j].clone());
                j = j + 1;
            }
            assert(owned@ =~= probes_in(state.spec_probes(), g));
            groups.push((text_of(name), owned));
            i = i + 1;
        }
        let warnings = count_status(state.probes(), ProbeStatus::Unusable);
        let missing = count_status(state.probes(), ProbeStatus::Missing);
        EnvironmentPanel { groups, warnings, missing }
    }
}

/// How a probe's result is shown: a word, and the tone it is drawn in.
#[derive(Debug, Clone, Copy, PartialEq, Eq, Structural)]
pub enum Tone {
    Pass,
    Fail,
    Warn,
    Info,
    Neutral,
    Accent,
}

/// The badge beside one probe.
pub fn status_badge(status: ProbeStatus) -> (r: (&'static str, Tone))
    ensures
        r.0@ == match status {
            ProbeStatus::Present => "ok"@,
            ProbeStatus::Unusable => "warn"@,
            ProbeStatus::Missing => "missing"@,
        },
        r.1 == match status {
            ProbeStatus::Present => Tone::Pass,
            ProbeStatus::Unusable => Tone::Warn,
            ProbeStatus::Missing => Tone::Fail,
        },
{
    match status {
        ProbeStatus::Present => ("ok", Tone::Pass),
        ProbeStatus::Unusable => ("warn", Tone::Warn),
        ProbeStatus::Missing => ("missing", Tone::Fail),
    }
}

/// The rail's glyph for a view. The shapes carry the same distinctions as
/// the design's icons.
pub open spec fn view_glyph(view: View) -> Seq<char> {
    match view {
        View::Target => "◉"@,
        View::Size => "▦"@,
        View::Tune => "⚙"@,
        View::Failure => "◈"@,
        View::Perf => "◭"@,
        View::Load => "◷"@,
        View::Replay => "⟲"@,
        View::Agent => "◇"@,
        View::Environment => "⌁"@,
    }
}

pub fn glyph(view: View) -> (s: &'static str)
    ensures
        s@ == view_glyph(view),
{
    match view {
        View::Target => "◉",
        View::Size => "▦",
        View::Tune => "⚙",
        View::Failure => "◈",
        View::Perf => "◭",
        View::Load => "◷",
        View::Replay => "⟲",
        View::Agent => "◇",
        View::Environment => "⌁",
    }
}

/// The widest the flags column is, in characters.
pub const FLAGS_LIMIT: usize = 26;

/// The position of the last space in `s`, if there is one.
pub open spec fn last_space(s: Seq<char>) -> Option<int>
    decreases s.len(),
{
    if s.len() == 0 {
        None
    } else if s.last() == ' ' {
        Some(s.len() - 1)
    } else {
        last_space(s.drop_last())
    }
}

/// The flags, shortened to fit the table's column: cut to one short of the
/// limit, back to the last space where that keeps more than half of it, and
/// marked with an ellipsis.
pub open spec fn shortened(flags: Seq<char>) -> Seq<char> {
    if flags.len() <= FLAGS_LIMIT {
        flags
    } else {
        let kept = flags.take(FLAGS_LIMIT - 1);
        match last_space(kept) {
            Some(i) if i > FLAGS_LIMIT / 2 => kept.take(i) + " …"@,
            _ => kept + "…"@,
        }
    }
}

/// The flags as the table's column shows them. The full string is in the
/// selected-configuration panel, where someone reading one configuration
/// closely is looking.
pub fn short_flags(flags: &str) -> (s: String)
    ensures
        s@ == shortened(flags@),
{
    let c = chars_of(flags);
    if c.len() <= FLAGS_LIMIT {
        return text_of(flags);
    }
    let end = FLAGS_LIMIT - 1;
    let ghost kept = flags@.take(end as int);
    let mut p: usize = end;
    assert(kept.take(end as int) =~= kept);
    while p > 0 && c[p - 1] != ' '
        invariant
            p <= end,
            end < c@.len(),
            c@ == flags@,
            kept == flags@.take(end as int),
            last_space(kept) == last_space(kept.take(p as int)),
        decreases p,
    {
        assert(kept.take(p as int).drop_last() =~= kept.take(p - 1));
        assert(kept.take(p as int).last() == c@[p - 1]);
        p = p - 1;
    }
    proof {
        if p > 0 {
            assert(kept.take(p as int).last() == ' ');
        } else {
            assert(kept.take(0) =~= Seq::<char>::empty());
        }
    }
    if p > 0 && p - 1 > FLAGS_LIMIT / 2 {
        let mut s = text_of_chars(&c, 0, p - 1);
        push_text(&mut s, " …");
        assert(c@.subrange(0, p - 1) =~= kept.take(p - 1));
        s
    } else {
        let mut s = text_of_chars(&c, 0, end);
        push_text(&mut s, "…");
        assert(c@.subrange(0, end as int) =~= kept);
        s
    }
}

/// Which tab of the Inspector is showing.
#[derive(Debug, Clone, Copy, PartialEq, Eq, Structural)]
pub enum Tab {
    Hypothesis,
    Evidence,
    Proposal,
}

pub open spec fn tab_label(t: Tab) -> Seq<char> {
    match t {
        Tab::Hypothesis => "Hypothesis"@,
        Tab::Evidence => "Evidence"@,
        Tab::Proposal => "Proposal"@,
    }
}

impl Default for Tab {
    fn default() -> (t: Self)
        ensures
            t == Tab::Hypothesis,
    {
        Tab::Hypothesis
    }
}

impl Tab {
    pub const ALL: [Tab; 3] = [Tab::Hypothesis, Tab::Evidence, Tab::Proposal];

    pub fn label(self) -> (s: &'static str)
        ensures
            s@ == tab_label(self),
    {
        match self {
            Tab::Hypothesis => "Hypothesis",
            Tab::Evidence => "Evidence",
            Tab::Proposal => "Proposal",
        }
    }
}

/// Whether a provenance is an inference, ours or an outside agent's.
pub open spec fn inferred(p: Provenance) -> bool {
    p is InferredNatively || p is InferredExternally
}

/// How many of `fs` were measured.
pub open spec fn measured_count(fs: Seq<Finding>) -> nat
    decreases fs.len(),
{
    if fs.len() == 0 {
        0
    } else {
        measured_count(fs.drop_last()) + if fs.last().provenance is Measured { 1nat } else { 0nat }
    }
}

/// How many of `fs` were inferred.
pub open spec fn inferred_count(fs: Seq<Finding>) -> nat
    decreases fs.len(),
{
    if fs.len() == 0 {
        0
    } else {
        inferred_count(fs.drop_last()) + if inferred(fs.last().provenance) { 1nat } else { 0nat }
    }
}

proof fn lemma_counts_bound(fs: Seq<Finding>)
    ensures
        measured_count(fs) <= fs.len(),
        inferred_count(fs) <= fs.len(),
    decreases fs.len(),
{
    if fs.len() > 0 {
        lemma_counts_bound(fs.drop_last());
    }
}

/// The Findings Inspector: the selected finding and its evidence, the tab
/// showing, and how the session's findings divide between measured and
/// inferred.
#[derive(Debug)]
pub struct Inspector {
    pub finding: Option<Finding>,
    pub evidence: Vec<Evidence>,
    pub tab: Tab,
    pub measured: usize,
    pub inferred: usize,
}

impl Inspector {
    pub fn new(finding: Option<Finding>, evidence: Vec<Evidence>, tab: Tab, all: &[Finding]) -> (i: Self)
        ensures
            i.finding == finding,
            i.evidence == evidence,
            i.tab == tab,
            i.measured == measured_count(all@),
            i.inferred == inferred_count(all@),
    {
        let mut measured: usize = 0;
        let mut inferred_findings: usize = 0;
        let mut k: usize = 0;
        while k < all.len()
            invariant
                k <= all@.len(),
                measured == measured_count(all@.take(k as int)),
                inferred_findings == inferred_count(all@.take(k as int)),
            decreases all@.len() - k,
        {
            assert(all@.take(k + 1).drop_last() =~= all@.take(k as int));
            proof { lemma_counts_bound(all@.take(k as int)); }
            match &all[k].provenance {
                Provenance::Measured => {
                    measured = measured + 1;
                },
                Provenance::InferredNatively { .. } | Provenance::InferredExternally { .. } => {
                    inferred_findings = inferred_findings + 1;
                },
                Provenance::Derived { .. } => {},
            }
            k = k + 1;
        }
        assert(all@.take(all@.len() as int) =~= all@);
        Inspector { finding, evidence, tab, measured, inferred: inferred_findings }
    }
}

/// What a provenance badge shows, left to right: the provenance glyph, its
/// word when spelled out, the confidence (capitalised when spelled out), and
/// `EXTERNAL` for a claim an outside agent made.
pub open spec fn badge_texts(provenance: Provenance, confidence: Confidence, verbose: bool) -> Seq<Seq<char>> {
    seq![seq![provenance_glyph(provenance)]]
        + (if verbose { seq![ascii_uppercase(provenance_label(provenance))] } else { seq![] })
        + seq![if verbose { ascii_uppercase(confidence_label(confidence)) } else { confidence_label(confidence) }]
        + (if provenance is InferredExternally { seq!["EXTERNAL"@] } else { seq![] })
}

/// How a claim came to be believed, and how far it can be trusted.
///
/// Built from a finding and nothing else: the two halves are read off the
/// finding rather than passed in, so a measured claim cannot be labelled
/// inferred by a caller getting its arguments the wrong way round.
#[derive(Debug)]
pub struct ProvenanceBadge {
    provenance: Provenance,
    confidence: Confidence,
    verbose: bool,
}

impl ProvenanceBadge {
    pub closed spec fn spec_provenance(&self) -> Provenance {
        self.provenance
    }

    pub closed spec fn spec_confidence(&self) -> Confidence {
        self.confidence
    }

    pub closed spec fn spec_verbose(&self) -> bool {
        self.verbose
    }

    /// The only constructor: the badge of `finding`, glyph only.
    pub fn of(finding: &Finding) -> (b: Self)
        ensures
            b.spec_provenance() == finding.provenance,
            b.spec_confidence() == finding.confidence,
            !b.spec_verbose(),
    {
        ProvenanceBadge { provenance: finding.provenance.clone(), confidence: finding.confidence, verbose: false }
    }

    /// Spell out both words, as the Inspector header does.
    pub fn verbose(self) -> (b: Self)
        ensures
            b.spec_provenance() == self.spec_provenance(),
            b.spec_confidence() == self.spec_confidence(),
            b.spec_verbose(),
    {
        ProvenanceBadge { verbose: true, ..self }
    }

    pub fn provenance(&self) -> (p: &Provenance)
        ensures
            *p == self.spec_provenance(),
    {
        &self.provenance
    }

    pub fn confidence(&self) -> (c: Confidence)
        ensures
            c == self.spec_confidence(),
    {
        self.confidence
    }

    /// The badge's texts, left to right.
    pub fn texts(&self) -> (r: Vec<String>)
        ensures
            r@.map_values(|t: String| t@) == badge_texts(self.spec_provenance(), self.spec_confidence(), self.spec_verbose()),
    {
        let mut r: Vec<String> = Vec::new();
        let mut glyph = String::new();
        push_char(&mut glyph, self.provenance.glyph());
        r.push(glyph);
        if self.verbose {
            r.push(uppercase_text(self.provenance.label()));
            r.push(uppercase_text(self.confidence.label()));
        } else {
            r.push(text_of(self.confidence.label()));
        }
        if self.provenance.is_external() {
            r.push(text_of("EXTERNAL"));
        }
        proof {
            let want = badge_texts(self.provenance, self.confidence, self.verbose);
            assert(r@.map_values(|t: String| t@) =~= want);
        }
        r
    }
}

/// `n` with its sign always written, as `{:+}` formats it.
pub open spec fn explicitly_signed(n: int) -> Seq<char> {
    if n < 0 { seq!['-'] + decimal((-n) as nat) } else { seq!['+'] + decimal(n as nat) }
}

/// Append `n` with its sign always written.
pub fn push_signed(s: &mut String, n: i64)
    ensures
        final(s)@ == old(s)@ + explicitly_signed(n as int),
{
    if n < 0 {
        push_char(s, '-');
        let magnitude: u64 = if n == i64::MIN { 9223372036854775808u64 } else { (-n) as u64 };
        push_decimal(s, magnitude);
    } else {
        push_char(s, '+');
        push_decimal(s, n as u64);
    }
    assert(final(s)@ =~= old(s)@ + explicitly_signed(n as int));
}

/// How a size change is drawn: flat inside the noise floor, where it is
/// neither a win nor a loss, and otherwise by whether the artifact shrank.
#[derive(Debug, Clone, Copy, PartialEq, Eq, Structural)]
pub enum DeltaTone {
    Flat,
    Smaller,
    Larger,
}

/// The Hypothesis tab's impact line.
#[derive(Debug)]
pub struct ImpactLine {
    /// The change, signed, in bytes.
    pub text: String,
    pub tone: DeltaTone,
    /// Marked inconclusive when it fell inside the noise floor.
    pub inconclusive: bool,
}

/// The impact line of `i`, where it has a size.
pub open spec fn impact_line(i: Impact) -> Option<(Seq<char>, DeltaTone, bool)> {
    match i.size_bytes {
        Some(bytes) => Some((
            explicitly_signed(bytes as int) + " bytes"@,
            if i.within_noise_floor { DeltaTone::Flat } else if bytes < 0 { DeltaTone::Smaller } else { DeltaTone::Larger },
            i.within_noise_floor,
        )),
        None => None,
    }
}

/// The Hypothesis tab: the finding's detail where it has one, where it is,
/// and what it changes.
#[derive(Debug)]
pub struct Hypothesis {
    pub detail: Option<String>,
    pub location: String,
    pub impact: Option<ImpactLine>,
}

impl Hypothesis {
    pub fn of(finding: &Finding) -> (h: Self)
        ensures
            h.detail matches Some(d) ==> d@ == finding.detail@,
            h.detail is None <==> finding.detail@.len() == 0,
            h.location@ == location_text(finding.location),
            match impact_line(finding.impact) {
                Some((text, tone, inconclusive)) => h.impact matches Some(l) && l.text@ == text && l.tone == tone
                    && l.inconclusive == inconclusive,
                None => h.impact is None,
            },
    {
        let detail = if finding.detail.as_str().unicode_len() == 0 { None } else { Some(finding.detail.clone()) };
        let impact = finding.impact;
        let line = match impact.size_bytes {
            Some(bytes) => {
                let mut text = String::new();
                push_signed(&mut text, bytes);
                push_text(&mut text, " bytes");
                let tone = if impact.within_noise_floor {
                    DeltaTone::Flat
                } else if bytes < 0 {
                    DeltaTone::Smaller
                } else {
                    DeltaTone::Larger
                };
                Some(ImpactLine { text, tone, inconclusive: impact.within_noise_floor })
            },
            None => None,
        };
        Hypothesis { detail, location: finding.location.describe(), impact: line }
    }
}

/// How many lines of a record's output the Evidence tab shows, and how many
/// characters of its digest.
pub const EVIDENCE_LINES: usize = 12;

/// The first `n` items of `s`, or all of it where it is shorter.
pub open spec fn first_of<T>(s: Seq<T>, n: nat) -> Seq<T> {
    if s.len() <= n { s } else { s.take(n as int) }
}

/// One row of the Evidence tab: the command as a user would type it, the
/// first lines of its verbatim output, and the start of its digest. The
/// output is shown, never summarised.
#[derive(Debug)]
pub struct EvidenceRow {
    pub command: String,
    pub output: String,
    pub digest: String,
}

impl EvidenceRow {
    pub fn of(record: &Evidence) -> (r: Self)
        ensures
            r.command@ == command_line_of(record.invocation@),
            r.output@ == join(first_of(lines(record.output@), EVIDENCE_LINES as nat), "\n"@),
            r.digest@ == "output digest "@ + first_of(record.digest@, EVIDENCE_LINES as nat),
    {
        let all = lines_of(record.output.as_str());
        let ghost views = all@.map_values(|l: String| l@);
        let mut shown: Vec<String> = Vec::new();
        let mut i: usize = 0;
        while i < all.len() && i < EVIDENCE_LINES
            invariant
                i <= all@.len(),
                i <= EVIDENCE_LINES,
                views == all@.map_values(|l: String| l@),
                shown@.map_values(|l: String| l@) == views.take(i as int),
            decreases all@.len() - i,
        {
            shown.push(all[i].clone());
            assert(views.take(i + 1) =~= views.take(i as int).push(views[i as int]));
            i = i + 1;
        }
        assert(first_of(views, EVIDENCE_LINES as nat) =~= views.take(i as int));
        let output = join_strings(&shown, "\n");
        let c = chars_of(record.digest.as_str());
        let end = if c.len() < EVIDENCE_LINES { c.len() } else { EVIDENCE_LINES };
        let mut digest = text_of("output digest ");
        let mut k: usize = 0;
        while k < end
            invariant
                k <= end <= c@.len(),
                c@ == record.digest@,
                digest@ == "output digest "@ + c@.take(k as int),
            decreases end - k,
        {
            push_char(&mut digest, c[k]);
            assert(c@.take(k + 1) =~= c@.take(k as int).push(c@[k as int]));
            k = k + 1;
        }
        assert(first_of(c@, EVIDENCE_LINES as nat) =~= c@.take(end as int));
        EvidenceRow { command: record.invocation.command_line(), output, digest }
    }
}

/// Where the first probe in `ps` named `name` is.
pub open spec fn first_probe_named(ps: Seq<Probe>, name: Seq<char>) -> Option<int>
    decreases ps.len(),
{
    if ps.len() == 0 {
        None
    } else if ps[0].name@ == name {
        Some(0)
    } else {
        match first_probe_named(ps.drop_first(), name) {
            Some(i) => Some(i + 1),
            None => None,
        }
    }
}

proof fn lemma_first_probe_named(ps: Seq<Probe>, name: Seq<char>)
    ensures
        first_probe_named(ps, name) matches Some(i) ==> 0 <= i < ps.len() && ps[i].name@ == name
            && forall|k: int| 0 <= k < i ==> (#[trigger] ps[k]).name@ != name,
        first_probe_named(ps, name) is None ==> forall|k: int| 0 <= k < ps.len() ==> (#[trigger] ps[k]).name@ != name,
    decreases ps.len(),
{
    if ps.len() > 0 && ps[0].name@ != name {
        lemma_first_probe_named(ps.drop_first(), name);
        assert forall|k: int| 0 < k < ps.len() implies ps[k] == ps.drop_first()[k - 1] by {}
    }
}

/// The commit the frame shows, read off the `git` probe's detail: the text
/// before its first comma, and whether it mentions uncommitted changes.
/// Without a `git` probe, an empty commit on a clean tree.
pub open spec fn commit_shown(ps: Seq<Probe>) -> (Seq<char>, bool) {
    match first_probe_named(ps, "git"@) {
        Some(i) => {
            let d = ps[i].detail@;
            (d.take(position_of(d, ',') as int), contains_text(d, "uncommitted"@))
        },
        None => (seq![], false),
    }
}

/// The title bar: what is open, at what commit, and at which trust tier.
///
/// The dirty flag is not decoration: a number measured on an uncommitted
/// tree cannot be reproduced by anyone else, and the frame says so.
#[derive(Debug)]
pub struct TitleBar {
    pub project: String,
    pub commit: Option<String>,
    pub dirty: bool,
    pub tier: TrustTier,
}

impl TitleBar {
    pub fn new(project: String, tier: TrustTier) -> (t: Self)
        ensures
            t.project == project,
            t.commit is None,
            !t.dirty,
            t.tier == tier,
    {
        TitleBar { project, commit: None, dirty: false, tier }
    }

    pub fn at_commit(self, commit: String, dirty: bool) -> (t: Self)
        ensures
            t.project == self.project,
            t.commit == Some(commit),
            t.dirty == dirty,
            t.tier == self.tier,
    {
        TitleBar { commit: Some(commit), dirty, ..self }
    }

    /// The frame's title bar: `project` at `tier`, at the commit the `git`
    /// probe reports.
    pub fn of(state: &AppState, project: String, tier: TrustTier) -> (t: Self)
        ensures
            t.project == project,
            t.tier == tier,
            t.commit matches Some(c) && c@ == commit_shown(state.spec_probes()).0,
            t.dirty == commit_shown(state.spec_probes()).1,
    {
        let probes = state.probes();
        let ghost ps = probes@;
        proof { lemma_first_probe_named(ps, "git"@); }
        let mut i: usize = 0;
        while i < probes.len()
            invariant
                ps == probes@,
                i <= ps.len(),
                forall|k: int| 0 <= k < i ==> (#[trigger] ps[k]).name@ != "git"@,
                first_probe_named(ps, "git"@) is None ==> forall|k: int| 0 <= k < ps.len() ==> (#[trigger] ps[k]).name@ != "git"@,
                first_probe_named(ps, "git"@) matches Some(j) ==> 0 <= j < ps.len() && ps[j].name@ == "git"@
                    && forall|k: int| 0 <= k < j ==> (#[trigger] ps[k]).name@ != "git"@,
            ensures
                i <= ps.len(),
                forall|k: int| 0 <= k < i ==> (#[trigger] ps[k]).name@ != "git"@,
                i < ps.len() ==> ps[i as int].name@ == "git"@,
            decreases ps.len() - i,
        {
            if text_eq(probes[i].name.as_str(), "git") {
                break;
            }
            i = i + 1;
        }
        if i == probes.len() {
            return TitleBar::new(project, tier).at_commit(String::new(), false);
        }
        assert(first_probe_named(ps, "git"@) == Some(i as int));
        let detail = probes[i].detail.as_str();
        let c = chars_of(detail);
        proof { lemma_position_of(c@, ','); }
        let mut end: usize = 0;
        while end < c.len() && c[end] != ','
            invariant
                end <= c@.len(),
                c@ == detail@,
                forall|k: int| 0 <= k < end ==> c@[k] != ',',
                position_of(c@, ',') <= c@.len(),
                position_of(c@, ',') < c@.len() ==> c@[position_of(c@, ',') as int] == ',',
                forall|k: int| 0 <= k < position_of(c@, ',') ==> c@[k] != ',',
            decreases c@.len() - end,
        {
            end = end + 1;
        }
        assert(end == position_of(c@, ','));
        let short = text_of_chars(&c, 0, end);
        assert(short@ =~= detail@.take(end as int));
        let dirty = text_contains(detail, "uncommitted");
        TitleBar::new(project, tier).at_commit(short, dirty)
    }
}

/// The group a measured configuration's row falls in: the frontier first,
/// then the rest that passed, then the rejected ones (those that were on the
/// frontier before those that were not).
pub open spec fn row_group(m: Measurement) -> int {
    (if measurement_passed(m) { 0int } else { 2int }) + (if m.on_frontier { 0int } else { 1int })
}

/// A row's place in the table: its group, then its size, smallest first,
/// with a configuration that was not measured last in its group.
pub open spec fn row_key(m: Measurement) -> int {
    row_group(m) * 0x1_0000_0000_0000_0000 + match m.size_bytes {
        Some(b) => b as int,
        None => u64::MAX as int,
    }
}

/// Row `i` of `ms` comes before row `j`: it has the smaller key, or the same
/// key and was measured earlier.
pub open spec fn row_before(ms: Seq<Measurement>, i: int, j: int) -> bool {
    row_key(ms[i]) < row_key(ms[j]) || (row_key(ms[i]) == row_key(ms[j]) && i < j)
}

fn row_key_of(m: &Measurement) -> (k: u128)
    ensures
        k == row_key(*m),
{
    let passed: u128 = if m.passed() { 0 } else { 2 };
    let frontier: u128 = if m.on_frontier { 0 } else { 1 };
    let size: u128 = match m.size_bytes {
        Some(b) => b as u128,
        None => 0xFFFF_FFFF_FFFF_FFFFu128,
    };
    (passed + frontier) * 0x1_0000_0000_0000_0000u128 + size
}

/// The order the Profile Lab's table lists `measured` in, as indices into it:
/// what won, what nearly won, what did not. Rejected configurations stay in
/// the table, at the end; ties keep the order they were measured in.
pub fn table_order(measured: &[Measurement]) -> (r: Vec<usize>)
    ensures
        r@.len() == measured@.len(),
        forall|i: int| 0 <= i < r@.len() ==> r@[i] < measured@.len(),
        forall|i: int, j: int| 0 <= i < j < r@.len() ==> row_before(measured@, r@[i] as int, r@[j] as int),
        forall|k: usize| k < measured@.len() ==> #[trigger] r@.contains(k),
{
    let ghost ms = measured@;
    let mut r: Vec<usize> = Vec::new();
    let mut keys: Vec<u128> = Vec::new();
    let mut k: usize = 0;
    while k < measured.len()
        invariant
            ms == measured@,
            k <= ms.len(),
            r@.len() == k,
            keys@.len() == k,
            forall|i: int| 0 <= i < k ==> r@[i] < k,
            forall|i: int| 0 <= i < k ==> keys@[i] == row_key(ms[r@[i] as int]),
            forall|i: int, j: int| 0 <= i < j < k ==> row_before(ms, r@[i] as int, r@[j] as int),
            forall|x: usize| x < k ==> #[trigger] r@.contains(x),
        decreases ms.len() - k,
    {
        let key = row_key_of(&measured[k]);
        let mut p: usize = 0;
        while p < keys.len() && keys[p] <= key
            invariant
                p <= keys@.len(),
                keys@.len() == k,
                forall|q: int| 0 <= q < p ==> keys@[q] <= key,
            decreases keys@.len() - p,
        {
            p = p + 1;
        }
        let ghost old_r = r@;
        let ghost old_keys = keys@;
        r.insert(p, k);
        keys.insert(p, key);
        proof {
            old_r.insert_ensures(p as int, k);
            old_keys.insert_ensures(p as int, key);
            let n = r@;
            assert forall|i: int| 0 <= i < k + 1 implies n[i] < k + 1 by {
                if i > p {
                    assert(n[i] == old_r[i - 1]);
                }
            }
            assert forall|i: int| 0 <= i < k + 1 implies keys@[i] == row_key(ms[n[i] as int]) by {
                if i > p {
                    assert(n[i] == old_r[i - 1]);
                    assert(keys@[i] == old_keys[i - 1]);
                }
            }
            // Everything after the insertion point keys above `key`.
            assert forall|q: int| p <= q < k implies old_keys[q] > key by {
                if p < q {
                    assert(row_before(ms, old_r[p as int] as int, old_r[q] as int));
                }
            }
            assert forall|i: int, j: int| 0 <= i < j < k + 1 implies row_before(ms, n[i] as int, n[j] as int) by {
                if j < p {
                    assert(n[i] == old_r[i] && n[j] == old_r[j]);
                } else if j == p {
                    assert(n[i] == old_r[i]);
                    assert(old_keys[i] <= key);
                } else if i < p {
                    assert(n[i] == old_r[i] && n[j] == old_r[j - 1]);
                } else if i == p {
                    assert(n[j] == old_r[j - 1]);
                    assert(old_keys[j - 1] > key);
                } else {
                    assert(n[i] == old_r[i - 1] && n[j] == old_r[j - 1]);
                }
            }
            assert forall|x: usize| x < k + 1 implies #[trigger] n.contains(x) by {
                if x == k {
                    assert(n[p as int] == k);
                } else {
                    assert(old_r.contains(x));
                    let q = choose|q: int| 0 <= q < old_r.len() && old_r[q] == x;
                    if q < p {
                        assert(n[q] == x);
                    } else {
                        assert(n[q + 1] == x);
                    }
                }
            }
        }
        k = k + 1;
    }
    r
}

/// How a size delta is drawn in the table: smaller is a win, larger a
/// regression, and no change, or none measured, is flat.
pub open spec fn delta_tone_of(d: Option<i64>) -> DeltaTone {
    match d {
        Some(x) => if x < 0 { DeltaTone::Smaller } else if x > 0 { DeltaTone::Larger } else { DeltaTone::Flat },
        None => DeltaTone::Flat,
    }
}

pub fn delta_tone(d: Option<i64>) -> (t: DeltaTone)
    ensures
        t == delta_tone_of(d),
{
    match d {
        Some(x) => if x < 0 {
            DeltaTone::Smaller
        } else if x > 0 {
            DeltaTone::Larger
        } else {
            DeltaTone::Flat
        },
        None => DeltaTone::Flat,
    }
}

/// The mark beside each verdict in the selected configuration's panel.
/// Inconclusive is neither a pass nor a fail, and is marked as neither.
pub open spec fn verdict_mark(r: GateResult) -> Seq<char> {
    match r {
        GateResult::Passed => "\u{2713}"@,
        GateResult::Failed => "\u{2717}"@,
        GateResult::Inconclusive { .. } => "~"@,
        GateResult::Skipped { .. } => "\u{2013}"@,
    }
}

pub fn gate_mark(r: &GateResult) -> (s: &'static str)
    ensures
        s@ == verdict_mark(*r),
{
    match r {
        GateResult::Passed => "\u{2713}",
        GateResult::Failed => "\u{2717}",
        GateResult::Inconclusive { .. } => "~",
        GateResult::Skipped { .. } => "\u{2013}",
    }
}

} // verus!
