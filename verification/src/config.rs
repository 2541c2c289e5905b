//! Trust tiers, the sweep matrix, and the settings a session runs under.

use crate::error::Error;
use crate::text::{join_path, path_join};
use vstd::prelude::*;

verus! {

/// What the application is allowed to do without asking again.
///
/// One dial with four settings, always visible and never raised silently:
///
/// | Tier | Effect |
/// |---|---|
/// | Observe | Measures and explains, and writes nothing. |
/// | Propose | Generates diffs and never applies them. **The default.** |
/// | Tune | Writes build configuration only, after the tests pass and the benchmark confirms. |
/// | Autonomous | Applies source patches and opens a pull request. |
///
/// Ordered by rank on the dial (see the `tier_order` module), so "requires
/// at least" is a comparison of ranks.
#[derive(Debug, Clone, Copy, PartialEq, Eq, Ord, Hash, Structural)]
pub enum TrustTier {
    /// Read the project and measure it. Writes nothing at all.
    Observe,
    /// Additionally: generate patches and show their diffs, and never apply
    /// them. This is the default.
    Propose,
    /// Additionally: write build configuration, and only after the tests pass
    /// and the benchmark confirms.
    Tune,
    /// Additionally: apply source patches and open a pull request.
    Autonomous,
}

/// Where a tier sits on the dial, 0 to 3.
pub open spec fn tier_rank(t: TrustTier) -> nat {
    match t {
        TrustTier::Observe => 0,
        TrustTier::Propose => 1,
        TrustTier::Tune => 2,
        TrustTier::Autonomous => 3,
    }
}

pub open spec fn tier_label(t: TrustTier) -> Seq<char> {
    match t {
        TrustTier::Observe => "Observe"@,
        TrustTier::Propose => "Propose"@,
        TrustTier::Tune => "Tune"@,
        TrustTier::Autonomous => "Autonomous"@,
    }
}

pub open spec fn tier_permits(t: TrustTier) -> Seq<char> {
    match t {
        TrustTier::Observe => "Observe measures and explains, and writes nothing."@,
        TrustTier::Propose => "Propose generates diffs and never applies them. This is the default."@,
        TrustTier::Tune => "Tune writes build configuration only, after the tests pass and the benchmark confirms."@,
        TrustTier::Autonomous => "Autonomous applies source patches and opens a pull request. It also requires allow_source_patches = true in binmap.toml."@,
    }
}

impl Default for TrustTier {
    /// Propose: the tool is useful without ever writing, and starting here
    /// means the first write is always a decision.
    fn default() -> (t: Self)
        ensures
            t == TrustTier::Propose,
    {
        TrustTier::Propose
    }
}

impl TrustTier {
    /// Every tier, in dial order.
    pub const ALL: [TrustTier; 4] = [
        TrustTier::Observe,
        TrustTier::Propose,
        TrustTier::Tune,
        TrustTier::Autonomous,
    ];

    pub fn label(self) -> (s: &'static str)
        ensures
            s@ == tier_label(self),
    {
        match self {
            TrustTier::Observe => "Observe",
            TrustTier::Propose => "Propose",
            TrustTier::Tune => "Tune",
            TrustTier::Autonomous => "Autonomous",
        }
    }

    /// The tier's own description of what it permits, as the tier dialog shows
    /// it.
    pub fn permits(self) -> (s: &'static str)
        ensures
            s@ == tier_permits(self),
    {
        match self {
            TrustTier::Observe => "Observe measures and explains, and writes nothing.",
            TrustTier::Propose => "Propose generates diffs and never applies them. This is the default.",
            TrustTier::Tune => "Tune writes build configuration only, after the tests pass and the benchmark confirms.",
            TrustTier::Autonomous => "Autonomous applies source patches and opens a pull request. It also requires allow_source_patches = true in binmap.toml.",
        }
    }

    /// Where the tier sits on the dial, 0 to 3.
    pub fn rank(self) -> (r: u8)
        ensures
            r as nat == tier_rank(self),
    {
        match self {
            TrustTier::Observe => 0,
            TrustTier::Propose => 1,
            TrustTier::Tune => 2,
            TrustTier::Autonomous => 3,
        }
    }

    /// Check an action against the session's tier, producing the error that
    /// states the reason rather than making the action disappear.
    pub fn require(self, required: TrustTier, action: &str) -> (r: Result<(), Error>)
        ensures
            r is Ok <==> tier_rank(self) >= tier_rank(required),
            r matches Err(e) ==> e matches Error::TierTooLow { action: a, required: q, current: c }
                && a@ == action@ && q == required && c == self,
    {
        if self.rank() >= required.rank() {
            Ok(())
        } else {
            Err(Error::TierTooLow { action: String::from_str(action), required, current: self })
        }
    }
}

/// How many runs of a benchmark a configuration gets when none is declared.
pub fn default_samples() -> (n: u32)
    ensures
        n == 7,
{
    7
}

/// The user's benchmark, where they have one. Runtime is measured through this
/// and through nothing else.
#[derive(Debug, Clone, PartialEq, Eq)]
pub struct BenchmarkCommand {
    pub program: String,
    pub arguments: Vec<String>,
    /// How many times to run it per configuration.
    pub samples: u32,
}

/// `opt-level`.
#[derive(Debug, Clone, Copy, PartialEq, Eq, PartialOrd, Ord, Hash, Structural)]
pub enum OptLevel { Zero, One, Two, Three, Size, SizeNoLoopVec }

/// `lto`.
#[derive(Debug, Clone, Copy, PartialEq, Eq, PartialOrd, Ord, Hash, Structural)]
pub enum Lto { Off, Thin, Fat }

/// `panic`.
#[derive(Debug, Clone, Copy, PartialEq, Eq, PartialOrd, Ord, Hash, Structural)]
pub enum PanicStrategy { Unwind, Abort }

/// `strip`.
#[derive(Debug, Clone, Copy, PartialEq, Eq, PartialOrd, Ord, Hash, Structural)]
pub enum Strip { Nothing, Debuginfo, Symbols }

/// `debug`.
#[derive(Debug, Clone, Copy, PartialEq, Eq, PartialOrd, Ord, Hash, Structural)]
pub enum DebugInfo { Nothing, LineTablesOnly, Limited, Full }

/// `-Z build-std`, the extended sweep.
#[derive(Debug, Clone, Copy, PartialEq, Eq, PartialOrd, Ord, Hash, Structural)]
pub enum BuildStd { Off, Core, PanicImmediateAbort }

/// The values as they appear in `Cargo.toml` and on the `--config` command
/// line, and as they read unquoted.
pub open spec fn opt_level_toml(v: OptLevel) -> Seq<char> {
    match v {
        OptLevel::Zero => "0"@,
        OptLevel::One => "1"@,
        OptLevel::Two => "2"@,
        OptLevel::Three => "3"@,
        OptLevel::Size => "\"s\""@,
        OptLevel::SizeNoLoopVec => "\"z\""@,
    }
}

pub open spec fn opt_level_text(v: OptLevel) -> Seq<char> {
    match v {
        OptLevel::Zero => "0"@,
        OptLevel::One => "1"@,
        OptLevel::Two => "2"@,
        OptLevel::Three => "3"@,
        OptLevel::Size => "s"@,
        OptLevel::SizeNoLoopVec => "z"@,
    }
}

pub open spec fn lto_toml(v: Lto) -> Seq<char> {
    match v {
        Lto::Off => "false"@,
        Lto::Thin => "\"thin\""@,
        Lto::Fat => "\"fat\""@,
    }
}

pub open spec fn lto_text(v: Lto) -> Seq<char> {
    match v {
        Lto::Off => "false"@,
        Lto::Thin => "thin"@,
        Lto::Fat => "fat"@,
    }
}

pub open spec fn panic_toml(v: PanicStrategy) -> Seq<char> {
    match v {
        PanicStrategy::Unwind => "\"unwind\""@,
        PanicStrategy::Abort => "\"abort\""@,
    }
}

pub open spec fn panic_text(v: PanicStrategy) -> Seq<char> {
    match v {
        PanicStrategy::Unwind => "unwind"@,
        PanicStrategy::Abort => "abort"@,
    }
}

pub open spec fn strip_toml(v: Strip) -> Seq<char> {
    match v {
        Strip::Nothing => "\"none\""@,
        Strip::Debuginfo => "\"debuginfo\""@,
        Strip::Symbols => "\"symbols\""@,
    }
}

pub open spec fn strip_text(v: Strip) -> Seq<char> {
    match v {
        Strip::Nothing => "none"@,
        Strip::Debuginfo => "debuginfo"@,
        Strip::Symbols => "symbols"@,
    }
}

pub open spec fn debug_toml(v: DebugInfo) -> Seq<char> {
    match v {
        DebugInfo::Nothing => "0"@,
        DebugInfo::LineTablesOnly => "\"line-tables-only\""@,
        DebugInfo::Limited => "1"@,
        DebugInfo::Full => "2"@,
    }
}

pub open spec fn debug_text(v: DebugInfo) -> Seq<char> {
    match v {
        DebugInfo::Nothing => "0"@,
        DebugInfo::LineTablesOnly => "line-tables-only"@,
        DebugInfo::Limited => "1"@,
        DebugInfo::Full => "2"@,
    }
}

pub open spec fn build_std_toml(v: BuildStd) -> Seq<char> {
    match v {
        BuildStd::Off => "off"@,
        BuildStd::Core => "core,alloc"@,
        BuildStd::PanicImmediateAbort => "core,alloc,panic_immediate_abort"@,
    }
}

impl OptLevel {
    /// The value as it appears in `Cargo.toml` and on the `--config` command
    /// line.
    pub fn as_toml(self) -> (s: &'static str)
        ensures
            s@ == opt_level_toml(self),
    {
        match self {
            OptLevel::Zero => "0",
            OptLevel::One => "1",
            OptLevel::Two => "2",
            OptLevel::Three => "3",
            OptLevel::Size => "\"s\"",
            OptLevel::SizeNoLoopVec => "\"z\"",
        }
    }

    /// The value with its quotes taken off.
    pub fn to_string(self) -> (s: String)
        ensures
            s@ == opt_level_text(self),
    {
        String::from_str(match self {
            OptLevel::Zero => "0",
            OptLevel::One => "1",
            OptLevel::Two => "2",
            OptLevel::Three => "3",
            OptLevel::Size => "s",
            OptLevel::SizeNoLoopVec => "z",
        })
    }
}

impl Lto {
    pub fn as_toml(self) -> (s: &'static str)
        ensures
            s@ == lto_toml(self),
    {
        match self {
            Lto::Off => "false",
            Lto::Thin => "\"thin\"",
            Lto::Fat => "\"fat\"",
        }
    }

    pub fn to_string(self) -> (s: String)
        ensures
            s@ == lto_text(self),
    {
        String::from_str(match self {
            Lto::Off => "false",
            Lto::Thin => "thin",
            Lto::Fat => "fat",
        })
    }
}

impl PanicStrategy {
    pub fn as_toml(self) -> (s: &'static str)
        ensures
            s@ == panic_toml(self),
    {
        match self {
            PanicStrategy::Unwind => "\"unwind\"",
            PanicStrategy::Abort => "\"abort\"",
        }
    }

    pub fn to_string(self) -> (s: String)
        ensures
            s@ == panic_text(self),
    {
        String::from_str(match self {
            PanicStrategy::Unwind => "unwind",
            PanicStrategy::Abort => "abort",
        })
    }
}

impl Strip {
    pub fn as_toml(self) -> (s: &'static str)
        ensures
            s@ == strip_toml(self),
    {
        match self {
            Strip::Nothing => "\"none\"",
            Strip::Debuginfo => "\"debuginfo\"",
            Strip::Symbols => "\"symbols\"",
        }
    }

    pub fn to_string(self) -> (s: String)
        ensures
            s@ == strip_text(self),
    {
        String::from_str(match self {
            Strip::Nothing => "none",
            Strip::Debuginfo => "debuginfo",
            Strip::Symbols => "symbols",
        })
    }
}

impl DebugInfo {
    pub fn as_toml(self) -> (s: &'static str)
        ensures
            s@ == debug_toml(self),
    {
        match self {
            DebugInfo::Nothing => "0",
            DebugInfo::LineTablesOnly => "\"line-tables-only\"",
            DebugInfo::Limited => "1",
            DebugInfo::Full => "2",
        }
    }

    pub fn to_string(self) -> (s: String)
        ensures
            s@ == debug_text(self),
    {
        String::from_str(match self {
            DebugInfo::Nothing => "0",
            DebugInfo::LineTablesOnly => "line-tables-only",
            DebugInfo::Limited => "1",
            DebugInfo::Full => "2",
        })
    }
}

impl BuildStd {
    pub fn as_toml(self) -> (s: &'static str)
        ensures
            s@ == build_std_toml(self),
    {
        match self {
            BuildStd::Off => "off",
            BuildStd::Core => "core,alloc",
            BuildStd::PanicImmediateAbort => "core,alloc,panic_immediate_abort",
        }
    }

    /// The value as it reads; these spellings carry no quotes.
    pub fn to_string(self) -> (s: String)
        ensures
            s@ == build_std_toml(self),
    {
        String::from_str(self.as_toml())
    }
}

/// How many values one axis contributes: an empty axis is the profile's own
/// value, which is one point rather than none.
pub open spec fn axis_size(len: nat) -> nat {
    if len == 0 { 1 } else { len }
}

/// The axes of the sweep, and the values to try on each.
///
/// An empty axis means "leave it at the profile default", which is different
/// from "try every value".
#[derive(Debug, Clone, PartialEq, Eq)]
pub struct SweepMatrix {
    pub opt_level: Vec<OptLevel>,
    pub lto: Vec<Lto>,
    pub codegen_units: Vec<u32>,
    pub panic: Vec<PanicStrategy>,
    pub strip: Vec<Strip>,
    pub debug: Vec<DebugInfo>,
    pub overflow_checks: Vec<bool>,
    /// The extended sweep. Off by default because it needs a nightly
    /// toolchain and the rust-src component.
    pub build_std: Vec<BuildStd>,
    pub target_cpu: Vec<String>,
}

impl SweepMatrix {
    /// The number of configurations the matrix describes.
    pub open spec fn spec_cardinality(&self) -> nat {
        axis_size(self.opt_level@.len()) * axis_size(self.lto@.len()) * axis_size(self.codegen_units@.len())
            * axis_size(self.panic@.len()) * axis_size(self.strip@.len()) * axis_size(self.debug@.len())
            * axis_size(self.overflow_checks@.len()) * axis_size(self.build_std@.len())
            * axis_size(self.target_cpu@.len())
    }
}

/// The default matrix's axes.
pub open spec fn is_default_matrix(m: SweepMatrix) -> bool {
    &&& m.opt_level@ == seq![OptLevel::Three, OptLevel::Two, OptLevel::Size, OptLevel::SizeNoLoopVec]
    &&& m.lto@ == seq![Lto::Off, Lto::Thin, Lto::Fat]
    &&& m.codegen_units@ == seq![16u32, 1u32]
    &&& m.panic@ == seq![PanicStrategy::Unwind, PanicStrategy::Abort]
    &&& m.strip@ == seq![Strip::Nothing, Strip::Symbols]
    &&& m.debug@ == seq![DebugInfo::Nothing]
    &&& m.overflow_checks@ == seq![false]
    &&& m.build_std@.len() == 0
    &&& m.target_cpu@.len() == 0
}

impl Default for SweepMatrix {
    /// The default matrix: the axes that pay for themselves on almost every
    /// crate, sized so a first sweep finishes rather than impresses.
    fn default() -> (m: Self)
        ensures
            is_default_matrix(m),
    {
        let m = SweepMatrix {
            opt_level: vec![OptLevel::Three, OptLevel::Two, OptLevel::Size, OptLevel::SizeNoLoopVec],
            lto: vec![Lto::Off, Lto::Thin, Lto::Fat],
            codegen_units: vec![16, 1],
            panic: vec![PanicStrategy::Unwind, PanicStrategy::Abort],
            strip: vec![Strip::Nothing, Strip::Symbols],
            debug: vec![DebugInfo::Nothing],
            overflow_checks: vec![false],
            build_std: Vec::new(),
            target_cpu: Vec::new(),
        };
        assert(m.opt_level@ =~= seq![OptLevel::Three, OptLevel::Two, OptLevel::Size, OptLevel::SizeNoLoopVec]);
        assert(m.lto@ =~= seq![Lto::Off, Lto::Thin, Lto::Fat]);
        assert(m.codegen_units@ =~= seq![16u32, 1u32]);
        assert(m.panic@ =~= seq![PanicStrategy::Unwind, PanicStrategy::Abort]);
        assert(m.strip@ =~= seq![Strip::Nothing, Strip::Symbols]);
        assert(m.debug@ =~= seq![DebugInfo::Nothing]);
        assert(m.overflow_checks@ =~= seq![false]);
        m
    }
}

proof fn lemma_grow(x: nat, y: nat)
    requires
        y >= 1,
    ensures
        x <= x * y,
{
    assert(x <= x * y) by (nonlinear_arith)
        requires y >= 1;
}

fn axis(len: usize) -> (n: usize)
    ensures
        n == axis_size(len as nat),
{
    if len == 0 { 1 } else { len }
}

impl SweepMatrix {
    /// How many configurations this matrix describes. Shown before the sweep
    /// starts, because the honest answer to "how long will this take" is this
    /// number times one build.
    pub fn cardinality(&self) -> (n: usize)
        requires
            self.spec_cardinality() <= usize::MAX,
        ensures
            n == self.spec_cardinality(),
    {
        let a1 = axis(self.opt_level.len());
        let a2 = axis(self.lto.len());
        let a3 = axis(self.codegen_units.len());
        let a4 = axis(self.panic.len());
        let a5 = axis(self.strip.len());
        let a6 = axis(self.debug.len());
        let a7 = axis(self.overflow_checks.len());
        let a8 = axis(self.build_std.len());
        let a9 = axis(self.target_cpu.len());
        proof {
            let p2 = (a1 * a2) as nat;
            let p3 = (p2 * a3) as nat;
            let p4 = (p3 * a4) as nat;
            let p5 = (p4 * a5) as nat;
            let p6 = (p5 * a6) as nat;
            let p7 = (p6 * a7) as nat;
            let p8 = (p7 * a8) as nat;
            lemma_grow(a1 as nat, a2 as nat);
            lemma_grow(p2, a3 as nat);
            lemma_grow(p3, a4 as nat);
            lemma_grow(p4, a5 as nat);
            lemma_grow(p5, a6 as nat);
            lemma_grow(p6, a7 as nat);
            lemma_grow(p7, a8 as nat);
            lemma_grow(p8, a9 as nat);
        }
        a1 * a2 * a3 * a4 * a5 * a6 * a7 * a8 * a9
    }
}

/// The parallelism a session defaults to: half the machine, at least one,
/// and one where the machine's parallelism is unknown.
pub open spec fn default_parallelism_for(available: Option<usize>) -> nat {
    match available {
        Some(n) => if n / 2 >= 1 { (n / 2) as nat } else { 1 },
        None => 1,
    }
}

/// The cap on concurrent builds, from the machine's parallelism where it is
/// known. Half of it, because a sweep that saturates the machine also
/// invalidates its own timing measurements.
pub fn default_parallelism(available: Option<usize>) -> (n: usize)
    ensures
        n == default_parallelism_for(available),
{
    match available {
        Some(n) => if n / 2 >= 1 { n / 2 } else { 1 },
        None => 1,
    }
}

/// Everything a session needs to know about the project it was opened on.
#[derive(Debug, Clone, PartialEq, Eq)]
pub struct ProjectConfig {
    /// The directory holding the workspace or package manifest.
    pub root: String,
    /// The package to sweep, when the root is a workspace.
    pub package: Option<String>,
    /// The binary or library target within that package.
    pub target: Option<String>,
    pub benchmark: Option<BenchmarkCommand>,
    /// The test command, where the user's is not `cargo test`.
    pub test_command: Option<BenchmarkCommand>,
    pub matrix: SweepMatrix,
    /// Our target directory, kept separate so the user's own cache is never
    /// disturbed.
    pub target_directory: String,
    /// The cap on concurrent builds.
    pub parallelism: usize,
    pub trust_tier: TrustTier,
}

impl ProjectConfig {
    /// Open a project at `root`, which the caller has already made absolute,
    /// on a machine with `available_parallelism`.
    ///
    /// Every tool runs with the project root as its working directory, so a
    /// relative target directory would be resolved against the root a second
    /// time; the target directory here is therefore under the absolute root.
    pub fn new(root: String, available_parallelism: Option<usize>) -> (c: Self)
        ensures
            c.root@ == root@,
            c.target_directory@ == path_join(path_join(root@, "target"@), "binmap"@),
            c.package is None,
            c.target is None,
            c.benchmark is None,
            c.test_command is None,
            is_default_matrix(c.matrix),
            c.parallelism == default_parallelism_for(available_parallelism),
            c.trust_tier == TrustTier::Propose,
    {
        let target = join_path(root.as_str(), "target");
        let target_directory = join_path(target.as_str(), "binmap");
        ProjectConfig {
            root,
            package: None,
            target: None,
            benchmark: None,
            test_command: None,
            matrix: SweepMatrix::default(),
            target_directory,
            parallelism: default_parallelism(available_parallelism),
            trust_tier: TrustTier::default(),
        }
    }
}

} // verus!
