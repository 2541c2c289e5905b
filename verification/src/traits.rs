//! The traits artifact-specific logic is confined to.
//!
//! Most of the interface is shared across backends. These traits are where
//! the rest lives, and adding a language is a matter of implementing them.

use crate::artifact::ArtifactSize;
use crate::capability::Capabilities;
use crate::configuration::BuildConfiguration;
use crate::error::Error;
use crate::evidence::EvidenceId;
use crate::location::{Location, SourceSpan};
use crate::text::text_of;
use vstd::prelude::*;

verus! {

/// A target the user can select: one binary, library, bundle or assembly.
#[derive(Debug, PartialEq, Eq)]
pub struct Target {
    /// Stable across sessions; used as the session key.
    pub id: String,
    pub name: String,
    /// The language family the project view groups by.
    pub family: TargetFamily,
    pub package: String,
    /// The manifest that declares it.
    pub manifest: String,
    pub capabilities: Capabilities,
}

/// Two targets alike in every field, their capabilities compared as sets.
pub open spec fn same_target(a: Target, b: Target) -> bool {
    &&& a.id == b.id
    &&& a.name == b.name
    &&& a.family == b.family
    &&& a.package == b.package
    &&& a.manifest == b.manifest
    &&& a.capabilities@ == b.capabilities@
}

impl Clone for Target {
    fn clone(&self) -> (r: Self)
        ensures
            same_target(r, *self),
    {
        Target {
            id: self.id.clone(),
            name: self.name.clone(),
            family: self.family,
            package: self.package.clone(),
            manifest: self.manifest.clone(),
            capabilities: self.capabilities.clone(),
        }
    }
}

#[derive(Debug, Clone, Copy, PartialEq, Eq, PartialOrd, Ord, Hash, Structural)]
#[non_exhaustive]
pub enum TargetFamily {
    Rust,
    TypeScript,
    CSharp,
}

pub open spec fn family_label(f: TargetFamily) -> Seq<char> {
    match f {
        TargetFamily::Rust => "Rust"@,
        TargetFamily::TypeScript => "TypeScript"@,
        TargetFamily::CSharp => "C#"@,
    }
}

impl TargetFamily {
    pub fn label(self) -> (s: &'static str)
        ensures
            s@ == family_label(self),
    {
        match self {
            TargetFamily::Rust => "Rust",
            TargetFamily::TypeScript => "TypeScript",
            TargetFamily::CSharp => "C#",
        }
    }
}

/// What the build system was asked to do, and what came back.
#[derive(Debug, PartialEq, Eq)]
pub struct BuildOutcome {
    pub configuration: BuildConfiguration,
    /// The artifact's path; absent when the build failed.
    pub artifact: Option<String>,
    pub succeeded: bool,
    /// How long the build took, in nanoseconds.
    pub duration_nanos: u64,
    /// Warnings, so a configuration that builds but complains more than the
    /// baseline is visible rather than silently equal.
    pub warnings: usize,
    /// The evidence record for the build invocation itself.
    pub evidence: EvidenceId,
}

/// Finds targets and builds them under a configuration.
pub trait BuildSystem {
    /// Enumerate what the project at `root` offers.
    fn targets(&self, root: &str) -> Result<Vec<Target>, Error>;

    /// Build one configuration. Implementations write only into the target
    /// directory they were configured with.
    fn build(&mut self, target: &Target, configuration: &BuildConfiguration) -> Result<BuildOutcome, Error>;

    /// The environment this configuration is built under, as `(variable,
    /// value)` pairs.
    ///
    /// The verification gates run under exactly this environment, so a gate
    /// verdict is about the configuration that was built rather than about
    /// whatever the plain build command happens to produce. It must include
    /// the target directory, so the gates build where the sweep built and
    /// never in the user's own cache.
    fn build_environment(&self, configuration: &BuildConfiguration) -> Vec<(String, String)>;
}

/// Reads a built artifact's structure.
pub trait ArtifactReader {
    fn size(&self, artifact: &str) -> Result<ArtifactSize, Error>;

    /// The units bytes attribute to: crates, packages, assemblies. A reader
    /// that cannot attribute reports none, successfully.
    fn units(&self, artifact: &str) -> (r: Result<Vec<UnitSize>, Error>)
        default_ensures
            r matches Ok(v) && v@.len() == 0,
    {
        Ok(Vec::new())
    }
}

/// Bytes attributed to one unit of the artifact.
#[derive(Debug, PartialEq, Eq)]
pub struct UnitSize {
    pub location: Location,
    pub bytes: u64,
    /// How many symbols or modules rolled up into this figure.
    pub items: u32,
}

/// Maps the artifact back to source.
pub trait Symbolizer {
    fn source_for(&self, artifact: &str, address: u64) -> Result<Option<SourceSpan>, Error>;

    /// The human-readable form of a symbol name. For Rust this is v0
    /// demangling; for a managed backend the name arrives readable and this is
    /// the identity.
    fn demangle(&self, symbol: &str) -> (r: String)
        default_ensures
            r@ == symbol@,
    {
        text_of(symbol)
    }
}

/// Times a workload and knows how much of the result is noise.
pub trait MeasurementSource {
    /// Run the user's benchmark against one artifact and return the samples,
    /// in nanoseconds. Samples, not a mean: the caller decides what is
    /// significant.
    fn samples(&mut self, artifact: &str) -> Result<Vec<u64>, Error>;
}

} // verus!
