//! Where a finding is, in terms no backend owns.
//!
//! A location is artifact-neutral on purpose: a Rust symbol, a JavaScript
//! chunk and a managed type all reduce to the same shape.

use crate::evidence::clone_text_option;
use crate::text::{decimal, push_decimal, push_text};
use vstd::prelude::*;

verus! {

/// A source position.
#[derive(Debug, PartialEq, Eq)]
pub struct SourceSpan {
    pub file: String,
    pub line: u32,
    pub column: Option<u32>,
}

impl Clone for SourceSpan {
    fn clone(&self) -> (r: Self)
        ensures
            r == *self,
    {
        SourceSpan { file: self.file.clone(), line: self.line, column: self.column }
    }
}

/// A position in the artifact, the source, or both. A backend that cannot
/// answer a question does not answer it.
#[derive(Debug, PartialEq, Eq)]
pub struct Location {
    /// The unit the artifact divides into: a crate, a package, an assembly.
    pub unit: Option<String>,
    /// The module path within that unit.
    pub module: Option<String>,
    /// The symbol, demangled.
    pub symbol: Option<String>,
    /// The source span, where the backend can map to one.
    pub source: Option<SourceSpan>,
    /// The address within the artifact, where the artifact has addresses.
    pub address: Option<u64>,
    /// The configuration a measurement was taken under, when the finding is
    /// about a build rather than a place in one.
    pub configuration: Option<String>,
}

impl Clone for Location {
    fn clone(&self) -> (r: Self)
        ensures
            r == *self,
    {
        Location {
            unit: clone_text_option(&self.unit),
            module: clone_text_option(&self.module),
            symbol: clone_text_option(&self.symbol),
            source: match &self.source {
                Some(s) => Some(s.clone()),
                None => None,
            },
            address: self.address,
            configuration: clone_text_option(&self.configuration),
        }
    }
}

/// The one-line form of a location.
pub open spec fn location_text(l: Location) -> Seq<char> {
    if l.symbol is Some {
        l.symbol->0@
    } else if l.configuration is Some {
        l.configuration->0@
    } else if l.source is Some {
        l.source->0.file@ + ":"@ + decimal(l.source->0.line as nat)
    } else {
        match (l.unit, l.module) {
            (Some(unit), Some(module)) => unit@ + "::"@ + module@,
            (Some(unit), None) => unit@,
            (None, Some(module)) => module@,
            (None, None) => "the artifact"@,
        }
    }
}

/// Nothing known.
pub open spec fn is_nowhere(l: Location) -> bool {
    l.unit is None && l.module is None && l.symbol is None && l.source is None && l.address is None
        && l.configuration is None
}

impl Location {
    pub fn nowhere() -> (l: Self)
        ensures
            is_nowhere(l),
    {
        Location { unit: None, module: None, symbol: None, source: None, address: None, configuration: None }
    }

    pub fn configuration(name: String) -> (l: Self)
        ensures
            l == (Location { configuration: Some(name), ..Location::nowhere_spec() }),
    {
        Location { configuration: Some(name), ..Location::nowhere() }
    }

    pub fn symbol(name: String) -> (l: Self)
        ensures
            l == (Location { symbol: Some(name), ..Location::nowhere_spec() }),
    {
        Location { symbol: Some(name), ..Location::nowhere() }
    }

    pub open spec fn nowhere_spec() -> Location {
        Location { unit: None, module: None, symbol: None, source: None, address: None, configuration: None }
    }

    pub fn with_unit(self, unit: String) -> (l: Self)
        ensures
            l == (Location { unit: Some(unit), ..self }),
    {
        Location { unit: Some(unit), ..self }
    }

    pub fn with_source(self, file: String, line: u32) -> (l: Self)
        ensures
            l == (Location { source: Some(SourceSpan { file, line, column: None }), ..self }),
    {
        Location { source: Some(SourceSpan { file, line, column: None }), ..self }
    }

    /// The one-line form the interface shows when it has room for one line.
    pub fn describe(&self) -> (s: String)
        ensures
            s@ == location_text(*self),
    {
        if let Some(symbol) = &self.symbol {
            return symbol.clone();
        }
        if let Some(configuration) = &self.configuration {
            return configuration.clone();
        }
        if let Some(source) = &self.source {
            let mut s = source.file.clone();
            push_text(&mut s, ":");
            push_decimal(&mut s, source.line as u64);
            return s;
        }
        let mut s = String::new();
        match (&self.unit, &self.module) {
            (Some(unit), Some(module)) => {
                push_text(&mut s, unit.as_str());
                push_text(&mut s, "::");
                push_text(&mut s, module.as_str());
            },
            (Some(unit), None) => push_text(&mut s, unit.as_str()),
            (None, Some(module)) => push_text(&mut s, module.as_str()),
            (None, None) => push_text(&mut s, "the artifact"),
        }
        assert(s@ =~= location_text(*self));
        s
    }
}

} // verus!
