//! Running an external tool, and the registry that describes the ones we run.
//!
//! This is where the evidence ordering stops being a convention and starts
//! being the only way to run anything: a [`ToolRunner`] records the
//! invocation before the process is spawned, and turns whatever came back
//! into a completed record. There is no path through this module that
//! produces output without a record, which is what the rest of the trust
//! boundary is built on.

use crate::config::{tier_rank, TrustTier};
use crate::error::Error;
use crate::evidence::{
    expected_digest_of, verifies, EvidenceId, EvidenceStore, EvidenceView, PendingEvidence, ToolInvocation,
};
use crate::keyed::{entry, get_keyed, has_key, insert_keyed, keys_ordered, Keyed};
use crate::text::{push_char, push_text, text_of};
use vstd::prelude::*;

verus! {

/// `stdout` and `stderr` together: stdout, then a newline and stderr where
/// both said something.
pub open spec fn combined_text(stdout: Seq<char>, stderr: Seq<char>) -> Seq<char> {
    if stderr.len() == 0 {
        stdout
    } else if stdout.len() == 0 {
        stderr
    } else {
        stdout + "\n"@ + stderr
    }
}

/// stdout and stderr, concatenated in that order.
pub fn combine(stdout: &str, stderr: &str) -> (s: String)
    ensures
        s@ == combined_text(stdout@, stderr@),
{
    if stderr.is_empty() {
        text_of(stdout)
    } else if stdout.is_empty() {
        text_of(stderr)
    } else {
        let mut s = text_of(stdout);
        push_char(&mut s, '\n');
        push_text(&mut s, stderr);
        proof { reveal_strlit("\n"); }
        assert(s@ =~= stdout@ + "\n"@ + stderr@);
        s
    }
}

/// What a tool did, alongside the identifier a finding may cite for it.
#[derive(Debug)]
pub struct ToolOutput {
    pub evidence: EvidenceId,
    pub stdout: String,
    pub stderr: String,
    pub exit_code: i32,
    /// How long it ran, in nanoseconds.
    pub duration_nanos: u64,
}

impl ToolOutput {
    pub fn succeeded(&self) -> (r: bool)
        ensures
            r == (self.exit_code == 0),
    {
        self.exit_code == 0
    }

    /// stdout and stderr, concatenated in that order.
    ///
    /// Not interleaved: interleaving is not reproducible between runs, and a
    /// record that cannot be reproduced is worse than one that is plainly
    /// ordered.
    pub fn combined(&self) -> (s: String)
        ensures
            s@ == combined_text(self.stdout@, self.stderr@),
    {
        combine(self.stdout.as_str(), self.stderr.as_str())
    }
}

/// What came back from a process that was spawned.
#[derive(Debug)]
pub struct SpawnedProcess {
    pub stdout: String,
    pub stderr: String,
    /// `None` when the process was ended by a signal.
    pub exit_code: Option<i32>,
    pub duration_nanos: u64,
}

/// The exit code a record carries: the process's own, or -1 where it had
/// none.
pub open spec fn recorded_exit(code: Option<i32>) -> i32 {
    match code {
        Some(c) => c,
        None => -1i32,
    }
}

/// Runs external tools against one project, recording every one.
///
/// The process itself is spawned by the caller, between [`ToolRunner::begin`]
/// and [`ToolRunner::finish`]: the record exists before anything runs, so a
/// tool that hangs or is killed still leaves a trace of what was attempted.
#[derive(Debug)]
pub struct ToolRunner {
    store: EvidenceStore,
    root: String,
}

impl ToolRunner {
    pub fn new(store: EvidenceStore, root: String) -> (r: Self)
        ensures
            r.spec_store() == store,
            r.spec_root() == root@,
    {
        ToolRunner { store, root }
    }

    pub closed spec fn spec_store(&self) -> EvidenceStore {
        self.store
    }

    pub closed spec fn spec_root(&self) -> Seq<char> {
        self.root@
    }

    pub fn store(&self) -> (s: &EvidenceStore)
        ensures
            *s == self.spec_store(),
    {
        &self.store
    }

    pub fn root(&self) -> (r: &str)
        ensures
            r@ == self.spec_root(),
    {
        self.root.as_str()
    }

    /// The directory a tool runs in: the one its invocation names, or the
    /// project root.
    pub fn directory_for(&self, invocation: &ToolInvocation) -> (d: String)
        ensures
            d@ == match invocation.working_directory {
                Some(w) => w@,
                None => self.spec_root(),
            },
    {
        match &invocation.working_directory {
            Some(w) => w.clone(),
            None => self.root.clone(),
        }
    }

    /// Whether another invocation can be recorded.
    pub fn can_begin(&self) -> (r: bool)
        ensures
            r == (self.spec_store().serial() < u64::MAX),
    {
        self.store.can_begin()
    }

    /// Record an invocation. Called before the tool runs, never after.
    pub fn begin(&mut self, invocation: ToolInvocation) -> (p: PendingEvidence)
        requires
            old(self).spec_store().serial() < u64::MAX,
        ensures
            final(self).spec_root() == old(self).spec_root(),
            final(self).spec_store().serial() == old(self).spec_store().serial() + 1,
            final(self).spec_store().held() == old(self).spec_store().held(),
            p.spec_invocation() == invocation@,
            has_key(final(self).spec_store().awaiting(), p.spec_id()),
    {
        self.store.begin(invocation)
    }

    /// Record what came back, and hand the output over with the identifier a
    /// finding may cite for it.
    ///
    /// A tool that could not be spawned is still a fact about the machine,
    /// and it is recorded as one, with exit code -1.
    pub fn finish(&mut self, pending: PendingEvidence, spawned: Result<SpawnedProcess, String>) -> (r: Result<ToolOutput, Error>)
        ensures
            final(self).spec_root() == old(self).spec_root(),
            final(self).spec_store().serial() == old(self).spec_store().serial(),
            forall|k: Seq<char>| #[trigger] final(self).spec_store().spec_issued(k)
                <==> (old(self).spec_store().spec_issued(k) || k == pending.spec_id()),
            verifies(final(self).spec_store().record(pending.spec_id())),
            final(self).spec_store().record(pending.spec_id())@.invocation == pending.spec_invocation(),
            r is Ok <==> spawned is Ok,
            spawned matches Ok(p) ==> (r matches Ok(o) && {
                &&& o.evidence@ == pending.spec_id()
                &&& o.stdout == p.stdout
                &&& o.stderr == p.stderr
                &&& o.exit_code == recorded_exit(p.exit_code)
                &&& o.duration_nanos == p.duration_nanos
                &&& final(self).spec_store().record(pending.spec_id())@.output == combined_text(p.stdout@, p.stderr@)
                &&& final(self).spec_store().record(pending.spec_id())@.exit_code == recorded_exit(p.exit_code)
            }),
            spawned matches Err(reason) ==> (r matches Err(Error::ToolUnavailable { tool, reason: why }) && {
                &&& tool@ == pending.spec_invocation().tool
                &&& why == reason
                &&& final(self).spec_store().record(pending.spec_id())@.output == "failed to spawn: "@ + reason@
                &&& final(self).spec_store().record(pending.spec_id())@.exit_code == -1
            }),
    {
        let tool = pending.invocation().tool.clone();
        match spawned {
            Ok(p) => {
                let combined = combine(p.stdout.as_str(), p.stderr.as_str());
                let exit_code = match p.exit_code {
                    Some(c) => c,
                    None => -1i32,
                };
                let evidence = self.store.complete(pending, combined, exit_code);
                Ok(ToolOutput {
                    evidence,
                    stdout: p.stdout,
                    stderr: p.stderr,
                    exit_code,
                    duration_nanos: p.duration_nanos,
                })
            },
            Err(reason) => {
                let mut output = text_of("failed to spawn: ");
                push_text(&mut output, reason.as_str());
                let _ = self.store.complete(pending, output, -1);
                Err(Error::ToolUnavailable { tool, reason })
            },
        }
    }
}

/// What one tool is, in the terms an external agent needs.
///
/// The description string is the entire briefing an agent arriving from
/// outside gets, which is why it is a full sentence and not an identifier.
#[derive(Debug, PartialEq, Eq)]
pub struct ToolSpec {
    pub name: String,
    pub description: String,
    /// Whether running it changes anything outside our own target directory.
    /// The trust tier gates on this, whoever called the tool.
    pub side_effects: bool,
    pub required_tier: TrustTier,
}

impl Clone for ToolSpec {
    fn clone(&self) -> (r: Self)
        ensures
            r == *self,
    {
        ToolSpec {
            name: self.name.clone(),
            description: self.description.clone(),
            side_effects: self.side_effects,
            required_tier: self.required_tier,
        }
    }
}

impl Keyed for ToolSpec {
    open spec fn key(&self) -> Seq<char> {
        self.name@
    }

    fn key_text(&self) -> (r: &str) {
        self.name.as_str()
    }
}

impl ToolSpec {
    pub fn read_only(name: String, description: String) -> (s: Self)
        ensures
            s == (ToolSpec { name, description, side_effects: false, required_tier: TrustTier::Observe }),
    {
        ToolSpec { name, description, side_effects: false, required_tier: TrustTier::Observe }
    }

    pub fn writes(name: String, description: String, required_tier: TrustTier) -> (s: Self)
        ensures
            s == (ToolSpec { name, description, side_effects: true, required_tier }),
    {
        ToolSpec { name, description, side_effects: true, required_tier }
    }
}

/// One registry, two exposures: natively to our own loop, and to external
/// agents. A tool written twice means the abstraction has broken.
#[derive(Debug)]
pub struct ToolRegistry {
    /// Ordered by name, each name once.
    specs: Vec<ToolSpec>,
}

impl View for ToolRegistry {
    type V = Seq<ToolSpec>;

    closed spec fn view(&self) -> Seq<ToolSpec> {
        self.specs@
    }
}

impl ToolRegistry {
    #[verifier::type_invariant]
    spec fn ordered(self) -> bool {
        keys_ordered(self.specs@)
    }

    pub fn new() -> (r: Self)
        ensures
            r@ == Seq::<ToolSpec>::empty(),
    {
        ToolRegistry { specs: Vec::new() }
    }

    /// Register a tool. Returns an error rather than overwriting, because two
    /// registrations of one name is the abstraction breaking, not a preference.
    pub fn register(&mut self, spec: ToolSpec) -> (r: Result<(), Error>)
        ensures
            r is Ok <==> !has_key(old(self)@, spec.name@),
            r is Err ==> final(self)@ == old(self)@,
            r matches Err(e) ==> (e matches Error::Other(m) && m@ == "`"@ + spec.name@ + "` is already registered"@),
            r is Ok ==> {
                &&& forall|k: Seq<char>| #[trigger] has_key(final(self)@, k) <==> (has_key(old(self)@, k) || k == spec.name@)
                &&& entry(final(self)@, spec.name@) == spec
                &&& forall|k: Seq<char>| k != spec.name@ && has_key(old(self)@, k)
                    ==> #[trigger] entry(final(self)@, k) == entry(old(self)@, k)
                &&& final(self)@.len() == old(self)@.len() + 1
            },
    {
        proof { use_type_invariant(&*self); }
        if get_keyed(&self.specs, spec.name.as_str()).is_some() {
            let mut message = text_of("`");
            push_text(&mut message, spec.name.as_str());
            push_text(&mut message, "` is already registered");
            return Err(Error::Other(message));
        }
        let mut specs: Vec<ToolSpec> = Vec::new();
        std::mem::swap(&mut specs, &mut self.specs);
        insert_keyed(&mut specs, spec);
        self.specs = specs;
        Ok(())
    }

    pub fn get(&self, name: &str) -> (r: Option<&ToolSpec>)
        ensures
            r is Some <==> has_key(self@, name@),
            r matches Some(s) ==> *s == entry(self@, name@),
    {
        proof { use_type_invariant(self); }
        get_keyed(&self.specs, name)
    }

    /// Every registered tool, ordered by name.
    pub fn specs(&self) -> (r: Vec<&ToolSpec>)
        ensures
            r@.len() == self@.len(),
            forall|i: int| 0 <= i < r@.len() ==> *(#[trigger] r@[i]) == self@[i],
            keys_ordered(self@),
    {
        proof { use_type_invariant(self); }
        let mut r: Vec<&ToolSpec> = Vec::new();
        let mut i: usize = 0;
        while i < self.specs.len()
            invariant
                i <= self.specs@.len(),
                r@.len() == i,
                forall|j: int| 0 <= j < i ==> *(#[trigger] r@[j]) == self.specs@[j],
            decreases self.specs@.len() - i,
        {
            r.push(&self.specs[i]);
            i = i + 1;
        }
        r
    }

    /// Check a call against the session's tier before it runs: the same check
    /// whether the caller is our own loop or an external agent.
    pub fn authorize(&self, name: &str, tier: TrustTier) -> (r: Result<&ToolSpec, Error>)
        ensures
            !has_key(self@, name@) ==> (r matches Err(Error::Other(m)) && m@ == "`"@ + name@ + "` is not a registered tool"@),
            has_key(self@, name@) ==> {
                let s = entry(self@, name@);
                &&& r is Ok <==> tier_rank(tier) >= tier_rank(s.required_tier)
                &&& r matches Ok(found) ==> *found == s
                &&& r matches Err(e) ==> (e matches Error::TierTooLow { action, required, current }
                    && action@ == s.name@ && required == s.required_tier && current == tier)
            },
    {
        match self.get(name) {
            None => {
                let mut message = text_of("`");
                push_text(&mut message, name);
                push_text(&mut message, "` is not a registered tool");
                Err(Error::Other(message))
            },
            Some(spec) => {
                match tier.require(spec.required_tier, spec.name.as_str()) {
                    Ok(()) => Ok(spec),
                    Err(e) => Err(e),
                }
            },
        }
    }
}

} // verus!
