//! What a target can and cannot support, declared rather than discovered at
//! the point of use.
//!
//! A view a target cannot support is absent from the nav rail rather than
//! present and empty, and a blocked action states its reason rather than
//! disappearing. A missing view is a property of the target; a blocked action
//! is a property of the session.

use crate::error::Error;
use crate::text::{join, push_text};
use vstd::prelude::*;

verus! {

/// One thing a target may be able to do.
#[derive(Debug, Clone, Copy, PartialEq, Eq, PartialOrd, Ord, Hash, Structural)]
#[non_exhaustive]
pub enum Capability {
    /// The build system can sweep a configuration matrix.
    ConfigurationSweep,
    /// Bytes can be attributed to units of the artifact.
    SizeAttribution,
    /// Compressed sizes are meaningful, because the artifact is served
    /// compressed.
    CompressedSize,
    /// Symbols map to source spans.
    SourceMapping,
    /// Generic instantiations can be grouped.
    Monomorphization,
    /// Core dumps can be loaded and unwound.
    CrashAnalysis,
    /// The artifact can be disassembled.
    Disassembly,
    /// Sampling profiles can be collected and attributed.
    PerformanceAttribution,
    /// Load-time phases can be measured. Web only.
    LoadTime,
    /// Execution can be recorded and replayed.
    ReplayDebugging,
}

/// Where a capability sits in declaration order, which is the order a set of
/// them is listed in.
pub open spec fn capability_index(c: Capability) -> nat {
    match c {
        Capability::ConfigurationSweep => 0,
        Capability::SizeAttribution => 1,
        Capability::CompressedSize => 2,
        Capability::SourceMapping => 3,
        Capability::Monomorphization => 4,
        Capability::CrashAnalysis => 5,
        Capability::Disassembly => 6,
        Capability::PerformanceAttribution => 7,
        Capability::LoadTime => 8,
        Capability::ReplayDebugging => 9,
    }
}

/// The plain-words form of a capability: a sentence fragment.
pub open spec fn capability_phrase(c: Capability) -> Seq<char> {
    match c {
        Capability::ConfigurationSweep => "sweep build configurations"@,
        Capability::SizeAttribution => "attribute size to crates and functions"@,
        Capability::CompressedSize => "report gzip and brotli sizes"@,
        Capability::SourceMapping => "map the artifact back to source"@,
        Capability::Monomorphization => "group generic instantiations"@,
        Capability::CrashAnalysis => "analyse core dumps"@,
        Capability::Disassembly => "disassemble"@,
        Capability::PerformanceAttribution => "attribute samples to source lines"@,
        Capability::LoadTime => "measure load time"@,
        Capability::ReplayDebugging => "record and replay execution"@,
    }
}

pub proof fn lemma_capability_index_injective(a: Capability, b: Capability)
    ensures
        capability_index(a) == capability_index(b) <==> a == b,
{
}

impl Capability {
    /// Where this capability sits in declaration order.
    pub fn index(self) -> (i: u8)
        ensures
            i as nat == capability_index(self),
    {
        match self {
            Capability::ConfigurationSweep => 0,
            Capability::SizeAttribution => 1,
            Capability::CompressedSize => 2,
            Capability::SourceMapping => 3,
            Capability::Monomorphization => 4,
            Capability::CrashAnalysis => 5,
            Capability::Disassembly => 6,
            Capability::PerformanceAttribution => 7,
            Capability::LoadTime => 8,
            Capability::ReplayDebugging => 9,
        }
    }

    /// The plain-words form the project view uses when it states what a target
    /// can do. Sentence fragments, not identifiers.
    pub fn describe(self) -> (s: &'static str)
        ensures
            s@ == capability_phrase(self),
    {
        match self {
            Capability::ConfigurationSweep => "sweep build configurations",
            Capability::SizeAttribution => "attribute size to crates and functions",
            Capability::CompressedSize => "report gzip and brotli sizes",
            Capability::SourceMapping => "map the artifact back to source",
            Capability::Monomorphization => "group generic instantiations",
            Capability::CrashAnalysis => "analyse core dumps",
            Capability::Disassembly => "disassemble",
            Capability::PerformanceAttribution => "attribute samples to source lines",
            Capability::LoadTime => "measure load time",
            Capability::ReplayDebugging => "record and replay execution",
        }
    }
}

/// Whether `s` lists capabilities in declaration order, each at most once.
pub open spec fn strictly_ordered(s: Seq<Capability>) -> bool {
    forall|i: int, j: int|
        0 <= i < j < s.len() ==> capability_index(#[trigger] s[i]) < capability_index(#[trigger] s[j])
}

/// Two listings in declaration order, each capability once, that hold the
/// same capabilities are the same listing: a set of capabilities is listed
/// one way only.
pub proof fn lemma_ordered_listing_is_unique(a: Seq<Capability>, b: Seq<Capability>)
    requires
        strictly_ordered(a),
        strictly_ordered(b),
        forall|c: Capability| a.contains(c) <==> b.contains(c),
    ensures
        a == b,
    decreases a.len(),
{
    if a.len() == 0 {
        if b.len() > 0 {
            assert(b.contains(b[0]));
        }
        assert(b =~= a);
    } else {
        assert(a.contains(a[0]));
        assert(b.len() > 0);
        assert(b.contains(b[0]));
        let j = choose|j: int| 0 <= j < b.len() && b[j] == a[0];
        let k = choose|k: int| 0 <= k < a.len() && a[k] == b[0];
        if j > 0 {
            assert(capability_index(b[0]) < capability_index(b[j]));
            if k > 0 {
                assert(capability_index(a[0]) < capability_index(a[k]));
            }
        }
        assert(a[0] == b[0]);
        let ra = a.drop_first();
        let rb = b.drop_first();
        assert forall|i: int, l: int| 0 <= i < l < ra.len() implies
            capability_index(#[trigger] ra[i]) < capability_index(#[trigger] ra[l]) by {
            assert(ra[i] == a[i + 1] && ra[l] == a[l + 1]);
        }
        assert forall|i: int, l: int| 0 <= i < l < rb.len() implies
            capability_index(#[trigger] rb[i]) < capability_index(#[trigger] rb[l]) by {
            assert(rb[i] == b[i + 1] && rb[l] == b[l + 1]);
        }
        assert forall|c: Capability| ra.contains(c) <==> rb.contains(c) by {
            if ra.contains(c) {
                let x = choose|x: int| 0 <= x < ra.len() && ra[x] == c;
                assert(a[x + 1] == c);
                assert(capability_index(a[0]) < capability_index(c));
                assert(a.contains(c));
                let y = choose|y: int| 0 <= y < b.len() && b[y] == c;
                assert(y != 0);
                assert(rb[y - 1] == c);
            }
            if rb.contains(c) {
                let x = choose|x: int| 0 <= x < rb.len() && rb[x] == c;
                assert(b[x + 1] == c);
                assert(capability_index(b[0]) < capability_index(c));
                assert(b.contains(c));
                let y = choose|y: int| 0 <= y < a.len() && a[y] == c;
                assert(y != 0);
                assert(ra[y - 1] == c);
            }
        }
        lemma_ordered_listing_is_unique(ra, rb);
        assert(a =~= seq![a[0]] + ra);
        assert(b =~= seq![b[0]] + rb);
    }
}

/// The sentence the project view puts under a target that can do `s`.
pub open spec fn capability_sentence(s: Seq<Capability>) -> Seq<char> {
    let parts = s.map_values(|c: Capability| capability_phrase(c));
    if parts.len() == 0 {
        "Nothing Binmap can measure yet."@
    } else if parts.len() == 1 {
        "Binmap can "@ + parts[0] + "."@
    } else {
        "Binmap can "@ + join(parts.drop_last(), ", "@) + " and "@ + parts.last() + "."@
    }
}

/// The capabilities one target declares: a set, listed in declaration order.
#[derive(Debug, PartialEq, Eq)]
pub struct Capabilities {
    members: Vec<Capability>,
}

impl View for Capabilities {
    type V = Seq<Capability>;

    closed spec fn view(&self) -> Seq<Capability> {
        self.members@
    }
}

impl Clone for Capabilities {
    fn clone(&self) -> (r: Self)
        ensures
            r@ == self@,
    {
        proof { use_type_invariant(self); }
        let members = self.members.clone();
        assert(members@ =~= self.members@);
        Capabilities { members }
    }
}

impl Capabilities {
    #[verifier::type_invariant]
    spec fn ordered(self) -> bool {
        strictly_ordered(self.members@)
    }

    /// A target that can do nothing Binmap measures.
    pub fn none() -> (r: Self)
        ensures
            r@ == Seq::<Capability>::empty(),
    {
        Capabilities { members: Vec::new() }
    }

    /// The set holding exactly the capabilities in `list`, in declaration
    /// order, each once.
    pub fn of(list: &[Capability]) -> (r: Self)
        ensures
            forall|c: Capability| r@.contains(c) <==> list@.contains(c),
            strictly_ordered(r@),
    {
        let mut r = Capabilities::none();
        let mut i: usize = 0;
        while i < list.len()
            invariant
                i <= list@.len(),
                forall|c: Capability| r@.contains(c) <==> (exists|j: int| 0 <= j < i && #[trigger] list@[j] == c),
            decreases list@.len() - i,
        {
            r.insert(list[i]);
            proof {
                assert forall|c: Capability| r@.contains(c) <==> (exists|j: int| 0 <= j < i + 1 && #[trigger] list@[j] == c) by {
                    if c == list@[i as int] {
                        assert(list@[i as int] == c);
                    }
                }
            }
            i = i + 1;
        }
        proof { use_type_invariant(&r); }
        r
    }

    /// Adds a capability, keeping declaration order and listing each once.
    pub fn insert(&mut self, capability: Capability)
        ensures
            forall|c: Capability| final(self)@.contains(c) <==> (old(self)@.contains(c) || c == capability),
            strictly_ordered(final(self)@),
    {
        proof { use_type_invariant(&*self); }
        let key = capability.index();
        let mut p: usize = 0;
        while p < self.members.len() && self.members[p].index() < key
            invariant
                p <= self.members@.len(),
                strictly_ordered(self.members@),
                key as nat == capability_index(capability),
                forall|j: int| 0 <= j < p ==> capability_index(#[trigger] self.members@[j]) < key,
            decreases self.members@.len() - p,
        {
            p = p + 1;
        }
        if p < self.members.len() && self.members[p].index() == key {
            proof {
                lemma_capability_index_injective(self.members@[p as int], capability);
                assert(self.members@.contains(capability));
            }
            return;
        }
        let ghost before = self.members@;
        let mut members: Vec<Capability> = Vec::new();
        std::mem::swap(&mut members, &mut self.members);
        members.insert(p, capability);
        assert(strictly_ordered(members@)) by {
            assert forall|i: int, j: int| 0 <= i < j < members@.len() implies
                capability_index(#[trigger] members@[i]) < capability_index(#[trigger] members@[j]) by {
                if j < p {
                } else if j == p {
                } else if i < p {
                    assert(members@[j] == before[j - 1]);
                    if j - 1 > p {
                        assert(capability_index(before[p as int]) < capability_index(before[j - 1]));
                    }
                } else if i == p {
                    assert(members@[j] == before[j - 1]);
                    if j - 1 > p {
                        assert(capability_index(before[p as int]) < capability_index(before[j - 1]));
                    }
                } else {
                    assert(members@[i] == before[i - 1]);
                    assert(members@[j] == before[j - 1]);
                }
            }
        }
        self.members = members;
        proof {
            assert forall|c: Capability| self@.contains(c) <==> (before.contains(c) || c == capability) by {
                if self@.contains(c) {
                    let k = choose|k: int| 0 <= k < self@.len() && self@[k] == c;
                    if k < p {
                        assert(before[k] == c);
                    } else if k > p {
                        assert(before[k - 1] == c);
                    }
                }
                if before.contains(c) {
                    let k = choose|k: int| 0 <= k < before.len() && before[k] == c;
                    if k < p {
                        assert(self@[k] == c);
                    } else {
                        assert(self@[k + 1] == c);
                    }
                }
                assert(self@[p as int] == capability);
            }
        }
    }

    pub fn has(&self, capability: Capability) -> (r: bool)
        ensures
            r == self@.contains(capability),
    {
        let mut i: usize = 0;
        while i < self.members.len()
            invariant
                i <= self.members@.len(),
                forall|j: int| 0 <= j < i ==> self.members@[j] != capability,
            decreases self.members@.len() - i,
        {
            if self.members[i] == capability {
                return true;
            }
            i = i + 1;
        }
        false
    }

    /// The capabilities, in declaration order.
    pub fn iter(&self) -> (r: Vec<Capability>)
        ensures
            r@ == self@,
    {
        let r = self.members.clone();
        assert(r@ =~= self.members@);
        r
    }

    pub fn is_empty(&self) -> (r: bool)
        ensures
            r == (self@.len() == 0),
    {
        self.members.len() == 0
    }

    /// The sentence the project view puts under a target's name.
    pub fn sentence(&self) -> (s: String)
        ensures
            s@ == capability_sentence(self@),
    {
        let n = self.members.len();
        let ghost parts = self@.map_values(|c: Capability| capability_phrase(c));
        if n == 0 {
            return String::from_str("Nothing Binmap can measure yet.");
        }
        let mut s = String::from_str("Binmap can ");
        if n == 1 {
            push_text(&mut s, self.members[0].describe());
            push_text(&mut s, ".");
            return s;
        }
        let mut i: usize = 0;
        while i + 1 < n
            invariant
                n == self.members@.len(),
                n >= 2,
                i + 1 <= n,
                parts == self@.map_values(|c: Capability| capability_phrase(c)),
                self@ == self.members@,
                s@ == "Binmap can "@ + join(parts.take(i as int), ", "@),
            decreases n - i,
        {
            assert(parts.take(i + 1).drop_last() =~= parts.take(i as int));
            if i > 0 {
                push_text(&mut s, ", ");
            } else {
                assert(join(parts.take(0), ", "@) =~= seq![]);
                assert(s@ =~= "Binmap can "@);
            }
            push_text(&mut s, self.members[i].describe());
            proof {
                if i == 0 {
                    assert(join(parts.take(1), ", "@) == parts.take(1)[0]);
                }
                assert(s@ =~= "Binmap can "@ + join(parts.take(i + 1), ", "@));
            }
            i = i + 1;
        }
        assert(parts.take((n - 1) as int) =~= parts.drop_last());
        push_text(&mut s, " and ");
        push_text(&mut s, self.members[n - 1].describe());
        push_text(&mut s, ".");
        assert(s@ =~= capability_sentence(self@));
        s
    }

    /// Require a capability, producing the error that names what is missing.
    pub fn require(&self, capability: Capability) -> (r: Result<(), Error>)
        ensures
            r is Ok <==> self@.contains(capability),
            r is Err ==> r == Err::<(), Error>(Error::Unsupported(capability)),
    {
        if self.has(capability) {
            Ok(())
        } else {
            Err(Error::Unsupported(capability))
        }
    }
}

} // verus!
