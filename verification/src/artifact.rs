//! What a built artifact weighs, and what it is made of.

use crate::text::text_eq;
use vstd::prelude::*;

verus! {

/// One named region of the artifact: an ELF section, a bundle chunk, a managed
/// assembly. The name is the backend's, unaltered.
#[derive(Debug, PartialEq, Eq)]
pub struct Section {
    pub name: String,
    pub bytes: u64,
    /// Whether the section occupies space in the file on disk. `.bss` does not,
    /// and a size report that pretends otherwise is wrong by exactly its size.
    pub occupies_file: bool,
}

impl Clone for Section {
    fn clone(&self) -> (r: Self)
        ensures
            r == *self,
    {
        Section { name: self.name.clone(), bytes: self.bytes, occupies_file: self.occupies_file }
    }
}

/// Sizes under the compressions that are actually served, with the settings
/// recorded: a claim under brotli 11 served at quality 4 is a wrong number
/// delivered confidently.
#[derive(Debug, Clone, Copy, PartialEq, Eq, Structural)]
pub struct CompressedSize {
    pub gzip_bytes: u64,
    pub brotli_bytes: u64,
    pub gzip_level: u32,
    pub brotli_quality: u32,
}

/// The size of one built artifact, per section and in total.
#[derive(Debug, PartialEq, Eq)]
pub struct ArtifactSize {
    pub path: String,
    /// The file's size on disk. The headline number, because it is the number
    /// the user's disk and their release page both report.
    pub total_bytes: u64,
    pub sections: Vec<Section>,
    /// Set for artifacts that are served compressed; `None` where compression
    /// is not part of how the artifact is delivered, rather than zero.
    pub compressed: Option<CompressedSize>,
}

/// The bytes the sections in `s` occupy in the file.
pub open spec fn file_bytes(s: Seq<Section>) -> nat
    decreases s.len(),
{
    if s.len() == 0 {
        0
    } else {
        file_bytes(s.drop_last()) + if s.last().occupies_file { s.last().bytes as nat } else { 0 }
    }
}

proof fn lemma_file_bytes_prefix(s: Seq<Section>, k: int)
    requires
        0 <= k <= s.len(),
    ensures
        file_bytes(s.take(k)) <= file_bytes(s),
    decreases s.len() - k,
{
    if k < s.len() {
        lemma_file_bytes_prefix(s, k + 1);
        assert(s.take(k + 1).drop_last() =~= s.take(k));
    } else {
        assert(s.take(k) =~= s);
    }
}

impl ArtifactSize {
    pub fn new(path: String, total_bytes: u64) -> (a: Self)
        ensures
            a.path == path,
            a.total_bytes == total_bytes,
            a.sections@ == Seq::<Section>::empty(),
            a.compressed is None,
    {
        ArtifactSize { path, total_bytes, sections: Vec::new(), compressed: None }
    }

    /// The bytes actually present in the file, summed over sections. Differs
    /// from `total_bytes` by headers and padding, and the difference is
    /// reported rather than hidden.
    pub fn section_bytes(&self) -> (n: u64)
        requires
            file_bytes(self.sections@) <= u64::MAX,
        ensures
            n == file_bytes(self.sections@),
    {
        let mut n: u64 = 0;
        let mut i: usize = 0;
        while i < self.sections.len()
            invariant
                i <= self.sections@.len(),
                file_bytes(self.sections@) <= u64::MAX,
                n == file_bytes(self.sections@.take(i as int)),
            decreases self.sections@.len() - i,
        {
            assert(self.sections@.take(i + 1).drop_last() =~= self.sections@.take(i as int));
            proof { lemma_file_bytes_prefix(self.sections@, i + 1); }
            if self.sections[i].occupies_file {
                n = n + self.sections[i].bytes;
            }
            i = i + 1;
        }
        assert(self.sections@.take(self.sections@.len() as int) =~= self.sections@);
        n
    }

    /// The first section called `name`.
    pub fn section(&self, name: &str) -> (r: Option<&Section>)
        ensures
            r is None <==> forall|i: int| 0 <= i < self.sections@.len() ==> (#[trigger] self.sections@[i]).name@ != name@,
            r matches Some(s) ==> exists|i: int|
                0 <= i < self.sections@.len() && #[trigger] self.sections@[i] == *s && s.name@ == name@
                && forall|j: int| 0 <= j < i ==> (#[trigger] self.sections@[j]).name@ != name@,
    {
        let mut i: usize = 0;
        while i < self.sections.len()
            invariant
                i <= self.sections@.len(),
                forall|j: int| 0 <= j < i ==> (#[trigger] self.sections@[j]).name@ != name@,
            decreases self.sections@.len() - i,
        {
            if text_eq(self.sections[i].name.as_str(), name) {
                return Some(&self.sections[i]);
            }
            i = i + 1;
        }
        None
    }
}

} // verus!
