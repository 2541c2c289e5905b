//! The evidence store, and the ordering the whole trust boundary rests on.
//!
//! Every tool invocation writes a record carrying an identifier before its
//! result is returned to anyone. Nothing else can mint an identifier, so a
//! claim citing one that the store never issued is detectable.
//!
//! The usage is two-step and cannot be short-circuited: `begin` records the
//! invocation and mints the identifier, `complete` attaches the output.

use crate::keyed::{entry, find_key, has_key, insert_keyed, keys_ordered, lemma_entry, remove_keyed,
    Keyed};
use crate::text::{chars_of, decimal, push_char, push_decimal, push_text, text_of, parse_u64,
    parse_u64_spec};
use vstd::prelude::*;
use sha2::Digest;
use vstd::utf8::encode_utf8;

verus! {

/// A handle to one recorded tool invocation.
///
/// An identifier that exists was issued by a store, or read back from a
/// session artifact; a read-back identifier is worthless until a store
/// confirms it issued it.
#[derive(Debug, PartialEq, Eq, PartialOrd, Ord, Hash)]
pub struct EvidenceId(String);

impl View for EvidenceId {
    type V = Seq<char>;

    closed spec fn view(&self) -> Seq<char> {
        self.0@
    }
}

impl Clone for EvidenceId {
    fn clone(&self) -> (r: Self)
        ensures
            r == *self,
    {
        EvidenceId(self.0.clone())
    }
}

impl EvidenceId {
    pub fn as_str(&self) -> (s: &str)
        ensures
            s@ == self@,
    {
        self.0.as_str()
    }

    /// An identifier as a session artifact spells it. Nothing honours it
    /// until a store holds a record under it.
    pub fn recorded(text: String) -> (id: EvidenceId)
        ensures
            id@ == text@,
    {
        EvidenceId(text)
    }

    /// The identifier as text.
    pub fn to_string(&self) -> (s: String)
        ensures
            s@ == self@,
    {
        self.0.clone()
    }
}

/// `width` digits at least, zero-padded on the left.
pub open spec fn zero_padded(digits: Seq<char>, width: nat) -> Seq<char> {
    if digits.len() >= width {
        digits
    } else {
        Seq::new((width - digits.len()) as nat, |i: int| '0') + digits
    }
}

/// Append `n` in decimal, zero-padded on the left to `width` digits.
pub fn push_zero_padded(text: &mut String, n: u64, width: usize)
    ensures
        final(text)@ == old(text)@ + zero_padded(decimal(n as nat), width as nat),
{
    let digits = crate::text::decimal_string(n);
    let count = chars_of(digits.as_str()).len();
    let mut pad: usize = count;
    let ghost head = text@;
    while pad < width
        invariant
            count <= pad <= width || (count > width && pad == count),
            count == decimal(n as nat).len(),
            text@ == head + Seq::new((pad - count) as nat, |i: int| '0'),
        decreases width - pad,
    {
        push_char(text, '0');
        assert(text@ =~= head + Seq::new((pad + 1 - count) as nat, |i: int| '0'));
        pad = pad + 1;
    }
    push_text(text, digits.as_str());
    proof {
        if count < width {
            assert(pad == width);
        } else {
            assert(Seq::new((pad - count) as nat, |i: int| '0') =~= Seq::<char>::empty());
        }
        assert(text@ =~= head + zero_padded(decimal(n as nat), width as nat));
    }
}

/// The identifier the store mints for its `serial`th invocation.
pub open spec fn serial_id(serial: nat) -> Seq<char> {
    "ev-"@ + zero_padded(decimal(serial), 6)
}

/// What was run, and with what, as plain text.
pub struct ToolInvocationView {
    pub tool: Seq<char>,
    pub arguments: Seq<Seq<char>>,
    pub working_directory: Option<Seq<char>>,
}

pub open spec fn option_text(o: Option<String>) -> Option<Seq<char>> {
    match o {
        Some(s) => Some(s@),
        None => None,
    }
}

pub open spec fn texts(v: Seq<String>) -> Seq<Seq<char>> {
    v.map_values(|s: String| s@)
}

/// What was run, and with what. Recorded before the run, so a tool that hangs
/// or crashes still leaves a trace of what was attempted.
#[derive(Debug, PartialEq, Eq)]
pub struct ToolInvocation {
    pub tool: String,
    pub arguments: Vec<String>,
    /// Set when the invocation is scoped to a directory that is not the
    /// project root.
    pub working_directory: Option<String>,
}

impl View for ToolInvocation {
    type V = ToolInvocationView;

    open spec fn view(&self) -> ToolInvocationView {
        ToolInvocationView {
            tool: self.tool@,
            arguments: texts(self.arguments@),
            working_directory: option_text(self.working_directory),
        }
    }
}

pub fn clone_text_option(o: &Option<String>) -> (r: Option<String>)
    ensures
        r == *o,
{
    match o {
        Some(s) => Some(s.clone()),
        None => None,
    }
}

pub fn clone_texts(v: &Vec<String>) -> (r: Vec<String>)
    ensures
        r@ == v@,
{
    let r = v.clone();
    assert(r@ =~= v@);
    r
}

impl Clone for ToolInvocation {
    fn clone(&self) -> (r: Self)
        ensures
            r@ == self@,
            r.tool == self.tool,
            r.arguments@ == self.arguments@,
            r.working_directory == self.working_directory,
    {
        ToolInvocation {
            tool: self.tool.clone(),
            arguments: clone_texts(&self.arguments),
            working_directory: clone_text_option(&self.working_directory),
        }
    }
}

/// Whether `s` holds a space.
pub open spec fn has_space(s: Seq<char>) -> bool {
    exists|i: int| 0 <= i < s.len() && s[i] == ' '
}

/// One argument as a user would retype it: quoted when it holds a space.
pub open spec fn retyped(a: Seq<char>) -> Seq<char> {
    if has_space(a) { "'"@ + a + "'"@ } else { a }
}

/// The arguments, each after a space.
pub open spec fn retyped_arguments(args: Seq<Seq<char>>) -> Seq<char>
    decreases args.len(),
{
    if args.len() == 0 {
        seq![]
    } else {
        retyped_arguments(args.drop_last()) + " "@ + retyped(args.last())
    }
}

/// The command as a user would type it.
pub open spec fn command_line_of(v: ToolInvocationView) -> Seq<char> {
    v.tool + retyped_arguments(v.arguments)
}

fn contains_space(s: &str) -> (r: bool)
    ensures
        r == has_space(s@),
{
    let c = chars_of(s);
    let mut i: usize = 0;
    while i < c.len()
        invariant
            c@ == s@,
            i <= c@.len(),
            forall|j: int| 0 <= j < i ==> c@[j] != ' ',
        decreases c@.len() - i,
    {
        if c[i] == ' ' {
            return true;
        }
        i = i + 1;
    }
    false
}

impl ToolInvocation {
    pub fn new(tool: String, arguments: Vec<String>) -> (r: Self)
        ensures
            r.tool == tool,
            r.arguments == arguments,
            r.working_directory is None,
    {
        ToolInvocation { tool, arguments, working_directory: None }
    }

    /// The same invocation, scoped to `directory`.
    pub fn in_directory(self, directory: String) -> (r: Self)
        ensures
            r.tool == self.tool,
            r.arguments == self.arguments,
            r.working_directory == Some(directory),
    {
        ToolInvocation { working_directory: Some(directory), ..self }
    }

    /// The command as a user would type it. Shown so a claim can be
    /// reproduced by hand.
    pub fn command_line(&self) -> (line: String)
        ensures
            line@ == command_line_of(self@),
    {
        let mut line = self.tool.clone();
        let ghost args = texts(self.arguments@);
        let mut i: usize = 0;
        while i < self.arguments.len()
            invariant
                i <= self.arguments@.len(),
                args == texts(self.arguments@),
                line@ == self.tool@ + retyped_arguments(args.take(i as int)),
            decreases self.arguments@.len() - i,
        {
            assert(args.take(i + 1).drop_last() =~= args.take(i as int));
            assert(args.take(i + 1).last() == self.arguments@[i as int]@);
            let argument = self.arguments[i].as_str();
            push_char(&mut line, ' ');
            if contains_space(argument) {
                push_char(&mut line, '\'');
                push_text(&mut line, argument);
                push_char(&mut line, '\'');
            } else {
                push_text(&mut line, argument);
            }
            proof {
                reveal_strlit(" ");
                reveal_strlit("'");
                assert(line@ =~= self.tool@ + retyped_arguments(args.take(i + 1)));
            }
            i = i + 1;
        }
        assert(args.take(self.arguments@.len() as int) =~= args);
        line
    }
}

/// One record, as plain values.
pub struct EvidenceView {
    pub id: Seq<char>,
    pub invocation: ToolInvocationView,
    pub output: Seq<char>,
    pub digest: Seq<char>,
    pub exit_code: i32,
    pub redacted_from: Option<Seq<char>>,
}

/// One complete record: what ran, what it said, and a digest of what it said.
#[derive(Debug, PartialEq, Eq)]
pub struct Evidence {
    pub id: EvidenceId,
    pub invocation: ToolInvocation,
    /// The verbatim output.
    pub output: String,
    /// `sha256` of the whole record, hex-encoded.
    pub digest: String,
    /// The process exit status, where the tool is a process.
    pub exit_code: i32,
    /// The digest this record carried before an export redacted it. Its
    /// presence is the statement that this record is not byte-for-byte what
    /// the tool produced.
    pub redacted_from: Option<String>,
}

impl View for Evidence {
    type V = EvidenceView;

    open spec fn view(&self) -> EvidenceView {
        EvidenceView {
            id: self.id@,
            invocation: self.invocation@,
            output: self.output@,
            digest: self.digest@,
            exit_code: self.exit_code,
            redacted_from: option_text(self.redacted_from),
        }
    }
}

impl Clone for Evidence {
    fn clone(&self) -> (r: Self)
        ensures
            r@ == self@,
    {
        Evidence {
            id: self.id.clone(),
            invocation: self.invocation.clone(),
            output: self.output.clone(),
            digest: self.digest.clone(),
            exit_code: self.exit_code,
            redacted_from: clone_text_option(&self.redacted_from),
        }
    }
}

/// SHA-256 of `data`.
pub uninterp spec fn sha256(data: Seq<u8>) -> Seq<u8>;

/// `sha2::Sha256::digest`: the SHA-256 of `data`, 32 bytes.
#[verifier::external_body]
fn sha256_digest(data: &[u8]) -> (r: Vec<u8>)
    ensures
        r@ == sha256(data@),
        r@.len() == 32,
{
    sha2::Sha256::digest(data).to_vec()
}

pub open spec fn hex_digit(n: nat) -> char {
    if n < 10 {
        crate::text::digit_char(n)
    } else if n == 10 { 'a' }
    else if n == 11 { 'b' }
    else if n == 12 { 'c' }
    else if n == 13 { 'd' }
    else if n == 14 { 'e' }
    else { 'f' }
}

/// Each byte as two lowercase hex digits.
pub open spec fn hex_lower(bytes: Seq<u8>) -> Seq<char>
    decreases bytes.len(),
{
    if bytes.len() == 0 {
        seq![]
    } else {
        hex_lower(bytes.drop_last()).push(hex_digit((bytes.last() / 16) as nat)).push(
            hex_digit((bytes.last() % 16) as nat),
        )
    }
}

fn hex_char(n: u8) -> (c: char)
    requires
        n < 16,
    ensures
        c == hex_digit(n as nat),
{
    if n == 0 { '0' }
    else if n == 1 { '1' }
    else if n == 2 { '2' }
    else if n == 3 { '3' }
    else if n == 4 { '4' }
    else if n == 5 { '5' }
    else if n == 6 { '6' }
    else if n == 7 { '7' }
    else if n == 8 { '8' }
    else if n == 9 { '9' }
    else if n == 10 { 'a' }
    else if n == 11 { 'b' }
    else if n == 12 { 'c' }
    else if n == 13 { 'd' }
    else if n == 14 { 'e' }
    else { 'f' }
}

fn to_hex(bytes: &Vec<u8>) -> (s: String)
    ensures
        s@ == hex_lower(bytes@),
{
    let mut s = String::new();
    let mut i: usize = 0;
    while i < bytes.len()
        invariant
            i <= bytes@.len(),
            s@ == hex_lower(bytes@.take(i as int)),
        decreases bytes@.len() - i,
    {
        assert(bytes@.take(i + 1).drop_last() =~= bytes@.take(i as int));
        let b = bytes[i];
        push_char(&mut s, hex_char(b / 16));
        push_char(&mut s, hex_char(b % 16));
        i = i + 1;
    }
    assert(bytes@.take(bytes@.len() as int) =~= bytes@);
    s
}

/// The exit code's four bytes, least significant first.
pub open spec fn le_bytes(x: i32) -> Seq<u8> {
    let u = x as u32;
    seq![(u % 256) as u8, ((u / 256) % 256) as u8, ((u / 65536) % 256) as u8, ((u / 16777216) % 256) as u8]
}

/// A zero byte, then each argument.
pub open spec fn argument_bytes(args: Seq<Seq<char>>) -> Seq<u8>
    decreases args.len(),
{
    if args.len() == 0 {
        seq![]
    } else {
        argument_bytes(args.drop_last()) + seq![0u8] + encode_utf8(args.last())
    }
}

/// Everything the digest covers: the identifier, the tool, its arguments, its
/// working directory, the exit code and the output, separated by zero bytes.
pub open spec fn digest_input(v: EvidenceView) -> Seq<u8> {
    encode_utf8(v.id) + seq![0u8] + encode_utf8(v.invocation.tool) + argument_bytes(v.invocation.arguments)
        + seq![0u8] + encode_utf8(
        match v.invocation.working_directory {
            Some(d) => d,
            None => seq![],
        },
    ) + seq![0u8] + le_bytes(v.exit_code) + seq![0u8] + encode_utf8(v.output)
}

/// The digest a record should carry.
pub open spec fn expected_digest_of(v: EvidenceView) -> Seq<char> {
    hex_lower(sha256(digest_input(v)))
}

fn extend_text(bytes: &mut Vec<u8>, s: &str)
    ensures
        final(bytes)@ == old(bytes)@ + encode_utf8(s@),
{
    bytes.extend_from_slice(s.as_bytes());
}

impl Evidence {
    /// The digest this record should carry.
    ///
    /// It covers the whole record, not only the output: digesting the output
    /// alone let a forged record keep a valid digest while its command line
    /// said something else entirely.
    pub fn expected_digest(&self) -> (d: String)
        ensures
            d@ == expected_digest_of(self@),
    {
        let mut bytes: Vec<u8> = Vec::new();
        extend_text(&mut bytes, self.id.as_str());
        bytes.push(0u8);
        extend_text(&mut bytes, self.invocation.tool.as_str());
        let ghost args = texts(self.invocation.arguments@);
        let ghost head = bytes@;
        let mut i: usize = 0;
        while i < self.invocation.arguments.len()
            invariant
                i <= self.invocation.arguments@.len(),
                args == texts(self.invocation.arguments@),
                bytes@ == head + argument_bytes(args.take(i as int)),
            decreases self.invocation.arguments@.len() - i,
        {
            assert(args.take(i + 1).drop_last() =~= args.take(i as int));
            bytes.push(0u8);
            extend_text(&mut bytes, self.invocation.arguments[i].as_str());
            assert(bytes@ =~= head + argument_bytes(args.take(i + 1)));
            i = i + 1;
        }
        assert(args.take(self.invocation.arguments@.len() as int) =~= args);
        bytes.push(0u8);
        match &self.invocation.working_directory {
            Some(d) => extend_text(&mut bytes, d.as_str()),
            None => {
                assert(encode_utf8(seq![]) =~= Seq::<u8>::empty());
            },
        }
        bytes.push(0u8);
        let u = self.exit_code as u32;
        bytes.push((u % 256) as u8);
        bytes.push(((u / 256) % 256) as u8);
        bytes.push(((u / 65536) % 256) as u8);
        bytes.push(((u / 16777216) % 256) as u8);
        bytes.push(0u8);
        extend_text(&mut bytes, self.output.as_str());
        assert(bytes@ =~= digest_input(self@));
        let digest = sha256_digest(bytes.as_slice());
        to_hex(&digest)
    }

    /// Whether the record still hashes to the digest it carries.
    pub fn digest_matches(&self) -> (r: bool)
        ensures
            r == (expected_digest_of(self@) == self.digest@),
    {
        let expected = self.expected_digest();
        expected == self.digest
    }

    /// Whether an export altered this record's content.
    pub fn was_redacted(&self) -> (r: bool)
        ensures
            r == self.redacted_from is Some,
    {
        self.redacted_from.is_some()
    }
}

} // verus!

verus! {

impl Keyed for Evidence {
    open spec fn key(&self) -> Seq<char> {
        self.id@
    }

    fn key_text(&self) -> (r: &str) {
        self.id.as_str()
    }
}

/// An invocation that has been recorded but has not produced output yet.
///
/// Holding one is proof that the record exists. It is not `Clone`, so a single
/// invocation cannot be completed twice.
#[derive(Debug)]
pub struct PendingEvidence {
    id: EvidenceId,
    invocation: ToolInvocation,
}

impl Keyed for PendingEvidence {
    open spec fn key(&self) -> Seq<char> {
        self.spec_id()
    }

    fn key_text(&self) -> (r: &str) {
        self.id.as_str()
    }
}

impl PendingEvidence {
    pub closed spec fn spec_id(&self) -> Seq<char> {
        self.id@
    }

    pub closed spec fn spec_invocation(&self) -> ToolInvocationView {
        self.invocation@
    }

    pub fn id(&self) -> (id: &EvidenceId)
        ensures
            id@ == self.spec_id(),
    {
        &self.id
    }

    /// What was begun.
    pub fn invocation(&self) -> (i: &ToolInvocation)
        ensures
            i@ == self.spec_invocation(),
    {
        &self.invocation
    }
}

/// Whether a record verifies: it hashes to the digest it carries.
pub open spec fn verifies(e: Evidence) -> bool {
    expected_digest_of(e@) == e.digest@
}

/// The serial a store identifier spells, where it spells one.
pub open spec fn serial_of(id: Seq<char>) -> Option<u64> {
    if id.len() >= 3 && id.take(3) == "ev-"@ {
        parse_u64_spec(id.skip(3))
    } else {
        None
    }
}

/// The identifiers `adopt` refuses among `rs`, in order: those that do not
/// verify.
pub open spec fn refused_ids(rs: Seq<Evidence>) -> Seq<Seq<char>>
    decreases rs.len(),
{
    if rs.len() == 0 {
        seq![]
    } else if verifies(rs.last()) {
        refused_ids(rs.drop_last())
    } else {
        refused_ids(rs.drop_last()).push(rs.last().id@)
    }
}

/// The serial counter after adopting `rs` from `start`: raised to every
/// serial an accepted record spells.
pub open spec fn adopted_serial(start: nat, rs: Seq<Evidence>) -> nat
    decreases rs.len(),
{
    if rs.len() == 0 {
        start
    } else {
        let before = adopted_serial(start, rs.drop_last());
        if verifies(rs.last()) {
            match serial_of(rs.last().id@) {
                Some(n) => if n > before { n as nat } else { before },
                None => before,
            }
        } else {
            before
        }
    }
}

/// Where the last accepted record of `rs` with identifier `k` stands, or -1.
pub open spec fn last_accepted(rs: Seq<Evidence>, k: Seq<char>) -> int
    decreases rs.len(),
{
    if rs.len() == 0 {
        -1
    } else if verifies(rs.last()) && rs.last().id@ == k {
        rs.len() - 1
    } else {
        last_accepted(rs.drop_last(), k)
    }
}

proof fn lemma_last_accepted_bounds(rs: Seq<Evidence>, k: Seq<char>)
    ensures
        -1 <= last_accepted(rs, k) < rs.len(),
        last_accepted(rs, k) >= 0 ==> verifies(rs[last_accepted(rs, k)]) && rs[last_accepted(rs, k)].id@ == k,
    decreases rs.len(),
{
    if rs.len() > 0 {
        lemma_last_accepted_bounds(rs.drop_last(), k);
    }
}

/// The append-only record of everything that ran during a session.
#[derive(Debug)]
pub struct EvidenceStore {
    next: u64,
    /// Ordered by identifier, so the records list in the order the
    /// invocations were made.
    records: Vec<Evidence>,
    pending: Vec<PendingEvidence>,
}

impl EvidenceStore {
    #[verifier::type_invariant]
    spec fn ordered(self) -> bool {
        keys_ordered(self.records@) && keys_ordered(self.pending@)
    }

    /// How many identifiers the store has minted, or been raised to.
    pub closed spec fn serial(&self) -> nat {
        self.next as nat
    }

    /// The completed records, in identifier order.
    pub closed spec fn held(&self) -> Seq<Evidence> {
        self.records@
    }

    /// The invocations begun and not completed, in identifier order.
    pub closed spec fn awaiting(&self) -> Seq<PendingEvidence> {
        self.pending@
    }

    /// Whether a completed record is held under `id`.
    pub open spec fn spec_issued(&self, id: Seq<char>) -> bool {
        has_key(self.held(), id)
    }

    /// The completed record held under `id`.
    pub open spec fn record(&self, id: Seq<char>) -> Evidence {
        entry(self.held(), id)
    }

    pub fn new() -> (s: Self)
        ensures
            s.serial() == 0,
            s.held().len() == 0,
            s.awaiting().len() == 0,
    {
        EvidenceStore { next: 0, records: Vec::new(), pending: Vec::new() }
    }

    /// Whether another identifier can be minted.
    pub fn can_begin(&self) -> (r: bool)
        ensures
            r == (self.serial() < u64::MAX),
    {
        self.next < u64::MAX
    }

    /// Record an invocation and mint its identifier. Call this before the
    /// tool runs, never after.
    pub fn begin(&mut self, invocation: ToolInvocation) -> (p: PendingEvidence)
        requires
            old(self).serial() < u64::MAX,
        ensures
            final(self).serial() == old(self).serial() + 1,
            p.spec_id() == serial_id(final(self).serial()),
            p.spec_invocation() == invocation@,
            final(self).held() == old(self).held(),
            forall|k: Seq<char>| has_key(final(self).awaiting(), k) <==> (has_key(old(self).awaiting(), k)
                || k == p.spec_id()),
            entry(final(self).awaiting(), p.spec_id()).spec_invocation() == invocation@,
            final(self).awaiting().len() == old(self).awaiting().len() + (if has_key(old(self).awaiting(), p.spec_id()) {
                0int
            } else {
                1int
            }),
            keys_ordered(final(self).awaiting()),
            forall|k: Seq<char>| k != p.spec_id() && has_key(old(self).awaiting(), k) ==> entry(
                final(self).awaiting(),
                k,
            ) == entry(old(self).awaiting(), k),
    {
        proof { use_type_invariant(&*self); }
        self.next = self.next + 1;
        let mut text = text_of("ev-");
        push_zero_padded(&mut text, self.next, 6);
        proof {
            reveal_strlit("ev-");
            assert(text@ =~= serial_id(self.next as nat));
        }
        let id = EvidenceId(text);
        let entry_id = id.clone();
        let pending = PendingEvidence { id: entry_id, invocation: invocation.clone() };
        let mut awaiting: Vec<PendingEvidence> = Vec::new();
        std::mem::swap(&mut awaiting, &mut self.pending);
        insert_keyed(&mut awaiting, pending);
        self.pending = awaiting;
        PendingEvidence { id, invocation }
    }

    /// Attach the tool's output to its record and return the identifier a
    /// finding may cite.
    pub fn complete(&mut self, pending: PendingEvidence, output: String, exit_code: i32) -> (id: EvidenceId)
        ensures
            id@ == pending.spec_id(),
            final(self).serial() == old(self).serial(),
            final(self).spec_issued(id@),
            final(self).record(id@)@ == (EvidenceView {
                id: id@,
                invocation: pending.spec_invocation(),
                output: output@,
                digest: expected_digest_of(final(self).record(id@)@),
                exit_code,
                redacted_from: None,
            }),
            verifies(final(self).record(id@)),
            forall|k: Seq<char>| final(self).spec_issued(k) <==> (old(self).spec_issued(k) || k == id@),
            forall|k: Seq<char>| k != id@ && old(self).spec_issued(k) ==> final(self).record(k) == old(
                self,
            ).record(k),
            forall|k: Seq<char>| has_key(final(self).awaiting(), k) <==> (has_key(old(self).awaiting(), k)
                && k != id@),
            // Each identifier is held once: completing adds one record, or
            // replaces the one already under that identifier.
            keys_ordered(final(self).held()),
            final(self).held().len() == old(self).held().len() + (if old(self).spec_issued(id@) { 0int } else { 1int }),
            final(self).awaiting().len() == old(self).awaiting().len() - (if has_key(old(self).awaiting(), id@) {
                1int
            } else {
                0int
            }),
    {
        proof { use_type_invariant(&*self); }
        let PendingEvidence { id, invocation } = pending;
        let mut evidence = Evidence {
            id: id.clone(),
            invocation,
            digest: String::new(),
            output,
            exit_code,
            redacted_from: None,
        };
        evidence.digest = evidence.expected_digest();
        let mut awaiting: Vec<PendingEvidence> = Vec::new();
        std::mem::swap(&mut awaiting, &mut self.pending);
        let _ = remove_keyed(&mut awaiting, id.as_str());
        self.pending = awaiting;
        let mut held: Vec<Evidence> = Vec::new();
        std::mem::swap(&mut held, &mut self.records);
        insert_keyed(&mut held, evidence);
        self.records = held;
        id
    }

    /// Whether this store issued that identifier and holds its output. The
    /// airlock's single question.
    pub fn issued(&self, id: &EvidenceId) -> (r: bool)
        ensures
            r == self.spec_issued(id@),
    {
        proof { use_type_invariant(self); }
        find_key(&self.records, id.as_str()).1
    }

    pub fn get(&self, id: &EvidenceId) -> (r: Option<Evidence>)
        ensures
            r is Some <==> self.spec_issued(id@),
            r matches Some(e) ==> e@ == self.record(id@)@,
    {
        proof { use_type_invariant(self); }
        match crate::keyed::get_keyed(&self.records, id.as_str()) {
            Some(e) => Some(e.clone()),
            None => None,
        }
    }

    /// Every completed record, in the order of their identifiers.
    pub fn records(&self) -> (r: Vec<Evidence>)
        ensures
            r@.len() == self.held().len(),
            forall|i: int| 0 <= i < r@.len() ==> (#[trigger] r@[i])@ == self.held()[i]@,
    {
        let mut r: Vec<Evidence> = Vec::new();
        let mut i: usize = 0;
        while i < self.records.len()
            invariant
                i <= self.records@.len(),
                r@.len() == i,
                forall|j: int| 0 <= j < i ==> (#[trigger] r@[j])@ == self.records@[j]@,
            decreases self.records@.len() - i,
        {
            r.push(self.records[i].clone());
            i = i + 1;
        }
        r
    }

    /// Invocations that were begun and never completed: a tool that hung, or
    /// a run that was cancelled.
    pub fn incomplete(&self) -> (r: Vec<ToolInvocation>)
        ensures
            r@.len() == self.awaiting().len(),
            forall|i: int| 0 <= i < r@.len() ==> (#[trigger] r@[i])@ == self.awaiting()[i].spec_invocation(),
    {
        let mut r: Vec<ToolInvocation> = Vec::new();
        let mut i: usize = 0;
        while i < self.pending.len()
            invariant
                i <= self.pending@.len(),
                r@.len() == i,
                forall|j: int| 0 <= j < i ==> (#[trigger] r@[j])@ == self.pending@[j].invocation@,
            decreases self.pending@.len() - i,
        {
            r.push(self.pending[i].invocation.clone());
            i = i + 1;
        }
        r
    }

    pub fn len(&self) -> (n: usize)
        ensures
            n == self.held().len(),
    {
        self.records.len()
    }

    pub fn is_empty(&self) -> (r: bool)
        ensures
            r == (self.held().len() == 0),
    {
        self.records.len() == 0
    }

    /// Re-populate a store from an imported session artifact.
    ///
    /// The one path by which a record enters without a tool having run here.
    /// An adopted record must hash to the digest it carries, over its whole
    /// content, so a forged record cannot be given an identifier a store would
    /// honour without also forging a `sha256` preimage.
    ///
    /// Returns the identifiers it refused.
    pub fn adopt(&mut self, records: Vec<Evidence>) -> (refused: Vec<EvidenceId>)
        ensures
            refused@.map_values(|id: EvidenceId| id@) == refused_ids(records@),
            final(self).serial() == adopted_serial(old(self).serial(), records@),
            final(self).awaiting() == old(self).awaiting(),
            forall|k: Seq<char>| final(self).spec_issued(k) <==> (old(self).spec_issued(k)
                || last_accepted(records@, k) >= 0),
            forall|k: Seq<char>| last_accepted(records@, k) >= 0 ==> final(self).record(k) == records@[last_accepted(records@, k)],
            forall|k: Seq<char>| last_accepted(records@, k) < 0 && old(self).spec_issued(k) ==> final(self).record(k)
                == old(self).record(k),
    {
        proof { use_type_invariant(&*self); }
        let ghost start = self.next as nat;
        let ghost old_records = self.records@;
        let ghost all = records@;
        let mut refused: Vec<EvidenceId> = Vec::new();
        let mut rest = crate::keyed::reversed(records);
        let mut held: Vec<Evidence> = Vec::new();
        std::mem::swap(&mut held, &mut self.records);
        let mut done: usize = 0;
        let total = rest.len();
        let mut serial: u64 = self.next;
        proof {
            assert(all.take(0) =~= Seq::<Evidence>::empty());
            assert(held@ == old_records);
            assert(refused@.map_values(|id: EvidenceId| id@) =~= Seq::<Seq<char>>::empty());
            assert forall|k: Seq<char>| last_accepted(all.take(0), k) == -1 by {}
        }
        while rest.len() > 0
            invariant
                rest@.len() + done == all.len(),
                total == all.len(),
                forall|j: int| 0 <= j < rest@.len() ==> #[trigger] rest@[j] == all[all.len() - 1 - j],
                adopt_state(held@, serial as nat, refused@.map_values(|id: EvidenceId| id@), old_records, start,
                    all.take(done as int)),
            decreases rest@.len(),
        {
            let record = rest.pop().unwrap();
            let ghost prefix = all.take(done as int);
            let ghost next_prefix = all.take(done + 1);
            assert(record == all[done as int]);
            assert(next_prefix =~= prefix.push(record));
            if !record.digest_matches() {
                let ghost before = refused@;
                refused.push(record.id.clone());
                assert(refused@.map_values(|id: EvidenceId| id@) =~= before.map_values(|id: EvidenceId| id@).push(record.id@));
                proof { lemma_adopt_refused(held@, serial as nat, before.map_values(|id: EvidenceId| id@), old_records, start, prefix, record); }
            } else {
                let ghost serial_before = serial;
                let id_chars = chars_of(record.id.as_str());
                if id_chars.len() >= 3 && id_chars[0] == 'e' && id_chars[1] == 'v' && id_chars[2] == '-' {
                    let tail = crate::text::text_after(record.id.as_str(), 3);
                    proof {
                        reveal_strlit("ev-");
                        assert(record.id@.take(3) =~= "ev-"@);
                    }
                    match parse_u64(tail.as_str()) {
                        Some(n) => {
                            if n > serial {
                                serial = n;
                            }
                        },
                        None => {},
                    }
                } else {
                    proof {
                        reveal_strlit("ev-");
                        if record.id@.len() >= 3 && record.id@.take(3) == "ev-"@ {
                            assert(record.id@.take(3)[0] == 'e');
                            assert(record.id@.take(3)[1] == 'v');
                            assert(record.id@.take(3)[2] == '-');
                        }
                    }
                }
                assert(serial as nat == adopted_serial(start, prefix.push(record))) by {
                    assert(prefix.push(record).drop_last() =~= prefix);
                }
                let ghost before = held@;
                let ghost rec = record;
                insert_keyed(&mut held, record);
                proof { lemma_adopt_accepted(before, held@, serial as nat, refused@.map_values(|id: EvidenceId| id@), old_records, start, prefix, rec); }
            }
            done = done + 1;
        }
        assert(all.take(all.len() as int) =~= all);
        self.records = held;
        self.next = serial;
        refused
    }
}

/// Where `adopt` stands after the records `prefix`.
pub open spec fn adopt_state(
    held: Seq<Evidence>,
    serial: nat,
    refused: Seq<Seq<char>>,
    old_records: Seq<Evidence>,
    start: nat,
    prefix: Seq<Evidence>,
) -> bool {
    &&& keys_ordered(held)
    &&& refused == refused_ids(prefix)
    &&& serial == adopted_serial(start, prefix)
    &&& forall|k: Seq<char>| has_key(held, k) <==> (has_key(old_records, k) || last_accepted(prefix, k) >= 0)
    &&& forall|k: Seq<char>| last_accepted(prefix, k) >= 0 ==> entry(held, k) == prefix[last_accepted(prefix, k)]
    &&& forall|k: Seq<char>| last_accepted(prefix, k) < 0 && has_key(old_records, k) ==> entry(held, k)
        == entry(old_records, k)
}

proof fn lemma_adopt_refused(
    held: Seq<Evidence>,
    serial: nat,
    refused: Seq<Seq<char>>,
    old_records: Seq<Evidence>,
    start: nat,
    prefix: Seq<Evidence>,
    r: Evidence,
)
    requires
        adopt_state(held, serial, refused, old_records, start, prefix),
        !verifies(r),
    ensures
        adopt_state(held, serial, refused.push(r.id@), old_records, start, prefix.push(r)),
{
    let next = prefix.push(r);
    assert(next.drop_last() =~= prefix);
    assert forall|k: Seq<char>| last_accepted(next, k) == last_accepted(prefix, k) by {}
    assert forall|k: Seq<char>| last_accepted(prefix, k) >= 0 implies prefix[last_accepted(prefix, k)]
        == next[last_accepted(prefix, k)] by {
        lemma_last_accepted_bounds(prefix, k);
    }
}

proof fn lemma_adopt_accepted(
    before: Seq<Evidence>,
    held: Seq<Evidence>,
    serial: nat,
    refused: Seq<Seq<char>>,
    old_records: Seq<Evidence>,
    start: nat,
    prefix: Seq<Evidence>,
    r: Evidence,
)
    requires
        adopt_state(before, adopted_serial(start, prefix), refused, old_records, start, prefix),
        verifies(r),
        serial == adopted_serial(start, prefix.push(r)),
        keys_ordered(held),
        forall|k: Seq<char>| has_key(held, k) <==> (has_key(before, k) || k == r.key()),
        entry(held, r.key()) == r,
        forall|k: Seq<char>| k != r.key() && has_key(before, k) ==> entry(held, k) == entry(before, k),
    ensures
        adopt_state(held, serial, refused, old_records, start, prefix.push(r)),
{
    let next = prefix.push(r);
    assert(next.drop_last() =~= prefix);
    assert(refused_ids(next) == refused_ids(prefix));
    assert forall|k: Seq<char>| #![auto] k != r.id@ implies last_accepted(next, k) == last_accepted(prefix, k) by {}
    assert(last_accepted(next, r.id@) == prefix.len());
    assert forall|k: Seq<char>| last_accepted(next, k) >= 0 implies entry(held, k) == next[last_accepted(next, k)] by {
        lemma_last_accepted_bounds(prefix, k);
    }
}

} // verus!
