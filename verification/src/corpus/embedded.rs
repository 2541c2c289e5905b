//! A `no_std`-shaped library: a fixed-capacity ring buffer and a table-free
//! CRC-8, the kind of code whose size is counted in bytes for a living.

use vstd::prelude::*;

verus! {

/// Where the `i`th queued byte sits, counting from `head`, in a ring of `n`
/// slots.
pub open spec fn slot(head: int, i: int, n: int) -> int {
    if head + i >= n { head + i - n } else { head + i }
}

/// A fixed-capacity ring buffer, the shape of thing that actually appears in
/// firmware.
///
/// No panics, and every operation is constant time.
pub struct Ring<const N: usize> {
    slots: Vec<u8>,
    head: usize,
    len: usize,
}

impl<const N: usize> View for Ring<N> {
    type V = Seq<u8>;

    /// The queued bytes, oldest first.
    closed spec fn view(&self) -> Seq<u8> {
        Seq::new(self.len as nat, |i: int| self.slots@[slot(self.head as int, i, N as int)])
    }
}

impl<const N: usize> Default for Ring<N> {
    fn default() -> (r: Self)
        ensures
            r@ == Seq::<u8>::empty(),
    {
        Self::new()
    }
}

impl<const N: usize> Ring<N> {
    #[verifier::type_invariant]
    spec fn sound(self) -> bool {
        &&& self.slots@.len() == N
        &&& self.len <= N
        &&& (N == 0 || self.head < N)
    }

    pub fn new() -> (r: Self)
        ensures
            r@ == Seq::<u8>::empty(),
    {
        let mut slots: Vec<u8> = Vec::new();
        let mut i: usize = 0;
        while i < N
            invariant
                i <= N,
                slots@.len() == i,
            decreases N - i,
        {
            slots.push(0);
            i = i + 1;
        }
        let r = Ring { slots, head: 0, len: 0 };
        assert(r@ =~= Seq::<u8>::empty());
        r
    }

    pub fn len(&self) -> (n: usize)
        ensures
            n == self@.len(),
    {
        self.len
    }

    pub fn is_empty(&self) -> (r: bool)
        ensures
            r == (self@.len() == 0),
    {
        self.len == 0
    }

    pub fn is_full(&self) -> (r: bool)
        ensures
            r == (self@.len() == N),
    {
        self.len == N
    }

    /// Push a byte. Returns `false` when full rather than panicking, because
    /// a dropped sample is recoverable and a reset is not.
    pub fn push(&mut self, byte: u8) -> (r: bool)
        ensures
            r == (old(self)@.len() < N),
            r ==> final(self)@ == old(self)@.push(byte),
            !r ==> final(self)@ == old(self)@,
        no_unwind
    {
        proof { use_type_invariant(&*self); }
        if self.len == N {
            return false;
        }
        let index = if self.head >= N - self.len { self.head - (N - self.len) } else { self.head + self.len };
        assert(index as int == slot(self.head as int, self.len as int, N as int));
        let ghost before = self@;
        self.slots[index] = byte;
        self.len = self.len + 1;
        assert(self@ =~= before.push(byte));
        true
    }

    /// Take the oldest byte, where there is one.
    pub fn pop(&mut self) -> (r: Option<u8>)
        ensures
            old(self)@.len() == 0 ==> r is None && final(self)@ == old(self)@,
            old(self)@.len() > 0 ==> r == Some(old(self)@[0]) && final(self)@ == old(self)@.drop_first(),
    {
        proof { use_type_invariant(&*self); }
        if self.len == 0 {
            return None;
        }
        let ghost before = self@;
        let byte = self.slots[self.head];
        assert(byte == before[0]);
        let head = if self.head + 1 == N { 0 } else { self.head + 1 };
        let len = self.len - 1;
        self.head = head;
        self.len = len;
        assert(self@ =~= before.drop_first());
        Some(byte)
    }
}

/// One CRC-8 shift with the polynomial 0x31.
pub open spec fn crc_shift(c: u8) -> u8 {
    if c & 0x80 != 0 { (c << 1u8) ^ 0x31 } else { c << 1u8 }
}

/// `n` shifts.
pub open spec fn crc_rounds(c: u8, n: nat) -> u8
    decreases n,
{
    if n == 0 { c } else { crc_shift(crc_rounds(c, (n - 1) as nat)) }
}

/// The CRC-8 of `s`, starting from 0xFF: each byte is folded in and shifted
/// eight times.
pub open spec fn crc8_of(s: Seq<u8>) -> u8
    decreases s.len(),
{
    if s.len() == 0 { 0xFF } else { crc_rounds(crc8_of(s.drop_last()) ^ s.last(), 8) }
}

/// A CRC-8 over a slice, table-free so it costs no `.rodata`.
///
/// One of the size trade-offs worth measuring: a table would be faster and
/// 256 bytes larger, which on small targets is a real decision rather than a
/// rounding error.
pub fn crc8(bytes: &[u8]) -> (c: u8)
    ensures
        c == crc8_of(bytes@),
{
    let mut crc: u8 = 0xFF;
    let mut i: usize = 0;
    while i < bytes.len()
        invariant
            i <= bytes@.len(),
            crc == crc8_of(bytes@.take(i as int)),
        decreases bytes@.len() - i,
    {
        assert(bytes@.take(i + 1).drop_last() =~= bytes@.take(i as int));
        let start = crc ^ bytes[i];
        crc = start;
        let mut j: u32 = 0;
        while j < 8
            invariant
                j <= 8,
                crc == crc_rounds(start, j as nat),
            decreases 8 - j,
        {
            crc = if crc & 0x80 != 0 { (crc << 1u8) ^ 0x31 } else { crc << 1u8 };
            j = j + 1;
        }
        i = i + 1;
    }
    assert(bytes@.take(bytes@.len() as int) =~= bytes@);
    crc
}

} // verus!
