//! Descriptor kinds, descriptor flags and poll event masks.
use vstd::prelude::*;

verus! {

/// The kind of object a descriptor refers to.
#[derive(Clone, Copy, Debug, PartialEq, Eq, Structural, Hash)]
pub enum FdKind {
    ChatSession,
    ChatResponse,
    Epoll,
    RtAsr,
    Mic,
    UserStream,
    UserStreamCtl,
}

/// Per-descriptor flag set (a bit set over `u32`).
#[derive(Clone, Copy, Debug, PartialEq, Eq, Structural)]
pub struct FdFlags(pub u32);

impl FdFlags {
    /// No flag set.
    #[allow(non_snake_case)]
    pub fn EMPTY() -> (r: FdFlags)
        ensures
            r.0 == 0,
    {
        FdFlags(0)
    }

    /// Non-blocking mode.
    #[allow(non_snake_case)]
    pub fn O_NONBLOCK() -> (r: FdFlags)
        ensures
            r.0 == 1,
    {
        FdFlags(1)
    }

    /// Whether every bit of `other` is set in `self`.
    pub fn contains(self, other: Self) -> (r: bool)
        ensures
            r == (self.0 & other.0 == other.0),
    {
        (self.0 & other.0) == other.0
    }

    /// Sets the bits of `other`.
    pub fn insert(&mut self, other: Self)
        ensures
            final(self).0 == old(self).0 | other.0,
    {
        self.0 = self.0 | other.0;
    }

    /// Clears the bits of `other`.
    pub fn remove(&mut self, other: Self)
        ensures
            final(self).0 == old(self).0 & !other.0,
    {
        self.0 = self.0 & !other.0;
    }

    /// The raw bits.
    pub fn bits(self) -> (r: u32)
        ensures
            r == self.0,
    {
        self.0
    }

    /// The empty flag set.
    pub fn default() -> (r: Self)
        ensures
            r.0 == 0,
    {
        FdFlags(0)
    }
}

/// Readiness events of a descriptor (a bit set over `u32`).
#[derive(Clone, Copy, Debug, PartialEq, Eq, Structural)]
pub struct PollEvents(pub u32);

/// The bit of readable readiness.
pub open spec fn poll_in() -> u32 {
    1
}

/// The bit of writable readiness.
pub open spec fn poll_out() -> u32 {
    4
}

/// The bit of error readiness.
pub open spec fn poll_err() -> u32 {
    8
}

/// The bit of hang-up readiness.
pub open spec fn poll_hup() -> u32 {
    16
}

/// The union of all event bits that exist.
pub open spec fn poll_known_bits() -> u32 {
    29
}

impl PollEvents {
    /// No event.
    #[allow(non_snake_case)]
    pub fn EMPTY() -> (r: PollEvents)
        ensures
            r.0 == 0,
    {
        PollEvents(0)
    }

    /// Readable.
    #[allow(non_snake_case)]
    pub fn IN() -> (r: PollEvents)
        ensures
            r.0 == 1,
    {
        PollEvents(1)
    }

    /// Writable.
    #[allow(non_snake_case)]
    pub fn OUT() -> (r: PollEvents)
        ensures
            r.0 == 4,
    {
        PollEvents(4)
    }

    /// Error condition.
    #[allow(non_snake_case)]
    pub fn ERR() -> (r: PollEvents)
        ensures
            r.0 == 8,
    {
        PollEvents(8)
    }

    /// Hang-up.
    #[allow(non_snake_case)]
    pub fn HUP() -> (r: PollEvents)
        ensures
            r.0 == 16,
    {
        PollEvents(16)
    }

    /// Whether no event bit is set.
    pub fn is_empty(self) -> (r: bool)
        ensures
            r == (self.0 == 0),
    {
        self.0 == 0
    }

    /// The raw bits.
    pub fn bits(self) -> (r: u32)
        ensures
            r == self.0,
    {
        self.0
    }

    /// Keeps only the known event bits of `v`.
    pub fn from_bits_truncate(v: u32) -> (r: Self)
        ensures
            r.0 == v & poll_known_bits(),
    {
        PollEvents(v & 29)
    }

    /// Whether the two sets share a bit.
    pub fn intersects(self, other: Self) -> (r: bool)
        ensures
            r == (self.0 & other.0 != 0),
    {
        (self.0 & other.0) != 0
    }

    /// Intersection.
    pub fn and(self, other: Self) -> (r: Self)
        ensures
            r.0 == self.0 & other.0,
    {
        PollEvents(self.0 & other.0)
    }

    /// Union.
    pub fn or(self, other: Self) -> (r: Self)
        ensures
            r.0 == self.0 | other.0,
    {
        PollEvents(self.0 | other.0)
    }

    /// Adds the bits of `other`.
    pub fn insert(&mut self, other: Self)
        ensures
            final(self).0 == old(self).0 | other.0,
    {
        self.0 = self.0 | other.0;
    }

    /// The empty event set.
    pub fn default() -> (r: Self)
        ensures
            r.0 == 0,
    {
        PollEvents(0)
    }
}

/// After a flag is inserted the set contains it, and after it is removed the
/// set no longer contains it; other bits are untouched by either.
pub proof fn lemma_flags_insert_remove(f: u32, g: u32)
    requires
        g != 0,
    ensures
        (f | g) & g == g,
        ((f | g) & !g) & g != g,
        (f & !g) & g != g,
        forall|b: u32| b & g == 0 ==> ((f | g) & !g) & b == f & b,
{
    assert((f | g) & g == g) by (bit_vector);
    assert(((f | g) & !g) & g == 0) by (bit_vector);
    assert((f & !g) & g == 0) by (bit_vector);
    assert forall|b: u32| b & g == 0 implies ((f | g) & !g) & b == f & b by {
        assert(b & g == 0 ==> ((f | g) & !g) & b == f & b) by (bit_vector);
    }
}

/// Truncation keeps exactly the known event bits: it is idempotent, the result
/// only holds known bits, and every known bit of the input survives.
pub proof fn lemma_truncate_known_bits(v: u32)
    ensures
        (v & poll_known_bits()) & poll_known_bits() == v & poll_known_bits(),
        (v & poll_known_bits()) & !poll_known_bits() == 0,
        v & poll_in() == (v & poll_known_bits()) & poll_in(),
        v & poll_out() == (v & poll_known_bits()) & poll_out(),
        v & poll_err() == (v & poll_known_bits()) & poll_err(),
        v & poll_hup() == (v & poll_known_bits()) & poll_hup(),
        0xFFFF_FFFFu32 & poll_known_bits() == (poll_in() | poll_out() | poll_err() | poll_hup()),
{
    assert((v & 29u32) & 29u32 == v & 29u32) by (bit_vector);
    assert((v & 29u32) & !29u32 == 0) by (bit_vector);
    assert(v & 1u32 == (v & 29u32) & 1u32) by (bit_vector);
    assert(v & 4u32 == (v & 29u32) & 4u32) by (bit_vector);
    assert(v & 8u32 == (v & 29u32) & 8u32) by (bit_vector);
    assert(v & 16u32 == (v & 29u32) & 16u32) by (bit_vector);
    assert(0xFFFF_FFFFu32 & 29u32 == (1u32 | 4u32 | 8u32 | 16u32)) by (bit_vector);
}

} // verus!
