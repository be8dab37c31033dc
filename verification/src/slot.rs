//! The archive buffer model: position-indexed slots and relative pointers.
//!
//! An archive is a sequence of slots.  A pointee that was serialized occupies
//! a `Value` slot; an archived strong pointer occupies a `Ptr` slot holding a
//! relative pointer; an archived weak pointer occupies a discriminant slot
//! (`TagNull` or `TagPresent`) followed by its payload slot.  Space that was
//! reserved during the two-phase write but not yet (or never) filled in is
//! `Reserved`; reading it is ruled out by every accessor's precondition.

use vstd::prelude::*;

verus! {

/// A relative pointer: the signed distance from its own position to its
/// target's position.  The archive stores no absolute addresses, so a buffer
/// full of these stays valid after being copied to any base address.
#[derive(Clone, Copy, PartialEq, Eq, Structural, Debug)]
pub struct RelPtr {
    pub offset: i128,
}

/// One position of the archive buffer.
#[derive(Clone, Copy, PartialEq, Eq, Structural, Debug)]
pub enum Slot {
    /// Reserved during the two-phase write and not filled in.
    Reserved,
    /// The bytes of one archived pointee.
    Value(u64),
    /// An archived strong pointer.
    Ptr(RelPtr),
    /// The discriminant of an archived weak pointer that was null.
    TagNull,
    /// The discriminant of an archived weak pointer whose payload follows.
    TagPresent,
}

/// The pointee value held by the `Value` slot at position `p`.
pub open spec fn value_in(buf: Seq<Slot>, p: int) -> u64 {
    buf[p]->Value_0
}

/// The relative pointer that, stored at `from`, targets `to`.
pub open spec fn spec_rel(from: int, to: int) -> RelPtr {
    RelPtr { offset: (to - from) as i128 }
}

impl RelPtr {
    /// The buffer position this pointer targets when it is stored at `from`.
    pub open spec fn spec_target(self, from: int) -> int {
        from + self.offset
    }

    /// The absolute address this pointer targets when its own absolute
    /// address is `abs_pos` (that is, when the buffer is mapped so that the
    /// pointer itself lands at `abs_pos`).
    pub open spec fn abs_target(self, abs_pos: int) -> int {
        abs_pos + self.offset
    }

    /// Builds the pointer that, written at position `from`, targets `to`.
    pub fn new(from: usize, to: usize) -> (r: RelPtr)
        ensures
            r == spec_rel(from as int, to as int),
            r.spec_target(from as int) == to,
    {
        RelPtr { offset: to as i128 - from as i128 }
    }

    /// Recomputes the target position from this pointer's own position.
    pub fn target(&self, from: usize) -> (t: usize)
        requires
            0 <= self.spec_target(from as int) <= usize::MAX,
        ensures
            t == self.spec_target(from as int),
    {
        (from as i128 + self.offset) as usize
    }
}

/// Relocation invariance: a relative pointer resolves to the same buffer
/// position no matter at which base address the buffer is mapped.  If the
/// pointer itself sits at buffer position `own`, then under any base the
/// absolute target lies at `base + (own + offset)`: the buffer-relative
/// target `own + offset` is independent of the base, so copying the archive
/// to a different base address changes nothing about what any pointer
/// reaches.
pub proof fn lemma_relocation_invariance(p: RelPtr, own: usize, base1: int, base2: int)
    ensures
        p.abs_target(base1 + own) - base1 == p.abs_target(base2 + own) - base2,
        p.abs_target(base1 + own) == base1 + p.spec_target(own as int),
        p.abs_target(base2 + own) == base2 + p.spec_target(own as int),
{
}

} // verus!
