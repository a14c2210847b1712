use vstd::prelude::*;

verus! {

/// How successive writes to the same erase unit, without an intervening
/// erase, act on the storage.
#[non_exhaustive]
#[derive(Debug, Clone, Copy, PartialEq, Eq, Structural)]
pub enum WriteBehavior {
    /// The memory can be written once and must then be erased.
    /// It is undefined what happens when it is written more than once
    /// without erasing.
    Once,
    /// The memory can be written twice and must then be erased.
    /// The second write must be all zero bytes (likely due to ECC).
    /// It is undefined what happens when it is written more than twice
    /// without erasing, or when the second write is not all zeroes.
    TwiceSecondZero,
    /// The memory can be written twice and must then be erased.
    /// The new value is bitwise AND'ed with the existing value.
    /// It is undefined what happens when it is written more than twice
    /// without erasing.
    TwiceAnd,
    /// The memory can be written infinitely often without erasing.
    /// The new value is bitwise AND'ed with the existing value.
    InfiniteAnd,
    /// The memory can be written infinitely often without erasing.
    /// The written value is exactly what reads back; no AND takes place.
    InfiniteDirect,
}

/// The expected data integrity of a medium. Informational only: consumers use
/// it to decide whether to add software error correction. It has no effect on
/// the validation or the execution of any operation.
#[non_exhaustive]
#[derive(Debug, Clone, Copy, PartialEq, Eq, Structural)]
pub enum Reliability {
    /// The medium never corrupts stored data.
    Good,
    /// Random bit flips are possible, but the medium does not wear out.
    Medium,
    /// Reliable by design, but can start failing near its end of life.
    GoodDegrading,
    /// Random bit flips are possible and the medium degrades near its end of life.
    MediumDegrading,
    /// Unreliable by design; the caller must add error correction.
    Bad,
}

/// Whether writes under this behavior combine with the stored value by
/// bitwise AND (so bits can move from 1 to 0, never back, until an erase).
pub open spec fn and_combining(b: WriteBehavior) -> bool {
    b is TwiceAnd || b is InfiniteAnd
}

/// Whether one more write stays within the behavior's write budget, given how
/// many writes the erase unit has seen since it was last erased.
pub open spec fn within_budget(b: WriteBehavior, prior_writes: nat) -> bool {
    match b {
        WriteBehavior::Once => prior_writes == 0,
        WriteBehavior::TwiceSecondZero => prior_writes < 2,
        WriteBehavior::TwiceAnd => prior_writes < 2,
        WriteBehavior::InfiniteAnd => true,
        WriteBehavior::InfiniteDirect => true,
    }
}

/// What one stored byte holds after a write of `written` over `stored` that
/// stays within the write budget.
pub open spec fn combine_byte(b: WriteBehavior, stored: u8, written: u8) -> u8 {
    if and_combining(b) {
        stored & written
    } else {
        written
    }
}

} // verus!
