//! The device profile: the descriptive constants every device supplies, fixed
//! at construction and immutable for the lifetime of the instance; and the
//! validation every operation performs before it touches the device.

use vstd::prelude::*;

use crate::behavior::Reliability;
use crate::behavior::WriteBehavior;

verus! {

/// The descriptive constants of a device: the granularities of read, write
/// and erase, the value the storage holds after an erase, how repeated
/// writes behave, and the medium's reliability class.
#[derive(Debug, Clone, Copy, PartialEq, Eq, Structural)]
pub struct DeviceProfile {
    /// The smallest size that can be read from the storage; it divides every
    /// read offset and length.
    pub read_size: usize,
    /// The smallest size that can be written; it divides every write offset
    /// and length.
    pub write_size: usize,
    /// The granularity of an erase; it divides both bounds of every erase.
    pub erase_size: usize,
    /// The value every byte of an erased range holds.
    pub erase_value: u8,
    /// How successive writes to the same erase unit act.
    pub write_behavior: WriteBehavior,
    /// The bit-error risk class of the medium; informational only.
    pub reliability: Reliability,
}

impl DeviceProfile {
    /// All three granularities are positive.
    pub open spec fn wf(self) -> bool {
        self.read_size > 0 && self.write_size > 0 && self.erase_size > 0
    }
}

/// How a rejected operation failed. A concrete device may use an error type
/// of its own; this one serves the devices of this crate.
#[derive(Debug, Clone, Copy, PartialEq, Eq, Structural)]
pub enum StorageError {
    /// An offset, a length or an erase bound violates the required granularity.
    Alignment,
    /// The requested range ends beyond the capacity.
    OutOfBounds,
}

/// Whether an offset or a length is an exact multiple of a granularity.
pub open spec fn aligned(v: int, granularity: nat) -> bool {
    v % granularity as int == 0
}

/// Whether a read or write of `len` bytes at `offset` is aligned to
/// `granularity` and stays within `capacity`.
pub open spec fn access_args_ok(granularity: nat, capacity: nat, offset: u32, len: nat) -> bool {
    &&& aligned(offset as int, granularity)
    &&& aligned(len as int, granularity)
    &&& offset + len <= capacity
}

/// Whether an erase of `[from, to)` has both bounds aligned to `erase_size`,
/// in order, and within `capacity`.
pub open spec fn erase_args_ok(erase_size: nat, capacity: nat, from: u32, to: u32) -> bool {
    &&& aligned(from as int, erase_size)
    &&& aligned(to as int, erase_size)
    &&& from <= to
    &&& to <= capacity
}

/// Whether a read of `len` bytes at `offset` is valid for a device of this
/// profile and capacity.
pub open spec fn read_args_ok(p: DeviceProfile, capacity: nat, offset: u32, len: nat) -> bool {
    access_args_ok(p.read_size as nat, capacity, offset, len)
}

/// Whether a write of `len` bytes at `offset` is valid for a device of this
/// profile and capacity.
pub open spec fn write_args_ok(p: DeviceProfile, capacity: nat, offset: u32, len: nat) -> bool {
    access_args_ok(p.write_size as nat, capacity, offset, len)
}

/// Validates a read or write request: an alignment error when the offset or
/// the length is no multiple of the granularity, an out-of-bounds error when
/// the range ends beyond the capacity, otherwise acceptance. Validation never
/// touches the device.
pub fn check_access_args(granularity: usize, capacity: usize, offset: u32, len: usize) -> (r: Result<
    (),
    StorageError,
>)
    requires
        granularity > 0,
    ensures
        r == (if !(aligned(offset as int, granularity as nat) && aligned(
            len as int,
            granularity as nat,
        )) {
            Err::<(), StorageError>(StorageError::Alignment)
        } else if !(offset + len <= capacity) {
            Err::<(), StorageError>(StorageError::OutOfBounds)
        } else {
            Ok::<(), StorageError>(())
        }),
        r is Ok <==> access_args_ok(granularity as nat, capacity as nat, offset, len as nat),
{
    if (offset as usize) % granularity != 0 || len % granularity != 0 {
        Err(StorageError::Alignment)
    } else if (offset as usize) > capacity || len > capacity - (offset as usize) {
        Err(StorageError::OutOfBounds)
    } else {
        Ok(())
    }
}

/// Validates an erase request: an alignment error when a bound is no multiple
/// of the erase size or the bounds are out of order, an out-of-bounds error
/// when the range ends beyond the capacity, otherwise acceptance. Validation
/// never touches the device.
pub fn check_erase_args(erase_size: usize, capacity: usize, from: u32, to: u32) -> (r: Result<
    (),
    StorageError,
>)
    requires
        erase_size > 0,
    ensures
        r == (if !(aligned(from as int, erase_size as nat) && aligned(
            to as int,
            erase_size as nat,
        ) && from <= to) {
            Err::<(), StorageError>(StorageError::Alignment)
        } else if !(to <= capacity) {
            Err::<(), StorageError>(StorageError::OutOfBounds)
        } else {
            Ok::<(), StorageError>(())
        }),
        r is Ok <==> erase_args_ok(erase_size as nat, capacity as nat, from, to),
{
    if (from as usize) % erase_size != 0 || (to as usize) % erase_size != 0 || from > to {
        Err(StorageError::Alignment)
    } else if (to as usize) > capacity {
        Err(StorageError::OutOfBounds)
    } else {
        Ok(())
    }
}

} // verus!
