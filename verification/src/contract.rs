//! The uniform storage contract: the operation set and the descriptive
//! constants that every concrete device supplies.
//!
//! A caller holds exclusive mutable access to a device for the duration of
//! any call, so operations issued in sequence observe each other's effects in
//! issue order; every operation's effect is complete when the call returns,
//! and `flush` is the (here trivial) durability point.

use vstd::prelude::*;

use crate::behavior::WriteBehavior;
use crate::model::bump_counts;
use crate::model::erase_result;
use crate::model::erased_units_hold;
use crate::model::reset_counts;
use crate::model::unit_touched;
use crate::model::write_legal;
use crate::model::write_result;
use crate::profile::erase_args_ok;
use crate::profile::read_args_ok;
use crate::profile::write_args_ok;
use crate::profile::DeviceProfile;

verus! {

/// The abstract state of a storage device: its immutable profile, the byte
/// it currently stores at each address, and, for each erase unit, how many
/// writes the unit has seen since it was last erased.
#[verifier::ext_equal]
pub struct StorageView {
    /// The descriptive constants; they never change for one instance.
    pub profile: DeviceProfile,
    /// The stored bytes; the length is the capacity.
    pub contents: Seq<u8>,
    /// Writes per erase unit since that unit's last erase. Unit `u` covers
    /// the bytes `[u * erase_size, (u + 1) * erase_size)`.
    pub unit_writes: Seq<nat>,
}

impl StorageView {
    /// The highest address, exclusive.
    pub open spec fn capacity(self) -> nat {
        self.contents.len()
    }

    /// Well-formedness: positive granularities, the erase units exactly
    /// partition the contents, and a unit that has seen no write since its
    /// last erase still holds the erase value everywhere.
    pub open spec fn valid(self) -> bool {
        &&& self.profile.wf()
        &&& self.contents.len() % self.profile.erase_size as nat == 0
        &&& self.unit_writes.len() * self.profile.erase_size as nat == self.contents.len()
        &&& erased_units_hold(
            self.contents,
            self.unit_writes,
            self.profile.erase_size as nat,
            self.profile.erase_value,
        )
    }
}

/// Flush is idempotent and always succeeds once prior operations have
/// completed: [`Storage::flush`]'s contract pins every call to return success
/// and to leave the state unchanged — which every operation of this contract
/// makes true by the time it returns — so a second consecutive flush finds,
/// and leaves, exactly the state the first one left.
pub proof fn lemma_flush_idempotent(
    before: StorageView,
    after_first: StorageView,
    after_second: StorageView,
)
    requires
        after_first == before,
        after_second == after_first,
    ensures
        after_second == before,
{
}

/// The uniform contract over block-erasable storage. A device exposes the
/// descriptive constants of its profile, and the four operations, each of
/// which validates alignment and bounds before it touches the medium and
/// fails fast without a partial effect.
///
/// What a write leaves behind is pinned down exactly as long as every touched
/// erase unit stays within the behavior's write budget; one write beyond the
/// budget leaves the touched units unspecified — deliberately, the contract
/// does not paper over that hardware hazard, and it does not oblige a device
/// to track write counts at run time.
pub trait Storage: Sized {
    /// The device's own error type; adapters propagate it verbatim.
    type Error;

    /// The abstract state of the device.
    spec fn view(&self) -> StorageView;

    /// The implementor's internal invariant; constructors establish it and
    /// every operation preserves it.
    spec fn inv(&self) -> bool;

    /// The internal invariant keeps the abstract state well-formed.
    proof fn inv_implies_valid(&self)
        requires
            self.inv(),
        ensures
            self@.valid(),
    ;

    /// The descriptive constants, as fixed at construction.
    fn profile(&self) -> (r: DeviceProfile)
        requires
            self.inv(),
        ensures
            r == self@.profile,
    ;

    /// The capacity, or highest address (exclusive). A pure query: it is the
    /// same value on every call on one instance.
    fn capacity(&self) -> (r: usize)
        requires
            self.inv(),
        ensures
            r == self@.capacity(),
    ;

    /// Fills `bytes` with the stored bytes at `[offset, offset + bytes.len())`.
    /// Succeeds exactly when offset and length are multiples of the read size
    /// and the range stays within the capacity; a rejected read leaves the
    /// buffer untouched. Reading never changes the device.
    fn read(&mut self, offset: u32, bytes: &mut Vec<u8>) -> (r: Result<(), Self::Error>)
        requires
            old(self).inv(),
        ensures
            final(self).inv(),
            final(self)@ == old(self)@,
            final(bytes).len() == old(bytes).len(),
            r is Ok <==> read_args_ok(
                old(self)@.profile,
                old(self)@.capacity(),
                offset,
                old(bytes).len() as nat,
            ),
            r is Ok ==> final(bytes)@ == old(self)@.contents.subrange(
                offset as int,
                offset + old(bytes).len(),
            ),
            r is Err ==> final(bytes)@ == old(bytes)@,
    ;

    /// Erases `[from, to)`: afterwards every byte of the range holds the
    /// erase value and every erased unit is back at the start of its write
    /// budget. Succeeds exactly when both bounds are multiples of the erase
    /// size, in order, and within the capacity; a rejected erase leaves the
    /// device unchanged.
    fn erase(&mut self, from: u32, to: u32) -> (r: Result<(), Self::Error>)
        requires
            old(self).inv(),
        ensures
            final(self).inv(),
            final(self)@.profile == old(self)@.profile,
            r is Ok <==> erase_args_ok(
                old(self)@.profile.erase_size as nat,
                old(self)@.capacity(),
                from,
                to,
            ),
            r is Ok ==> final(self)@.contents == erase_result(
                old(self)@.contents,
                from as int,
                to as int,
                old(self)@.profile.erase_value,
            ),
            r is Ok ==> final(self)@.unit_writes == reset_counts(
                old(self)@.unit_writes,
                from as int / (old(self)@.profile.erase_size as int),
                to as int / (old(self)@.profile.erase_size as int),
            ),
            r is Err ==> final(self)@ == old(self)@,
    ;

    /// Writes `bytes` at `offset`. Succeeds exactly when offset and length
    /// are multiples of the write size and the range stays within the
    /// capacity; a rejected write leaves the device unchanged. On success,
    /// every touched erase unit has seen one write more; as long as that
    /// stays within the behavior's write budget, each addressed byte combines
    /// with the stored byte per the behavior and every other byte keeps its
    /// value. Beyond the budget only the untouched units are guaranteed.
    fn write(&mut self, offset: u32, bytes: &[u8]) -> (r: Result<(), Self::Error>)
        requires
            old(self).inv(),
        ensures
            final(self).inv(),
            final(self)@.profile == old(self)@.profile,
            final(self)@.contents.len() == old(self)@.contents.len(),
            r is Ok <==> write_args_ok(
                old(self)@.profile,
                old(self)@.capacity(),
                offset,
                bytes@.len(),
            ),
            r is Ok ==> final(self)@.unit_writes == bump_counts(
                old(self)@.unit_writes,
                old(self)@.profile.erase_size as nat,
                offset as int,
                bytes@.len(),
            ),
            r is Ok && write_legal(
                old(self)@.profile.write_behavior,
                old(self)@.unit_writes,
                old(self)@.profile.erase_size as nat,
                offset as int,
                bytes@,
            ) ==> final(self)@.contents == write_result(
                old(self)@.profile.write_behavior,
                old(self)@.contents,
                offset as int,
                bytes@,
            ),
            r is Ok ==> forall|i: int|
                0 <= i < old(self)@.contents.len() && !unit_touched(
                    old(self)@.profile.erase_size as nat,
                    offset as int,
                    bytes@.len(),
                    i / (old(self)@.profile.erase_size as int),
                ) ==> #[trigger] final(self)@.contents[i] == old(self)@.contents[i],
            r is Err ==> final(self)@ == old(self)@,
    ;

    /// The durability point: when it returns, no prior operation on this
    /// instance is still in flight. Every operation of this contract is
    /// complete when its own call returns, so flush has nothing left to wait
    /// for: it always succeeds, changes nothing, and calling it again is a
    /// no-op just the same.
    fn flush(&mut self) -> (r: Result<(), Self::Error>)
        requires
            old(self).inv(),
        ensures
            final(self).inv(),
            final(self)@ == old(self)@,
            r is Ok,
    ;
}

} // verus!
