//! The native NOR-flash capability and the adapters that project it onto the
//! uniform storage contract.
//!
//! A NOR-flash-like device reads at its read granularity, erases whole units
//! to all ones, and writes by clearing bits: a write bitwise-ANDs into what
//! is stored. A device guarantees that result only on a freshly erased unit,
//! unless it tolerates unlimited writes per erase cycle. The adapters fix the
//! descriptive constants that describe the wrapped capability and forward
//! every operation's arguments and result unchanged, adding no validation of
//! their own.

use vstd::prelude::*;

use crate::behavior::Reliability;
use crate::behavior::WriteBehavior;
use crate::contract::Storage;
use crate::contract::StorageView;
use crate::model::bump_counts;
use crate::model::erase_result;
use crate::model::erased_units_hold;
use crate::model::lemma_byte_in_own_unit;
use crate::model::lemma_unit_index_bounds;
use crate::model::lemma_written_byte_unit_touched;
use crate::model::reset_counts;
use crate::model::unit_touched;
use crate::model::write_legal;
use crate::model::write_result;
use crate::profile::access_args_ok;
use crate::profile::erase_args_ok;
use crate::profile::DeviceProfile;

verus! {

/// The abstract state of a native NOR-flash device: the three granularities
/// it reports, the stored bytes, and the writes each erase unit has seen
/// since it was last erased.
#[verifier::ext_equal]
pub struct NorFlashView {
    /// The smallest readable size.
    pub read_size: usize,
    /// The smallest writable size.
    pub write_size: usize,
    /// The granularity of an erase.
    pub erase_size: usize,
    /// The stored bytes; the length is the capacity.
    pub contents: Seq<u8>,
    /// Writes per erase unit since that unit's last erase.
    pub unit_writes: Seq<nat>,
}

impl NorFlashView {
    /// The highest address, exclusive.
    pub open spec fn capacity(self) -> nat {
        self.contents.len()
    }

    /// Well-formedness: positive granularities, the erase units exactly
    /// partition the contents, and a freshly erased unit holds all ones.
    pub open spec fn valid(self) -> bool {
        &&& self.read_size > 0 && self.write_size > 0 && self.erase_size > 0
        &&& self.contents.len() % self.erase_size as nat == 0
        &&& self.unit_writes.len() * self.erase_size as nat == self.contents.len()
        &&& erased_units_hold(self.contents, self.unit_writes, self.erase_size as nat, 0xff)
    }
}

/// Whether the outcome of a NOR write is pinned down: always on a device that
/// tolerates unlimited writes per erase cycle, otherwise only while every
/// touched unit is freshly erased.
pub open spec fn nor_write_defined(
    multiwrite: bool,
    counts: Seq<nat>,
    es: nat,
    offset: int,
    len: nat,
) -> bool {
    multiwrite || forall|u: int|
        0 <= u < counts.len() && #[trigger] unit_touched(es, offset, len, u) ==> counts[u] == 0
}

/// A device exposing the native NOR-flash capability: the trait a concrete
/// driver implements so that an adapter can lift it onto [`Storage`].
pub trait NorFlashDevice: Sized {
    /// The device's own error type; adapters propagate it verbatim.
    type Error;

    /// The abstract state of the device.
    spec fn view(&self) -> NorFlashView;

    /// The implementor's internal invariant.
    spec fn inv(&self) -> bool;

    /// Whether the device tolerates more than one write per erase cycle.
    spec fn multiwrite(&self) -> bool;

    /// The internal invariant keeps the abstract state well-formed.
    proof fn inv_implies_valid(&self)
        requires
            self.inv(),
        ensures
            self@.valid(),
    ;

    /// The smallest readable size, fixed for the instance's lifetime.
    fn read_size(&self) -> (r: usize)
        requires
            self.inv(),
        ensures
            r == self@.read_size,
    ;

    /// The smallest writable size, fixed for the instance's lifetime.
    fn write_size(&self) -> (r: usize)
        requires
            self.inv(),
        ensures
            r == self@.write_size,
    ;

    /// The erase granularity, fixed for the instance's lifetime.
    fn erase_size(&self) -> (r: usize)
        requires
            self.inv(),
        ensures
            r == self@.erase_size,
    ;

    /// The capacity, or highest address (exclusive).
    fn capacity(&self) -> (r: usize)
        requires
            self.inv(),
        ensures
            r == self@.capacity(),
    ;

    /// Fills `bytes` from the stored bytes; succeeds exactly when the request
    /// is aligned to the read size and within the capacity.
    fn read(&mut self, offset: u32, bytes: &mut Vec<u8>) -> (r: Result<(), Self::Error>)
        requires
            old(self).inv(),
        ensures
            final(self).inv(),
            final(self)@ == old(self)@,
            final(self).multiwrite() == old(self).multiwrite(),
            final(bytes).len() == old(bytes).len(),
            r is Ok <==> access_args_ok(
                old(self)@.read_size as nat,
                old(self)@.capacity(),
                offset,
                old(bytes).len() as nat,
            ),
            r is Ok ==> final(bytes)@ == old(self)@.contents.subrange(
                offset as int,
                offset + old(bytes).len(),
            ),
            r is Err ==> final(bytes)@ == old(bytes)@,
    ;

    /// Erases `[from, to)` to all ones and resets the erased units' write
    /// counts; succeeds exactly when the bounds are aligned to the erase
    /// size, in order, and within the capacity.
    fn erase(&mut self, from: u32, to: u32) -> (r: Result<(), Self::Error>)
        requires
            old(self).inv(),
        ensures
            final(self).inv(),
            final(self)@.read_size == old(self)@.read_size,
            final(self)@.write_size == old(self)@.write_size,
            final(self)@.erase_size == old(self)@.erase_size,
            final(self).multiwrite() == old(self).multiwrite(),
            r is Ok <==> erase_args_ok(
                old(self)@.erase_size as nat,
                old(self)@.capacity(),
                from,
                to,
            ),
            r is Ok ==> final(self)@.contents == erase_result(
                old(self)@.contents,
                from as int,
                to as int,
                0xff,
            ),
            r is Ok ==> final(self)@.unit_writes == reset_counts(
                old(self)@.unit_writes,
                from as int / (old(self)@.erase_size as int),
                to as int / (old(self)@.erase_size as int),
            ),
            r is Err ==> final(self)@ == old(self)@,
    ;

    /// Writes `bytes` at `offset`; succeeds exactly when the request is
    /// aligned to the write size and within the capacity. Every touched unit
    /// has seen one write more; while the outcome is defined the written
    /// bytes AND into the stored ones and everything else keeps its value,
    /// and whatever happens the untouched units keep theirs.
    fn write(&mut self, offset: u32, bytes: &[u8]) -> (r: Result<(), Self::Error>)
        requires
            old(self).inv(),
        ensures
            final(self).inv(),
            final(self)@.read_size == old(self)@.read_size,
            final(self)@.write_size == old(self)@.write_size,
            final(self)@.erase_size == old(self)@.erase_size,
            final(self)@.contents.len() == old(self)@.contents.len(),
            final(self).multiwrite() == old(self).multiwrite(),
            r is Ok <==> access_args_ok(
                old(self)@.write_size as nat,
                old(self)@.capacity(),
                offset,
                bytes@.len(),
            ),
            r is Ok ==> final(self)@.unit_writes == bump_counts(
                old(self)@.unit_writes,
                old(self)@.erase_size as nat,
                offset as int,
                bytes@.len(),
            ),
            r is Ok && nor_write_defined(
                old(self).multiwrite(),
                old(self)@.unit_writes,
                old(self)@.erase_size as nat,
                offset as int,
                bytes@.len(),
            ) ==> final(self)@.contents == write_result(
                WriteBehavior::InfiniteAnd,
                old(self)@.contents,
                offset as int,
                bytes@,
            ),
            r is Ok ==> forall|i: int|
                0 <= i < old(self)@.contents.len() && !unit_touched(
                    old(self)@.erase_size as nat,
                    offset as int,
                    bytes@.len(),
                    i / (old(self)@.erase_size as int),
                ) ==> #[trigger] final(self)@.contents[i] == old(self)@.contents[i],
            r is Err ==> final(self)@ == old(self)@,
    ;
}

/// A NOR-flash device that tolerates unlimited AND-combining writes per
/// erase cycle.
pub trait MultiwriteNorFlashDevice: NorFlashDevice {
    /// The capability this trait stands for.
    proof fn multiwrite_guaranteed(&self)
        ensures
            self.multiwrite(),
    ;
}

/// Projects a single-write NOR-flash device onto the storage contract: one
/// write per erase cycle, erase value all ones, reliability good-but-degrading
/// (NOR flash is dependable by design yet wears near its end of life), flush a
/// no-op. A transparent pass-through: the constants describe the wrapped
/// capability and every operation forwards unchanged.
pub struct NorFlash<S: NorFlashDevice> {
    dev: S,
}

impl<S: NorFlashDevice> NorFlash<S> {
    /// Wraps a device.
    pub fn new(dev: S) -> (r: NorFlash<S>)
        requires
            dev.inv(),
        ensures
            r.inv(),
            r@.contents == dev@.contents,
            r@.unit_writes == dev@.unit_writes,
    {
        NorFlash { dev }
    }

    /// Adapter fidelity: whatever device is wrapped and whatever state it is
    /// in, this adapter reports exactly one write per erase cycle, an erase
    /// value of all ones, and the wrapped device's own granularities.
    pub proof fn lemma_adapter_fidelity(&self)
        ensures
            self@.profile.write_behavior == WriteBehavior::Once,
            self@.profile.erase_value == 0xff,
            self@.profile.read_size == self.device()@.read_size,
            self@.profile.write_size == self.device()@.write_size,
            self@.profile.erase_size == self.device()@.erase_size,
            self@.contents == self.device()@.contents,
            self@.unit_writes == self.device()@.unit_writes,
    {
    }

    /// The wrapped device.
    pub closed spec fn device(&self) -> S {
        self.dev
    }
}

impl<S: NorFlashDevice> Storage for NorFlash<S> {
    type Error = S::Error;

    closed spec fn view(&self) -> StorageView {
        StorageView {
            profile: DeviceProfile {
                read_size: self.dev@.read_size,
                write_size: self.dev@.write_size,
                erase_size: self.dev@.erase_size,
                erase_value: 0xff,
                write_behavior: WriteBehavior::Once,
                reliability: Reliability::GoodDegrading,
            },
            contents: self.dev@.contents,
            unit_writes: self.dev@.unit_writes,
        }
    }

    closed spec fn inv(&self) -> bool {
        self.dev.inv()
    }

    proof fn inv_implies_valid(&self) {
        self.dev.inv_implies_valid();
    }

    fn profile(&self) -> (r: DeviceProfile) {
        DeviceProfile {
            read_size: self.dev.read_size(),
            write_size: self.dev.write_size(),
            erase_size: self.dev.erase_size(),
            erase_value: 0xff,
            write_behavior: WriteBehavior::Once,
            reliability: Reliability::GoodDegrading,
        }
    }

    fn capacity(&self) -> (r: usize) {
        self.dev.capacity()
    }

    fn read(&mut self, offset: u32, bytes: &mut Vec<u8>) -> (r: Result<(), S::Error>) {
        self.dev.read(offset, bytes)
    }

    fn erase(&mut self, from: u32, to: u32) -> (r: Result<(), S::Error>) {
        self.dev.erase(from, to)
    }

    fn write(&mut self, offset: u32, bytes: &[u8]) -> (r: Result<(), S::Error>) {
        proof {
            old(self).dev.inv_implies_valid();
        }
        let ghost pre = self.dev@;
        let ghost mw = self.dev.multiwrite();
        let ghost es = pre.erase_size as nat;
        let r = self.dev.write(offset, bytes);
        proof {
            if r is Ok && write_legal(
                WriteBehavior::Once,
                pre.unit_writes,
                es,
                offset as int,
                bytes@,
            ) {
                assert(nor_write_defined(mw, pre.unit_writes, es, offset as int, bytes@.len()));
                assert forall|i: int| 0 <= i < pre.contents.len() implies self.dev@.contents[i]
                    == write_result(WriteBehavior::Once, pre.contents, offset as int, bytes@)[i] by {
                    if offset as int <= i < offset + bytes@.len() {
                        lemma_written_byte_unit_touched(es, offset as int, bytes@.len(), i);
                        let u = i / (es as int);
                        lemma_unit_index_bounds(es, pre.unit_writes.len(), i);
                        assert(pre.unit_writes[u] == 0);
                        lemma_byte_in_own_unit(es, i);
                        assert(pre.contents[i] == 0xff);
                        let d = bytes@[i - offset];
                        assert(0xffu8 & d == d) by (bit_vector);
                    }
                }
                assert(self.dev@.contents =~= write_result(
                    WriteBehavior::Once,
                    pre.contents,
                    offset as int,
                    bytes@,
                ));
            }
        }
        r
    }

    fn flush(&mut self) -> (r: Result<(), S::Error>) {
        Ok(())
    }
}

/// Projects a multi-write-capable NOR-flash device onto the storage
/// contract: two AND-combining writes per erase cycle, erase value all ones,
/// reliability good-but-degrading, flush a no-op. A transparent pass-through,
/// like the single-write adapter.
pub struct MultiWriteNorFlash<S: MultiwriteNorFlashDevice> {
    dev: S,
}

impl<S: MultiwriteNorFlashDevice> MultiWriteNorFlash<S> {
    /// Wraps a device.
    pub fn new(dev: S) -> (r: MultiWriteNorFlash<S>)
        requires
            dev.inv(),
        ensures
            r.inv(),
            r@.contents == dev@.contents,
            r@.unit_writes == dev@.unit_writes,
    {
        MultiWriteNorFlash { dev }
    }

    /// Adapter fidelity: whatever device is wrapped and whatever state it is
    /// in, this adapter reports two AND-combining writes per erase cycle, an
    /// erase value of all ones, and the wrapped device's own granularities.
    pub proof fn lemma_adapter_fidelity(&self)
        ensures
            self@.profile.write_behavior == WriteBehavior::TwiceAnd,
            self@.profile.erase_value == 0xff,
            self@.profile.read_size == self.device()@.read_size,
            self@.profile.write_size == self.device()@.write_size,
            self@.profile.erase_size == self.device()@.erase_size,
            self@.contents == self.device()@.contents,
            self@.unit_writes == self.device()@.unit_writes,
    {
    }

    /// The wrapped device.
    pub closed spec fn device(&self) -> S {
        self.dev
    }
}

impl<S: MultiwriteNorFlashDevice> Storage for MultiWriteNorFlash<S> {
    type Error = S::Error;

    closed spec fn view(&self) -> StorageView {
        StorageView {
            profile: DeviceProfile {
                read_size: self.dev@.read_size,
                write_size: self.dev@.write_size,
                erase_size: self.dev@.erase_size,
                erase_value: 0xff,
                write_behavior: WriteBehavior::TwiceAnd,
                reliability: Reliability::GoodDegrading,
            },
            contents: self.dev@.contents,
            unit_writes: self.dev@.unit_writes,
        }
    }

    closed spec fn inv(&self) -> bool {
        self.dev.inv()
    }

    proof fn inv_implies_valid(&self) {
        self.dev.inv_implies_valid();
    }

    fn profile(&self) -> (r: DeviceProfile) {
        DeviceProfile {
            read_size: self.dev.read_size(),
            write_size: self.dev.write_size(),
            erase_size: self.dev.erase_size(),
            erase_value: 0xff,
            write_behavior: WriteBehavior::TwiceAnd,
            reliability: Reliability::GoodDegrading,
        }
    }

    fn capacity(&self) -> (r: usize) {
        self.dev.capacity()
    }

    fn read(&mut self, offset: u32, bytes: &mut Vec<u8>) -> (r: Result<(), S::Error>) {
        self.dev.read(offset, bytes)
    }

    fn erase(&mut self, from: u32, to: u32) -> (r: Result<(), S::Error>) {
        self.dev.erase(from, to)
    }

    fn write(&mut self, offset: u32, bytes: &[u8]) -> (r: Result<(), S::Error>) {
        proof {
            self.dev.multiwrite_guaranteed();
        }
        let ghost pre = self.dev@;
        let r = self.dev.write(offset, bytes);
        proof {
            if r is Ok {
                assert(self.dev@.contents =~= write_result(
                    WriteBehavior::TwiceAnd,
                    pre.contents,
                    offset as int,
                    bytes@,
                ));
            }
        }
        r
    }

    fn flush(&mut self) -> (r: Result<(), S::Error>) {
        Ok(())
    }
}

} // verus!
