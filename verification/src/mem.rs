//! A RAM-backed device implementing the full storage contract, for any
//! profile: the reference implementation of the contract's semantics.
//!
//! The device does not track write counts at run time — the contract's write
//! budget is deliberately unenforced — so a write beyond the budget simply
//! keeps combining per the profile's behavior, one refinement of the
//! unspecified hardware outcome.

use vstd::prelude::*;

use crate::behavior::and_combining;
use crate::behavior::combine_byte;
use crate::behavior::WriteBehavior;
use crate::contract::Storage;
use crate::contract::StorageView;
use crate::model::bump_counts;
use crate::model::erase_result;
use crate::model::lemma_aligned_range_units;
use crate::model::lemma_unit_of_byte;
use crate::model::lemma_unit_within_aligned_range;
use crate::model::lemma_written_byte_unit_touched;
use crate::model::reset_counts;
use crate::model::unit_touched;
use crate::model::write_result;
use crate::nor::MultiwriteNorFlashDevice;
use crate::nor::NorFlashDevice;
use crate::nor::NorFlashView;
use crate::profile::check_access_args;
use crate::profile::check_erase_args;
use crate::profile::DeviceProfile;
use crate::profile::StorageError;
use vstd::arithmetic::div_mod::lemma_fundamental_div_mod;

verus! {

/// An emulated storage device holding its bytes in memory.
pub struct MemStorage {
    profile: DeviceProfile,
    data: Vec<u8>,
    unit_writes: Ghost<Seq<nat>>,
}

impl MemStorage {
    /// Builds a device of the given profile and capacity, every byte holding
    /// the erase value and every erase unit freshly erased. Rejects a profile
    /// with a zero granularity and a capacity that the erase units do not
    /// partition exactly.
    pub fn new(profile: DeviceProfile, capacity: usize) -> (r: Option<MemStorage>)
        ensures
            r is Some <==> profile.wf() && capacity as int % (profile.erase_size as int) == 0,
            r is Some ==> r->Some_0.inv(),
            r is Some ==> r->Some_0@.profile == profile,
            r is Some ==> r->Some_0@.contents == Seq::new(
                capacity as nat,
                |i: int| profile.erase_value,
            ),
            r is Some ==> r->Some_0@.unit_writes == Seq::new(
                (capacity as int / (profile.erase_size as int)) as nat,
                |u: int| 0nat,
            ),
    {
        if profile.read_size == 0 || profile.write_size == 0 || profile.erase_size == 0 {
            return None;
        }
        if capacity % profile.erase_size != 0 {
            return None;
        }
        let units = capacity / profile.erase_size;
        let mut data: Vec<u8> = Vec::new();
        let mut i: usize = 0;
        while i < capacity
            invariant
                i <= capacity,
                data@.len() == i,
                forall|j: int| 0 <= j < i ==> #[trigger] data@[j] == profile.erase_value,
            decreases capacity - i,
        {
            data.push(profile.erase_value);
            i += 1;
        }
        let s = MemStorage {
            profile,
            data,
            unit_writes: Ghost(Seq::new(units as nat, |u: int| 0nat)),
        };
        proof {
            assert(s@.contents =~= Seq::new(capacity as nat, |i: int| profile.erase_value));
            lemma_fundamental_div_mod(capacity as int, profile.erase_size as int);
            assert((units as int) * (profile.erase_size as int) == capacity as int) by (nonlinear_arith)
                requires
                    capacity as int == (profile.erase_size as int) * (units as int),
            ;
        }
        Some(s)
    }
}

impl Storage for MemStorage {
    type Error = StorageError;

    closed spec fn view(&self) -> StorageView {
        StorageView {
            profile: self.profile,
            contents: self.data@,
            unit_writes: self.unit_writes@,
        }
    }

    closed spec fn inv(&self) -> bool {
        self@.valid()
    }

    proof fn inv_implies_valid(&self) {
    }

    fn profile(&self) -> (r: DeviceProfile) {
        self.profile
    }

    fn capacity(&self) -> (r: usize) {
        self.data.len()
    }

    fn read(&mut self, offset: u32, bytes: &mut Vec<u8>) -> (r: Result<(), StorageError>) {
        match check_access_args(self.profile.read_size, self.data.len(), offset, bytes.len()) {
            Err(e) => Err(e),
            Ok(()) => {
                let off = offset as usize;
                let n = bytes.len();
                let mut out: Vec<u8> = Vec::new();
                let mut i: usize = 0;
                while i < n
                    invariant
                        i <= n,
                        off + n <= self.data@.len(),
                        self.data@.len() <= usize::MAX,
                        out@.len() == i,
                        forall|j: int| 0 <= j < i ==> #[trigger] out@[j] == self.data@[off + j],
                    decreases n - i,
                {
                    let b = self.data[off + i];
                    out.push(b);
                    i += 1;
                }
                proof {
                    assert(out@ =~= self.data@.subrange(off as int, off + n));
                }
                *bytes = out;
                Ok(())
            },
        }
    }

    fn erase(&mut self, from: u32, to: u32) -> (r: Result<(), StorageError>) {
        match check_erase_args(self.profile.erase_size, self.data.len(), from, to) {
            Err(e) => Err(e),
            Ok(()) => {
                let f = from as usize;
                let t = to as usize;
                let ev = self.profile.erase_value;
                let mut i: usize = f;
                while i < t
                    invariant
                        f <= i <= t,
                        t <= self.data@.len(),
                        self.profile == old(self).profile,
                        self.unit_writes@ == old(self).unit_writes@,
                        self.data@.len() == old(self).data@.len(),
                        ev == self.profile.erase_value,
                        forall|k: int|
                            0 <= k < self.data@.len() ==> #[trigger] self.data@[k] == (if f <= k
                                < i {
                                ev
                            } else {
                                old(self).data@[k]
                            }),
                    decreases t - i,
                {
                    self.data[i] = ev;
                    i += 1;
                }
                let ghost es = self.profile.erase_size as nat;
                let ghost lo = from as int / (es as int);
                let ghost hi = to as int / (es as int);
                self.unit_writes = Ghost(reset_counts(self.unit_writes@, lo, hi));
                proof {
                    let oldc = old(self).data@;
                    assert(self.data@ =~= erase_result(oldc, from as int, to as int, ev));
                    let counts = self.unit_writes@;
                    assert forall|u: int, i2: int|
                        0 <= u < counts.len() && #[trigger] counts[u] == 0 && u * es <= i2 < (u + 1)
                            * es && 0 <= i2 < self.data@.len() implies #[trigger] self.data@[i2]
                        == ev by {
                        if lo <= u < hi {
                            lemma_unit_within_aligned_range(es, from as int, to as int, u);
                        } else {
                            if from as int <= i2 < to as int {
                                lemma_aligned_range_units(es, from as int, to as int, i2);
                                lemma_unit_of_byte(es, u, i2);
                            }
                        }
                    }
                }
                Ok(())
            },
        }
    }

    fn write(&mut self, offset: u32, bytes: &[u8]) -> (r: Result<(), StorageError>) {
        match check_access_args(self.profile.write_size, self.data.len(), offset, bytes.len()) {
            Err(e) => Err(e),
            Ok(()) => {
                let off = offset as usize;
                let n = bytes.len();
                let wb = self.profile.write_behavior;
                let is_and = match wb {
                    WriteBehavior::TwiceAnd => true,
                    WriteBehavior::InfiniteAnd => true,
                    _ => false,
                };
                let mut i: usize = 0;
                while i < n
                    invariant
                        i <= n,
                        n == bytes@.len(),
                        off == offset as usize,
                        off + n <= self.data@.len(),
                        self.data@.len() <= usize::MAX,
                        self.profile == old(self).profile,
                        self.unit_writes@ == old(self).unit_writes@,
                        self.data@.len() == old(self).data@.len(),
                        wb == self.profile.write_behavior,
                        is_and == and_combining(wb),
                        forall|k: int|
                            0 <= k < self.data@.len() ==> #[trigger] self.data@[k] == (if off <= k
                                < off + i {
                                combine_byte(wb, old(self).data@[k], bytes@[k - off])
                            } else {
                                old(self).data@[k]
                            }),
                    decreases n - i,
                {
                    let stored = self.data[off + i];
                    let written = bytes[i];
                    let v = if is_and {
                        stored & written
                    } else {
                        written
                    };
                    self.data[off + i] = v;
                    i += 1;
                }
                let ghost es = self.profile.erase_size as nat;
                self.unit_writes = Ghost(
                    bump_counts(self.unit_writes@, es, offset as int, bytes@.len()),
                );
                proof {
                    let oldc = old(self).data@;
                    assert(self.data@ =~= write_result(wb, oldc, offset as int, bytes@));
                    assert forall|i2: int|
                        0 <= i2 < oldc.len() && !unit_touched(
                            es,
                            offset as int,
                            bytes@.len(),
                            i2 / (es as int),
                        ) implies #[trigger] self.data@[i2] == oldc[i2] by {
                        if offset as int <= i2 < offset + bytes@.len() {
                            lemma_written_byte_unit_touched(es, offset as int, bytes@.len(), i2);
                        }
                    }
                    let counts = self.unit_writes@;
                    assert forall|u: int, i2: int|
                        0 <= u < counts.len() && #[trigger] counts[u] == 0 && u * es <= i2 < (u + 1)
                            * es && 0 <= i2 < self.data@.len() implies #[trigger] self.data@[i2]
                        == self.profile.erase_value by {
                        assert(!unit_touched(es, offset as int, bytes@.len(), u));
                        assert(old(self).unit_writes@[u] == 0);
                        if offset as int <= i2 < offset + bytes@.len() {
                            lemma_written_byte_unit_touched(es, offset as int, bytes@.len(), i2);
                            lemma_unit_of_byte(es, u, i2);
                        }
                    }
                }
                Ok(())
            },
        }
    }

    fn flush(&mut self) -> (r: Result<(), StorageError>) {
        Ok(())
    }
}

/// An emulated NOR-flash device holding its bytes in memory: battery-backed
/// RAM posing as NOR flash. It tolerates unlimited AND-combining writes per
/// erase cycle, so it offers the native capability of both adapters.
pub struct MemNorFlash {
    read_size: usize,
    write_size: usize,
    erase_size: usize,
    data: Vec<u8>,
    unit_writes: Ghost<Seq<nat>>,
}

impl MemNorFlash {
    /// Builds a device of the given granularities and capacity, every byte
    /// holding all ones and every erase unit freshly erased. Rejects a zero
    /// granularity and a capacity that the erase units do not partition
    /// exactly.
    pub fn new(read_size: usize, write_size: usize, erase_size: usize, capacity: usize) -> (r:
        Option<MemNorFlash>)
        ensures
            r is Some <==> read_size > 0 && write_size > 0 && erase_size > 0 && capacity as int % (
            erase_size as int) == 0,
            r is Some ==> r->Some_0.inv(),
            r is Some ==> r->Some_0@.read_size == read_size,
            r is Some ==> r->Some_0@.write_size == write_size,
            r is Some ==> r->Some_0@.erase_size == erase_size,
            r is Some ==> r->Some_0@.contents == Seq::new(capacity as nat, |i: int| 0xffu8),
            r is Some ==> r->Some_0@.unit_writes == Seq::new(
                (capacity as int / (erase_size as int)) as nat,
                |u: int| 0nat,
            ),
    {
        if read_size == 0 || write_size == 0 || erase_size == 0 {
            return None;
        }
        if capacity % erase_size != 0 {
            return None;
        }
        let units = capacity / erase_size;
        let mut data: Vec<u8> = Vec::new();
        let mut i: usize = 0;
        while i < capacity
            invariant
                i <= capacity,
                data@.len() == i,
                forall|j: int| 0 <= j < i ==> #[trigger] data@[j] == 0xffu8,
            decreases capacity - i,
        {
            data.push(0xff);
            i += 1;
        }
        let s = MemNorFlash {
            read_size,
            write_size,
            erase_size,
            data,
            unit_writes: Ghost(Seq::new(units as nat, |u: int| 0nat)),
        };
        proof {
            assert(s@.contents =~= Seq::new(capacity as nat, |i: int| 0xffu8));
            lemma_fundamental_div_mod(capacity as int, erase_size as int);
            assert((units as int) * (erase_size as int) == capacity as int) by (nonlinear_arith)
                requires
                    capacity as int == (erase_size as int) * (units as int),
            ;
        }
        Some(s)
    }
}

impl NorFlashDevice for MemNorFlash {
    type Error = StorageError;

    closed spec fn view(&self) -> NorFlashView {
        NorFlashView {
            read_size: self.read_size,
            write_size: self.write_size,
            erase_size: self.erase_size,
            contents: self.data@,
            unit_writes: self.unit_writes@,
        }
    }

    closed spec fn inv(&self) -> bool {
        self@.valid()
    }

    closed spec fn multiwrite(&self) -> bool {
        true
    }

    proof fn inv_implies_valid(&self) {
    }

    fn read_size(&self) -> (r: usize) {
        self.read_size
    }

    fn write_size(&self) -> (r: usize) {
        self.write_size
    }

    fn erase_size(&self) -> (r: usize) {
        self.erase_size
    }

    fn capacity(&self) -> (r: usize) {
        self.data.len()
    }

    fn read(&mut self, offset: u32, bytes: &mut Vec<u8>) -> (r: Result<(), StorageError>) {
        match check_access_args(self.read_size, self.data.len(), offset, bytes.len()) {
            Err(e) => Err(e),
            Ok(()) => {
                let off = offset as usize;
                let n = bytes.len();
                let mut out: Vec<u8> = Vec::new();
                let mut i: usize = 0;
                while i < n
                    invariant
                        i <= n,
                        off + n <= self.data@.len(),
                        self.data@.len() <= usize::MAX,
                        out@.len() == i,
                        forall|j: int| 0 <= j < i ==> #[trigger] out@[j] == self.data@[off + j],
                    decreases n - i,
                {
                    let b = self.data[off + i];
                    out.push(b);
                    i += 1;
                }
                proof {
                    assert(out@ =~= self.data@.subrange(off as int, off + n));
                }
                *bytes = out;
                Ok(())
            },
        }
    }

    fn erase(&mut self, from: u32, to: u32) -> (r: Result<(), StorageError>) {
        match check_erase_args(self.erase_size, self.data.len(), from, to) {
            Err(e) => Err(e),
            Ok(()) => {
                let f = from as usize;
                let t = to as usize;
                let mut i: usize = f;
                while i < t
                    invariant
                        f <= i <= t,
                        t <= self.data@.len(),
                        self.read_size == old(self).read_size,
                        self.write_size == old(self).write_size,
                        self.erase_size == old(self).erase_size,
                        self.unit_writes@ == old(self).unit_writes@,
                        self.data@.len() == old(self).data@.len(),
                        forall|k: int|
                            0 <= k < self.data@.len() ==> #[trigger] self.data@[k] == (if f <= k
                                < i {
                                0xffu8
                            } else {
                                old(self).data@[k]
                            }),
                    decreases t - i,
                {
                    self.data[i] = 0xff;
                    i += 1;
                }
                let ghost es = self.erase_size as nat;
                let ghost lo = from as int / (es as int);
                let ghost hi = to as int / (es as int);
                self.unit_writes = Ghost(reset_counts(self.unit_writes@, lo, hi));
                proof {
                    let oldc = old(self).data@;
                    assert(self.data@ =~= erase_result(oldc, from as int, to as int, 0xff));
                    let counts = self.unit_writes@;
                    assert forall|u: int, i2: int|
                        0 <= u < counts.len() && #[trigger] counts[u] == 0 && u * es <= i2 < (u + 1)
                            * es && 0 <= i2 < self.data@.len() implies #[trigger] self.data@[i2]
                        == 0xffu8 by {
                        if lo <= u < hi {
                            lemma_unit_within_aligned_range(es, from as int, to as int, u);
                        } else {
                            if from as int <= i2 < to as int {
                                lemma_aligned_range_units(es, from as int, to as int, i2);
                                lemma_unit_of_byte(es, u, i2);
                            }
                        }
                    }
                }
                Ok(())
            },
        }
    }

    fn write(&mut self, offset: u32, bytes: &[u8]) -> (r: Result<(), StorageError>) {
        match check_access_args(self.write_size, self.data.len(), offset, bytes.len()) {
            Err(e) => Err(e),
            Ok(()) => {
                let off = offset as usize;
                let n = bytes.len();
                let mut i: usize = 0;
                while i < n
                    invariant
                        i <= n,
                        n == bytes@.len(),
                        off == offset as usize,
                        off + n <= self.data@.len(),
                        self.data@.len() <= usize::MAX,
                        self.read_size == old(self).read_size,
                        self.write_size == old(self).write_size,
                        self.erase_size == old(self).erase_size,
                        self.unit_writes@ == old(self).unit_writes@,
                        self.data@.len() == old(self).data@.len(),
                        forall|k: int|
                            0 <= k < self.data@.len() ==> #[trigger] self.data@[k] == (if off <= k
                                < off + i {
                                old(self).data@[k] & bytes@[k - off]
                            } else {
                                old(self).data@[k]
                            }),
                    decreases n - i,
                {
                    let stored = self.data[off + i];
                    let written = bytes[i];
                    self.data[off + i] = stored & written;
                    i += 1;
                }
                let ghost es = self.erase_size as nat;
                self.unit_writes = Ghost(
                    bump_counts(self.unit_writes@, es, offset as int, bytes@.len()),
                );
                proof {
                    let oldc = old(self).data@;
                    assert(self.data@ =~= write_result(
                        WriteBehavior::InfiniteAnd,
                        oldc,
                        offset as int,
                        bytes@,
                    ));
                    assert forall|i2: int|
                        0 <= i2 < oldc.len() && !unit_touched(
                            es,
                            offset as int,
                            bytes@.len(),
                            i2 / (es as int),
                        ) implies #[trigger] self.data@[i2] == oldc[i2] by {
                        if offset as int <= i2 < offset + bytes@.len() {
                            lemma_written_byte_unit_touched(es, offset as int, bytes@.len(), i2);
                        }
                    }
                    let counts = self.unit_writes@;
                    assert forall|u: int, i2: int|
                        0 <= u < counts.len() && #[trigger] counts[u] == 0 && u * es <= i2 < (u + 1)
                            * es && 0 <= i2 < self.data@.len() implies #[trigger] self.data@[i2]
                        == 0xffu8 by {
                        assert(!unit_touched(es, offset as int, bytes@.len(), u));
                        assert(old(self).unit_writes@[u] == 0);
                        if offset as int <= i2 < offset + bytes@.len() {
                            lemma_written_byte_unit_touched(es, offset as int, bytes@.len(), i2);
                            lemma_unit_of_byte(es, u, i2);
                        }
                    }
                }
                Ok(())
            },
        }
    }
}

impl MultiwriteNorFlashDevice for MemNorFlash {
    proof fn multiwrite_guaranteed(&self) {
    }
}

} // verus!
