//! Memory devices and the memory map.
//!
//! An address space of 32-bit byte addresses is composed of
//! non-overlapping segments, each delegating reads and writes to a
//! backing device. `LinearMemory` is the one backing device: an owned
//! byte buffer with device-relative addressing. Words are 16 bits wide
//! and little-endian; word access at odd addresses is legal, the low
//! byte sitting at the lower address.

use vstd::prelude::*;

verus! {

/// A memory access fault.
#[derive(Clone, Copy, Debug, PartialEq, Eq, Structural)]
pub enum MemoryError {
    /// No mapped segment covers the address.
    UnmappedAddress(u32),
    /// The address falls outside a device's storage.
    OutOfBounds(u32),
    /// A new segment would overlap one already mapped, or does not fit
    /// the address space or its own device.
    BadMapping(u32),
}

/// The 16-bit little-endian word made of two bytes.
pub open spec fn word_le(lo: u8, hi: u8) -> u16 {
    (lo as u16) | ((hi as u16) << 8)
}

/// A byte-addressed store with 16-bit little-endian word access.
pub trait Addressable: Sized {
    /// The device's internal consistency.
    spec fn inv(&self) -> bool;

    /// The addresses this device answers.
    spec fn addr_ok(&self, addr: int) -> bool;

    /// The byte held at an address it answers.
    spec fn byte_at(&self, addr: int) -> u8;

    /// Read one byte: succeeds exactly on the addresses the device
    /// answers, and returns the byte held there.
    fn read(&self, addr: u32) -> (r: Result<u8, MemoryError>)
        requires
            self.inv(),
        ensures
            r is Ok <==> self.addr_ok(addr as int),
            r matches Ok(b) ==> b == self.byte_at(addr as int),
    ;

    /// Write one byte: succeeds exactly on the addresses the device
    /// answers, changes that byte and nothing else, and on failure
    /// changes nothing.
    fn write(&mut self, addr: u32, value: u8) -> (r: Result<(), MemoryError>)
        requires
            old(self).inv(),
        ensures
            final(self).inv(),
            r is Ok <==> old(self).addr_ok(addr as int),
            forall|a: int| final(self).addr_ok(a) == old(self).addr_ok(a),
            r is Ok ==> final(self).byte_at(addr as int) == value,
            r is Ok ==> forall|a: int|
                a != addr as int && old(self).addr_ok(a) ==> final(self).byte_at(a) == old(
                self,
                ).byte_at(a),
            r is Err ==> *final(self) == *old(self),
    ;

    /// Read the little-endian word whose low byte sits at `addr`.
    fn read2(&self, addr: u32) -> (r: Result<u16, MemoryError>)
        requires
            self.inv(),
            addr < 0xffff_ffff,
        ensures
            r is Ok <==> self.addr_ok(addr as int) && self.addr_ok(addr as int + 1),
            r matches Ok(w) ==> w == word_le(
                self.byte_at(addr as int),
                self.byte_at(addr as int + 1),
            ),
    {
        let lo = match self.read(addr) {
            Ok(b) => b,
            Err(e) => { return Err(e) },
        };
        let hi = match self.read(addr + 1) {
            Ok(b) => b,
            Err(e) => { return Err(e) },
        };
        proof {
            lemma_word_le_parts(lo, hi);
        }
        Ok((lo as u16) | ((hi as u16) << 8))
    }

    /// Write the little-endian word whose low byte sits at `addr`:
    /// succeeds exactly when both byte addresses are answered, leaves
    /// the low byte at `addr` and the high byte at `addr + 1`, changes
    /// nothing else, and on failure changes nothing.
    fn write2(&mut self, addr: u32, value: u16) -> (r: Result<(), MemoryError>)
        requires
            old(self).inv(),
            addr < 0xffff_ffff,
        ensures
            final(self).inv(),
            r is Ok <==> old(self).addr_ok(addr as int) && old(self).addr_ok(addr as int + 1),
            forall|a: int| final(self).addr_ok(a) == old(self).addr_ok(a),
            r is Ok ==> final(self).byte_at(addr as int) == (value & 0xff) as u8,
            r is Ok ==> final(self).byte_at(addr as int + 1) == (value >> 8) as u8,
            r is Ok ==> forall|a: int|
                a != addr as int && a != addr as int + 1 && old(self).addr_ok(a) ==> final(self).byte_at(a) == old(self).byte_at(a),
            r is Err ==> *final(self) == *old(self),
    {
        match self.read(addr) {
            Ok(_) => (),
            Err(e) => { return Err(e) },
        };
        match self.read(addr + 1) {
            Ok(_) => (),
            Err(e) => { return Err(e) },
        };
        let lo = (value & 0xff) as u8;
        let hi = (value >> 8) as u8;
        match self.write(addr, lo) {
            Ok(_) => (),
            Err(e) => { return Err(e) },
        };
        match self.write(addr + 1, hi) {
            Ok(_) => (),
            Err(e) => { return Err(e) },
        };
        Ok(())
    }
}

/// Splitting a word into bytes and reassembling them is the identity.
proof fn lemma_word_le_parts(lo: u8, hi: u8)
    ensures
        (lo as u16) | ((hi as u16) << 8) == word_le(lo, hi),
        ((word_le(lo, hi) & 0xff) as u8) == lo,
        ((word_le(lo, hi) >> 8) as u8) == hi,
{
    assert(((((lo as u16) | ((hi as u16) << 8)) & 0xff) as u8) == lo && ((((lo as u16) | ((
    hi as u16) << 8)) >> 8) as u8) == hi) by (bit_vector);
}

/// Assembling a word and taking it apart again gives the bytes back.
pub proof fn lemma_word_le_round_trip(value: u16)
    ensures
        word_le((value & 0xff) as u8, (value >> 8) as u8) == value,
{
    assert((((value & 0xff) as u8) as u16) | ((((value >> 8) as u8) as u16) << 8) == value)
        by (bit_vector);
}

/// A fixed-size byte buffer, addressed relative to its own start.
#[derive(Debug)]
pub struct LinearMemory {
    pub bytes: Vec<u8>,
}

impl LinearMemory {
    /// A zero-filled buffer of `size` bytes.
    pub fn new(size: usize) -> (r: LinearMemory)
        ensures
            r.bytes@.len() == size,
            forall|i: int| 0 <= i < size ==> r.bytes@[i] == 0,
    {
        let mut bytes: Vec<u8> = Vec::new();
        let mut i: usize = 0;
        while i < size
            invariant
                i <= size,
                bytes@.len() == i,
                forall|j: int| 0 <= j < i ==> bytes@[j] == 0,
            decreases size - i,
        {
            bytes.push(0);
            i = i + 1;
        }
        LinearMemory { bytes }
    }

    /// The buffer's size in bytes.
    pub fn size(&self) -> (r: usize)
        ensures
            r == self.bytes@.len(),
    {
        self.bytes.len()
    }
}

impl Addressable for LinearMemory {
    open spec fn inv(&self) -> bool {
        true
    }

    open spec fn addr_ok(&self, addr: int) -> bool {
        0 <= addr < self.bytes@.len()
    }

    open spec fn byte_at(&self, addr: int) -> u8 {
        self.bytes@[addr]
    }

    fn read(&self, addr: u32) -> (r: Result<u8, MemoryError>) {
        if (addr as usize) < self.bytes.len() {
            Ok(self.bytes[addr as usize])
        } else {
            Err(MemoryError::OutOfBounds(addr))
        }
    }

    fn write(&mut self, addr: u32, value: u8) -> (r: Result<(), MemoryError>) {
        if (addr as usize) < self.bytes.len() {
            self.bytes[addr as usize] = value;
            Ok(())
        } else {
            Err(MemoryError::OutOfBounds(addr))
        }
    }
}

/// One mapped region: `size` bytes of a device, from byte address
/// `start` of the shared address space.
#[derive(Debug)]
pub struct Segment {
    pub start: u32,
    pub size: u32,
    pub device: LinearMemory,
}

impl Segment {
    /// The segment covers the address.
    pub open spec fn contains(self, addr: int) -> bool {
        self.start <= addr < self.start as int + self.size as int
    }

    /// The device is exactly as large as the region, and the region
    /// fits the 32-bit address space.
    pub open spec fn wf(self) -> bool {
        &&& self.device.inv()
        &&& self.device.bytes@.len() == self.size
        &&& self.start as int + self.size as int <= 0x1_0000_0000
    }

    /// The byte the segment holds for an address it covers.
    pub open spec fn byte_at(self, addr: int) -> u8 {
        self.device.bytes@[addr - self.start]
    }

    /// The two segments claim no address in common.
    pub open spec fn disjoint_from(self, other: Segment) -> bool {
        self.start as int + self.size as int <= other.start as int || other.start as int
            + other.size as int <= self.start as int
    }
}

/// An ordered collection of non-overlapping segments; address
/// resolution is linear search, and a miss is a fault.
#[derive(Debug)]
pub struct MemoryMapper {
    pub segments: Vec<Segment>,
}

impl MemoryMapper {
    /// An empty address space.
    pub fn new() -> (r: MemoryMapper)
        ensures
            r.inv(),
            r.segments@.len() == 0,
            forall|a: int| !r.addr_ok(a),
    {
        MemoryMapper { segments: Vec::new() }
    }

    /// The index of the one segment covering `addr`.
    pub open spec fn seg_index(&self, addr: int) -> int {
        choose|i: int| 0 <= i < self.segments@.len() && self.segments@[i].contains(addr)
    }

    /// No other segment covers an address segment `i` covers.
    proof fn lemma_seg_unique(&self, addr: int, i: int)
        requires
            self.inv(),
            0 <= i < self.segments@.len(),
            self.segments@[i].contains(addr),
        ensures
            self.addr_ok(addr),
            self.seg_index(addr) == i,
    {
        let j = self.seg_index(addr);
        assert(self.segments@[j].contains(addr));
        if i != j {
            if i < j {
                assert(self.segments@[i].disjoint_from(self.segments@[j]));
            } else {
                assert(self.segments@[j].disjoint_from(self.segments@[i]));
            }
        }
    }

    /// Find the segment covering `addr`, if any.
    fn find_segment(&self, addr: u32) -> (r: Option<usize>)
        requires
            self.inv(),
        ensures
            r matches Some(i) ==> i < self.segments@.len() && self.segments@[i as int].contains(
                addr as int,
            ) && self.seg_index(addr as int) == i,
            r is Some <==> self.addr_ok(addr as int),
    {
        let n = self.segments.len();
        let mut i: usize = 0;
        while i < n
            invariant
                self.inv(),
                n == self.segments@.len(),
                i <= n,
                forall|j: int| 0 <= j < i ==> !self.segments@[j].contains(addr as int),
            decreases n - i,
        {
            let seg = &self.segments[i];
            if seg.start <= addr && (addr - seg.start) < seg.size {
                proof {
                    self.lemma_seg_unique(addr as int, i as int);
                }
                return Some(i);
            }
            i = i + 1;
        }
        None
    }

    /// The new segment keeps clear of every existing one.
    pub open spec fn fits(&self, start: u32, size: u32) -> bool {
        forall|j: int|
            0 <= j < self.segments@.len() ==> ((#[trigger] self.segments@[j]).start as int
                + self.segments@[j].size as int <= start as int || start as int + size as int
                <= self.segments@[j].start as int)
    }

    /// Insert a segment of `size` bytes at `start`, backed by `device`.
    /// Fails, changing nothing, when the region does not fit the 32-bit
    /// address space, the device's size differs from the region's, or a
    /// segment already mapped overlaps it. On success the new region
    /// answers with the device's bytes and every old address is
    /// untouched.
    pub fn map(&mut self, start: u32, size: u32, device: LinearMemory) -> (r: Result<
        (),
        MemoryError,
    >)
        requires
            old(self).inv(),
        ensures
            final(self).inv(),
            r is Ok <==> (start as int + size as int <= 0x1_0000_0000 && device.bytes@.len()
                == size && old(self).fits(start, size)),
            r is Err ==> *final(self) == *old(self),
            r is Ok ==> forall|a: int|
                #[trigger] final(self).addr_ok(a) == (old(self).addr_ok(a) || (start <= a
                    < start as int + size as int)),
            r is Ok ==> forall|a: int|
                old(self).addr_ok(a) ==> final(self).byte_at(a) == old(self).byte_at(a),
            r is Ok ==> forall|a: int|
                start <= a < start as int + size as int && !old(self).addr_ok(a) ==> final(self).byte_at(a) == device.bytes@[a - start],
    {
        if !(size as u64 <= 0x1_0000_0000u64 - start as u64) {
            return Err(MemoryError::BadMapping(start));
        }
        if device.size() != size as usize {
            return Err(MemoryError::BadMapping(start));
        }
        let n = self.segments.len();
        let mut i: usize = 0;
        while i < n
            invariant
                self.inv(),
                n == self.segments@.len(),
                i <= n,
                start as int + size as int <= 0x1_0000_0000,
                forall|j: int|
                    0 <= j < i ==> ((#[trigger] self.segments@[j]).start as int + self.segments@[
                    j].size as int <= start as int || start as int + size as int <= self.segments@[
                    j].start as int),
            decreases n - i,
        {
            let seg = &self.segments[i];
            let seg_end: u64 = seg.start as u64 + seg.size as u64;
            let new_end: u64 = start as u64 + size as u64;
            if !(seg_end <= start as u64 || new_end <= seg.start as u64) {
                return Err(MemoryError::BadMapping(start));
            }
            i = i + 1;
        }
        let ghost old_self = *self;
        let new_seg = Segment { start, size, device };
        self.segments.push(new_seg);
        proof {
            let m = self.segments@.len() - 1;
            assert(self.segments@[m] == new_seg);
            assert forall|k: int| 0 <= k < self.segments@.len() implies (
            #[trigger] self.segments@[k]).wf() by {
                if k < m {
                    assert(old_self.segments@[k].wf());
                }
            }
            assert forall|k: int, l: int| 0 <= k < l < self.segments@.len() implies (
            #[trigger] self.segments@[k]).disjoint_from(#[trigger] self.segments@[l]) by {
                if l < m {
                    assert(old_self.segments@[k].disjoint_from(old_self.segments@[l]));
                }
            }
            assert(self.inv());
            assert forall|a: int| #[trigger] self.addr_ok(a) == (old_self.addr_ok(a) || (start <= a
                < start as int + size as int)) by {
                if self.addr_ok(a) {
                    let k = choose|k: int|
                        0 <= k < self.segments@.len() && self.segments@[k].contains(a);
                    if k < m {
                        assert(old_self.segments@[k].contains(a));
                        assert(old_self.addr_ok(a));
                    }
                }
                if old_self.addr_ok(a) {
                    let k = choose|k: int|
                        0 <= k < old_self.segments@.len() && old_self.segments@[k].contains(a);
                    assert(self.segments@[k].contains(a));
                    assert(self.addr_ok(a));
                }
                if start <= a < start as int + size as int {
                    assert(self.segments@[m].contains(a));
                    assert(self.addr_ok(a));
                }
            }
            assert forall|a: int| old_self.addr_ok(a) implies #[trigger] self.byte_at(a)
                == old_self.byte_at(a) by {
                let k = old_self.seg_index(a);
                assert(old_self.segments@[k].contains(a));
                assert(self.segments@[k].contains(a));
                self.lemma_seg_unique(a, k);
            }
            assert forall|a: int|
                start <= a < start as int + size as int implies #[trigger] self.byte_at(a)
                == new_seg.device.bytes@[a - start] by {
                assert(self.segments@[m].contains(a));
                self.lemma_seg_unique(a, m);
            }
        }
        Ok(())
    }
}

impl Addressable for MemoryMapper {
    /// Every segment is well formed and no two overlap.
    open spec fn inv(&self) -> bool {
        &&& forall|i: int| 0 <= i < self.segments@.len() ==> (#[trigger] self.segments@[i]).wf()
        &&& forall|i: int, j: int|
            0 <= i < j < self.segments@.len() ==> (#[trigger] self.segments@[i]).disjoint_from(
                #[trigger] self.segments@[j],
            )
    }

    open spec fn addr_ok(&self, addr: int) -> bool {
        exists|i: int| 0 <= i < self.segments@.len() && (#[trigger] self.segments@[i]).contains(addr)
    }

    open spec fn byte_at(&self, addr: int) -> u8 {
        self.segments@[self.seg_index(addr)].byte_at(addr)
    }

    fn read(&self, addr: u32) -> (r: Result<u8, MemoryError>) {
        match self.find_segment(addr) {
            Some(i) => {
                let seg = &self.segments[i];
                let off = addr - seg.start;
                Ok(seg.device.bytes[off as usize])
            },
            None => Err(MemoryError::UnmappedAddress(addr)),
        }
    }

    fn write(&mut self, addr: u32, value: u8) -> (r: Result<(), MemoryError>) {
        let found = self.find_segment(addr);
        match found {
            Some(i) => {
                let ghost old_self = *self;
                let seg = &mut self.segments[i];
                let off = (addr - seg.start) as usize;
                seg.device.bytes[off] = value;
                proof {
                    let ii = i as int;
                    assert(self.segments@[ii].start == old_self.segments@[ii].start
                        && self.segments@[ii].size == old_self.segments@[ii].size
                        && self.segments@[ii].device.bytes@ == old_self.segments@[
                    ii].device.bytes@.update(off as int, value));
                    assert forall|k: int| 0 <= k < self.segments@.len() implies (
                    #[trigger] self.segments@[k]).wf() by {
                        assert(old_self.segments@[k].wf());
                        if k != ii {
                            assert(self.segments@[k] == old_self.segments@[k]);
                        }
                    }
                    assert forall|k: int, l: int| 0 <= k < l < self.segments@.len() implies (
                    #[trigger] self.segments@[k]).disjoint_from(#[trigger] self.segments@[l]) by {
                        assert(old_self.segments@[k].disjoint_from(old_self.segments@[l]));
                    }
                    assert(self.inv());
                    assert forall|a: int| #[trigger] self.addr_ok(a) == old_self.addr_ok(a) by {
                        if self.addr_ok(a) {
                            let k = choose|k: int|
                                0 <= k < self.segments@.len() && self.segments@[k].contains(a);
                            assert(old_self.segments@[k].contains(a));
                            assert(old_self.addr_ok(a));
                        }
                        if old_self.addr_ok(a) {
                            let k = choose|k: int|
                                0 <= k < old_self.segments@.len() && old_self.segments@[
                                k].contains(a);
                            assert(self.segments@[k].contains(a));
                            assert(self.addr_ok(a));
                        }
                    }
                    assert(self.segments@[ii].contains(addr as int));
                    self.lemma_seg_unique(addr as int, ii);
                    assert(self.byte_at(addr as int) == value);
                    assert forall|a: int|
                        a != addr as int && old_self.addr_ok(a) implies #[trigger] self.byte_at(a)
                        == old_self.byte_at(a) by {
                        let k = old_self.seg_index(a);
                        assert(old_self.segments@[k].contains(a));
                        assert(self.segments@[k].contains(a));
                        self.lemma_seg_unique(a, k);
                        old_self.lemma_seg_unique(a, k);
                        if k == ii {
                            assert(a - self.segments@[k].start as int != off as int);
                        }
                    }
                }
                Ok(())
            },
            None => Err(MemoryError::UnmappedAddress(addr)),
        }
    }
}

} // verus!
