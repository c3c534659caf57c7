//! Guest physical memory: disjoint regions of bytes.
//!
//! An access succeeds only when every byte it touches is mapped. A refused
//! access changes nothing.
use vstd::prelude::*;

use crate::bytes::{le_to_u64, u64_to_le};

verus! {

broadcast use vstd::group_vstd_default;

/// Why guest memory refused a request.
#[derive(Debug, Clone, Copy, PartialEq, Eq, Structural)]
pub enum MemoryError {
    /// Some byte of the access is not mapped.
    Unmapped {
        /// First address of the access.
        addr: u64,
    },
    /// A region of no bytes.
    EmptyRegion,
    /// The region does not fit the address space.
    RegionTooLarge,
    /// The region shares a byte with another one.
    Overlap {
        /// First address of the region that is already there.
        base: u64,
    },
}

/// A run of mapped bytes.
pub struct Region {
    base: u64,
    data: Vec<u8>,
}

impl Region {
    /// `a` is one of the region's addresses.
    pub closed spec fn holds(&self, a: int) -> bool {
        self.base <= a < self.base + self.data@.len()
    }

    /// The byte at address `a`.
    pub closed spec fn at(&self, a: int) -> u8 {
        self.data@[a - self.base]
    }

    spec fn wf(&self) -> bool {
        self.base + self.data@.len() <= 0x1_0000_0000_0000_0000
    }
}

/// The mapped bytes of one guest.
pub struct GuestMemory {
    regions: Vec<Region>,
}

/// Every byte of the `len` bytes at `addr` is mapped.
pub open spec fn mapped(m: Map<int, u8>, addr: int, len: int) -> bool {
    forall|a: int| addr <= a < addr + len ==> #[trigger] m.dom().contains(a)
}

/// The `len` bytes at `addr`.
pub open spec fn bytes_at(m: Map<int, u8>, addr: int, len: nat) -> Seq<u8> {
    Seq::new(len, |i: int| m[addr + i])
}

/// `m` with `data` at `addr`.
pub open spec fn with_bytes(m: Map<int, u8>, addr: int, data: Seq<u8>) -> Map<int, u8> {
    Map::new(
        |a: int| m.dom().contains(a),
        |a: int|
            if addr <= a < addr + data.len() {
                data[a - addr]
            } else {
                m[a]
            },
    )
}

/// The little-endian number in the `len` bytes at `addr`.
pub open spec fn value_at(m: Map<int, u8>, addr: int, len: nat) -> nat {
    crate::bytes::le_value(bytes_at(m, addr, len))
}

/// `m` with the `len` lowest bytes of `v` at `addr`.
pub open spec fn with_value(m: Map<int, u8>, addr: int, v: nat, len: nat) -> Map<int, u8> {
    with_bytes(m, addr, crate::bytes::le_bytes(v, len))
}

/// `m` with `len` zero bytes mapped at `base`.
pub open spec fn with_region(m: Map<int, u8>, base: int, len: int) -> Map<int, u8> {
    Map::new(
        |a: int| base <= a < base + len || m.dom().contains(a),
        |a: int|
            if base <= a < base + len {
                0
            } else {
                m[a]
            },
    )
}

impl View for GuestMemory {
    type V = Map<int, u8>;

    /// Address to byte, for the mapped addresses.
    closed spec fn view(&self) -> Map<int, u8> {
        regions_map(self.regions@)
    }
}

spec fn region_of(rs: Seq<Region>, a: int) -> int {
    choose|i: int| 0 <= i < rs.len() && (#[trigger] rs[i]).holds(a)
}

spec fn held(rs: Seq<Region>, a: int) -> bool {
    exists|i: int| 0 <= i < rs.len() && (#[trigger] rs[i]).holds(a)
}

spec fn regions_map(rs: Seq<Region>) -> Map<int, u8> {
    Map::new(|a: int| held(rs, a), |a: int| rs[region_of(rs, a)].at(a))
}

spec fn regions_wf(rs: Seq<Region>) -> bool {
    &&& forall|i: int| 0 <= i < rs.len() ==> (#[trigger] rs[i]).wf()
    &&& forall|i: int, j: int, a: int|
        0 <= i < rs.len() && 0 <= j < rs.len() && #[trigger] rs[i].holds(a)
            && #[trigger] rs[j].holds(a) ==> i == j
}

proof fn lemma_region(rs: Seq<Region>, i: int, a: int)
    requires
        regions_wf(rs),
        0 <= i < rs.len(),
        rs[i].holds(a),
    ensures
        regions_map(rs).dom().contains(a),
        regions_map(rs)[a] == rs[i].at(a),
        0 <= a < 0x1_0000_0000_0000_0000,
{
    assert(held(rs, a));
    let j = region_of(rs, a);
    assert(rs[j].holds(a));
    assert(rs[i].wf());
}

impl GuestMemory {
    /// Regions are disjoint and lie in the address space.
    pub closed spec fn wf(&self) -> bool {
        regions_wf(self.regions@)
    }

    /// Mapped addresses are 64-bit numbers.
    pub proof fn lemma_addresses(&self)
        requires
            self.wf(),
        ensures
            forall|a: int| #[trigger] self@.dom().contains(a) ==> 0 <= a <= u64::MAX,
    {
        assert forall|a: int| #[trigger] self@.dom().contains(a) implies 0 <= a <= u64::MAX by {
            let i = region_of(self.regions@, a);
            assert(held(self.regions@, a));
            lemma_region(self.regions@, i, a);
        }
    }

    /// Memory with nothing mapped.
    pub fn new() -> (m: Self)
        ensures
            m.wf(),
            m@ == Map::<int, u8>::empty(),
    {
        let m = GuestMemory { regions: Vec::new() };
        assert(m@ =~= Map::<int, u8>::empty());
        m
    }

    /// Map `size` zero bytes at `base`.
    pub fn add_region(&mut self, base: u64, size: u64) -> (r: Result<(), MemoryError>)
        requires
            old(self).wf(),
        ensures
            final(self).wf(),
            r is Ok <==> {
                &&& 0 < size <= usize::MAX
                &&& base + size <= 0x1_0000_0000_0000_0000
                &&& forall|a: int| base <= a < base + size ==> !#[trigger] old(self)@.dom().contains(a)
            },
            r is Ok ==> final(self)@ == with_region(old(self)@, base as int, size as int),
            r is Err ==> *final(self) == *old(self),
            r matches Err(MemoryError::EmptyRegion) <==> size == 0,
            r matches Err(MemoryError::RegionTooLarge) <==> size > 0 && (size > usize::MAX || base
                + size > 0x1_0000_0000_0000_0000),
            !(r matches Err(MemoryError::Unmapped { .. })),
    {
        if size == 0 {
            return Err(MemoryError::EmptyRegion);
        }
        if size > usize::MAX as u64 || size - 1 > u64::MAX - base {
            return Err(MemoryError::RegionTooLarge);
        }
        let last: u64 = base + (size - 1);
        let mut i: usize = 0;
        while i < self.regions.len()
            invariant
                i <= self.regions@.len(),
                *self == *old(self),
                self.wf(),
                0 < size <= usize::MAX,
                last == base + size - 1,
                forall|j: int, a: int|
                    0 <= j < i && base <= a <= last ==> !(#[trigger] self.regions@[j].holds(a)),
            decreases self.regions@.len() - i,
        {
            let r = &self.regions[i];
            assert(self.regions@[i as int].wf());
            if r.data.len() > 0 && r.base <= last && base <= r.base + (r.data.len() as u64 - 1) {
                proof {
                    let a: int = if base <= r.base {
                        r.base as int
                    } else {
                        base as int
                    };
                    assert(self.regions@[i as int].holds(a));
                    lemma_region(self.regions@, i as int, a);
                    assert(old(self)@.dom().contains(a));
                }
                return Err(MemoryError::Overlap { base: r.base });
            }
            i = i + 1;
        }
        let data: Vec<u8> = vec![0u8; size as usize];
        let ghost before = self.regions@;
        self.regions.push(Region { base, data });
        proof {
            let rs = self.regions@;
            let n = before.len() as int;
            assert(forall|j: int| 0 <= j < n ==> rs[j] == before[j]);
            assert(rs[n].wf());
            assert forall|x: int, y: int, a: int|
                0 <= x < rs.len() && 0 <= y < rs.len() && #[trigger] rs[x].holds(a)
                    && #[trigger] rs[y].holds(a) implies x == y by {
                if x < n && y < n {
                    assert(before[x].holds(a) && before[y].holds(a));
                } else if x < n {
                    assert(!before[x].holds(a));
                } else if y < n {
                    assert(!before[y].holds(a));
                }
            }
            assert(regions_wf(rs));
            assert forall|a: int| base <= a < base + size implies !#[trigger] old(self)@.dom().contains(a) by {
                if old(self)@.dom().contains(a) {
                    let j = region_of(before, a);
                    assert(held(before, a));
                    assert(before[j].holds(a));
                }
            }
            let want = with_region(old(self)@, base as int, size as int);
            assert forall|a: int| #[trigger] self@.dom().contains(a) == want.dom().contains(a)
                && (want.dom().contains(a) ==> self@[a] == want[a]) by {
                if base <= a < base + size {
                    assert(rs[n].holds(a));
                    lemma_region(rs, n, a);
                } else {
                    if held(before, a) {
                        let j = region_of(before, a);
                        assert(rs[j].holds(a));
                        lemma_region(rs, j, a);
                        lemma_region(before, j, a);
                    }
                    if held(rs, a) {
                        let j = region_of(rs, a);
                        assert(rs[j].holds(a));
                        assert(j < n);
                        assert(before[j].holds(a));
                    }
                }
            }
            assert(self@ =~= want);
        }
        Ok(())
    }

    /// The region that holds `addr`, and where in it.
    fn find(&self, addr: u64) -> (r: Option<(usize, usize)>)
        requires
            self.wf(),
        ensures
            r is Some <==> self@.dom().contains(addr as int),
            r matches Some((i, at)) ==> i < self.regions@.len() && self.regions@[i as int].holds(
                addr as int,
            ) && at == addr - self.regions@[i as int].base,
    {
        let mut i: usize = 0;
        while i < self.regions.len()
            invariant
                i <= self.regions@.len(),
                self.wf(),
                forall|j: int| 0 <= j < i ==> !(#[trigger] self.regions@[j]).holds(addr as int),
            decreases self.regions@.len() - i,
        {
            let r = &self.regions[i];
            if addr >= r.base && addr - r.base < r.data.len() as u64 {
                proof {
                    lemma_region(self.regions@, i as int, addr as int);
                }
                return Some((i, (addr - r.base) as usize));
            }
            i = i + 1;
        }
        None
    }

    /// The byte at `addr`.
    pub fn read_u8(&self, addr: u64) -> (r: Result<u8, MemoryError>)
        requires
            self.wf(),
        ensures
            r == (if self@.dom().contains(addr as int) {
                Ok::<u8, MemoryError>(self@[addr as int])
            } else {
                Err(MemoryError::Unmapped { addr })
            }),
    {
        match self.find(addr) {
            Some((i, at)) => {
                proof {
                    lemma_region(self.regions@, i as int, addr as int);
                }
                Ok(self.regions[i].data[at])
            },
            None => Err(MemoryError::Unmapped { addr }),
        }
    }

    /// Replace the byte at `addr`.
    pub fn write_u8(&mut self, addr: u64, value: u8) -> (r: Result<(), MemoryError>)
        requires
            old(self).wf(),
        ensures
            final(self).wf(),
            r == (if old(self)@.dom().contains(addr as int) {
                Ok::<(), MemoryError>(())
            } else {
                Err(MemoryError::Unmapped { addr })
            }),
            r is Ok ==> final(self)@ == with_bytes(old(self)@, addr as int, seq![value]),
            r is Err ==> *final(self) == *old(self),
    {
        match self.find(addr) {
            Some((i, at)) => {
                let ghost before = self.regions@;
                let region = &mut self.regions[i];
                region.data.set(at, value);
                proof {
                    let rs = self.regions@;
                    assert(rs =~= before.update(i as int, rs[i as int]));
                    assert(forall|j: int, a: int|
                        0 <= j < rs.len() ==> (#[trigger] rs[j].holds(a)) == before[j].holds(a));
                    assert(regions_wf(rs));
                    let want = with_bytes(old(self)@, addr as int, seq![value]);
                    assert forall|a: int| #[trigger] self@.dom().contains(a) == want.dom().contains(a)
                        && (want.dom().contains(a) ==> self@[a] == want[a]) by {
                        if held(before, a) {
                            let j = region_of(before, a);
                            assert(rs[j].holds(a));
                            lemma_region(rs, j, a);
                            lemma_region(before, j, a);
                            if a == addr {
                                assert(j == i);
                            }
                        }
                        if held(rs, a) {
                            let j = region_of(rs, a);
                            assert(rs[j].holds(a));
                            assert(before[j].holds(a));
                        }
                    }
                    assert(self@ =~= want);
                }
                Ok(())
            },
            None => Err(MemoryError::Unmapped { addr }),
        }
    }

    /// Whether every byte of the `len` bytes at `addr` is mapped.
    pub fn covers(&self, addr: u64, len: usize) -> (b: bool)
        requires
            self.wf(),
        ensures
            b == mapped(self@, addr as int, len as int),
    {
        proof {
            self.lemma_addresses();
        }
        let mut done: usize = 0;
        while done < len
            invariant
                done <= len,
                self.wf(),
                mapped(self@, addr as int, done as int),
                forall|a: int| #[trigger] self@.dom().contains(a) ==> 0 <= a <= u64::MAX,
            decreases len - done,
        {
            let ghost next = addr + done;
            if done as u64 > u64::MAX - addr {
                assert(!self@.dom().contains(next));
                return false;
            }
            match self.find(addr + done as u64) {
                None => {
                    assert(!self@.dom().contains(next));
                    return false;
                },
                Some((i, at)) => {
                    let here: usize = self.regions[i].data.len() - at;
                    let take: usize = if here < len - done {
                        here
                    } else {
                        len - done
                    };
                    proof {
                        assert forall|a: int| next <= a < next + take implies self@.dom().contains(
                            a,
                        ) by {
                            lemma_region(self.regions@, i as int, a);
                        }
                    }
                    done = done + take;
                },
            }
        }
        true
    }

    /// The `len` bytes at `addr`.
    pub fn read_bytes(&self, addr: u64, len: usize) -> (r: Result<Vec<u8>, MemoryError>)
        requires
            self.wf(),
        ensures
            r is Ok <==> mapped(self@, addr as int, len as int),
            r matches Ok(v) ==> v@ == bytes_at(self@, addr as int, len as nat),
            r matches Err(e) ==> e == (MemoryError::Unmapped { addr }),
    {
        if !self.covers(addr, len) {
            return Err(MemoryError::Unmapped { addr });
        }
        proof {
            self.lemma_addresses();
        }
        let mut out: Vec<u8> = Vec::with_capacity(len);
        let mut i: usize = 0;
        while i < len
            invariant
                i <= len,
                self.wf(),
                mapped(self@, addr as int, len as int),
                forall|a: int| #[trigger] self@.dom().contains(a) ==> 0 <= a <= u64::MAX,
                out@ == bytes_at(self@, addr as int, i as nat),
            decreases len - i,
        {
            assert(self@.dom().contains(addr + i));
            match self.read_u8(addr + i as u64) {
                Ok(b) => {
                    out.push(b);
                },
                Err(e) => {
                    return Err(e);
                },
            }
            i = i + 1;
            assert(out@ =~= bytes_at(self@, addr as int, i as nat));
        }
        Ok(out)
    }

    /// Replace the bytes at `addr` by `data`.
    pub fn write_bytes(&mut self, addr: u64, data: &[u8]) -> (r: Result<(), MemoryError>)
        requires
            old(self).wf(),
        ensures
            final(self).wf(),
            r is Ok <==> mapped(old(self)@, addr as int, data@.len() as int),
            r is Ok ==> final(self)@ == with_bytes(old(self)@, addr as int, data@),
            r matches Err(e) ==> e == (MemoryError::Unmapped { addr }) && *final(self) == *old(self),
    {
        if !self.covers(addr, data.len()) {
            return Err(MemoryError::Unmapped { addr });
        }
        proof {
            self.lemma_addresses();
            assert(self@ =~= with_bytes(old(self)@, addr as int, data@.subrange(0, 0)));
        }
        let mut i: usize = 0;
        while i < data.len()
            invariant
                i <= data@.len(),
                self.wf(),
                mapped(old(self)@, addr as int, data@.len() as int),
                forall|a: int| #[trigger] old(self)@.dom().contains(a) ==> 0 <= a <= u64::MAX,
                self@ == with_bytes(old(self)@, addr as int, data@.subrange(0, i as int)),
            decreases data@.len() - i,
        {
            assert(old(self)@.dom().contains(addr + i));
            let ghost before = self@;
            assert(before.dom().contains(addr + i));
            let _ = self.write_u8(addr + i as u64, data[i]);
            i = i + 1;
            proof {
                assert(self@ =~= with_bytes(
                    old(self)@,
                    addr as int,
                    data@.subrange(0, i as int),
                ));
            }
        }
        assert(data@.subrange(0, i as int) =~= data@);
        Ok(())
    }

    /// The little-endian 16-bit number at `addr`.
    pub fn read_u16(&self, addr: u64) -> (r: Result<u16, MemoryError>)
        requires
            self.wf(),
        ensures
            r is Ok <==> mapped(self@, addr as int, 2),
            r matches Ok(v) ==> v == value_at(self@, addr as int, 2),
            r matches Err(e) ==> e == (MemoryError::Unmapped { addr }),
    {
        match self.read_bytes(addr, 2) {
            Ok(b) => {
                proof {
                    crate::bytes::lemma_le_value_bound(b@);
                    crate::bytes::lemma_byte_ranges();
                }
                Ok(le_to_u64(b.as_slice()) as u16)
            },
            Err(e) => Err(e),
        }
    }

    /// The little-endian 32-bit number at `addr`.
    pub fn read_u32(&self, addr: u64) -> (r: Result<u32, MemoryError>)
        requires
            self.wf(),
        ensures
            r is Ok <==> mapped(self@, addr as int, 4),
            r matches Ok(v) ==> v == value_at(self@, addr as int, 4),
            r matches Err(e) ==> e == (MemoryError::Unmapped { addr }),
    {
        match self.read_bytes(addr, 4) {
            Ok(b) => {
                proof {
                    crate::bytes::lemma_le_value_bound(b@);
                    crate::bytes::lemma_byte_ranges();
                }
                Ok(le_to_u64(b.as_slice()) as u32)
            },
            Err(e) => Err(e),
        }
    }

    /// The little-endian 64-bit number at `addr`.
    pub fn read_u64(&self, addr: u64) -> (r: Result<u64, MemoryError>)
        requires
            self.wf(),
        ensures
            r is Ok <==> mapped(self@, addr as int, 8),
            r matches Ok(v) ==> v == value_at(self@, addr as int, 8),
            r matches Err(e) ==> e == (MemoryError::Unmapped { addr }),
    {
        match self.read_bytes(addr, 8) {
            Ok(b) => Ok(le_to_u64(b.as_slice())),
            Err(e) => Err(e),
        }
    }

    /// Replace the 16-bit number at `addr`.
    pub fn write_u16(&mut self, addr: u64, value: u16) -> (r: Result<(), MemoryError>)
        requires
            old(self).wf(),
        ensures
            final(self).wf(),
            r is Ok <==> mapped(old(self)@, addr as int, 2),
            r is Ok ==> final(self)@ == with_value(old(self)@, addr as int, value as nat, 2),
            r matches Err(e) ==> e == (MemoryError::Unmapped { addr }) && *final(self) == *old(self),
    {
        let b = u64_to_le(value as u64, 2);
        proof {
            crate::bytes::lemma_le_bytes_len(value as nat, 2);
        }
        self.write_bytes(addr, b.as_slice())
    }

    /// Replace the 32-bit number at `addr`.
    pub fn write_u32(&mut self, addr: u64, value: u32) -> (r: Result<(), MemoryError>)
        requires
            old(self).wf(),
        ensures
            final(self).wf(),
            r is Ok <==> mapped(old(self)@, addr as int, 4),
            r is Ok ==> final(self)@ == with_value(old(self)@, addr as int, value as nat, 4),
            r matches Err(e) ==> e == (MemoryError::Unmapped { addr }) && *final(self) == *old(self),
    {
        let b = u64_to_le(value as u64, 4);
        proof {
            crate::bytes::lemma_le_bytes_len(value as nat, 4);
        }
        self.write_bytes(addr, b.as_slice())
    }

    /// Replace the 64-bit number at `addr`.
    pub fn write_u64(&mut self, addr: u64, value: u64) -> (r: Result<(), MemoryError>)
        requires
            old(self).wf(),
        ensures
            final(self).wf(),
            r is Ok <==> mapped(old(self)@, addr as int, 8),
            r is Ok ==> final(self)@ == with_value(old(self)@, addr as int, value as nat, 8),
            r matches Err(e) ==> e == (MemoryError::Unmapped { addr }) && *final(self) == *old(self),
    {
        let b = u64_to_le(value, 8);
        proof {
            crate::bytes::lemma_le_bytes_len(value as nat, 8);
        }
        self.write_bytes(addr, b.as_slice())
    }
}

/// A write changes nothing about which bytes are mapped.
pub proof fn lemma_write_keeps_mapped(m: Map<int, u8>, addr: int, data: Seq<u8>)
    ensures
        with_bytes(m, addr, data).dom() == m.dom(),
        forall|at: int, len: int| #[trigger]
            mapped(with_bytes(m, addr, data), at, len) == mapped(m, at, len),
{
    let n = with_bytes(m, addr, data);
    assert(n.dom() =~= m.dom());
    assert forall|at: int, len: int| #[trigger] mapped(n, at, len) == mapped(m, at, len) by {
        if mapped(n, at, len) {
            assert forall|a: int| at <= a < at + len implies #[trigger] m.dom().contains(a) by {
                assert(n.dom().contains(a));
            }
        }
    }
}

/// Bytes read where bytes were written are the bytes written.
pub proof fn law_read_after_write(m: Map<int, u8>, addr: int, data: Seq<u8>)
    requires
        mapped(m, addr, data.len() as int),
    ensures
        bytes_at(with_bytes(m, addr, data), addr, data.len()) == data,
{
    let got = bytes_at(with_bytes(m, addr, data), addr, data.len());
    assert forall|i: int| 0 <= i < data.len() implies got[i] == data[i] by {
        assert(m.dom().contains(addr + i));
    }
    assert(got =~= data);
}

/// A number read where it was written is the number written.
pub proof fn law_value_after_write(m: Map<int, u8>, addr: int, v: nat, len: nat)
    requires
        mapped(m, addr, len as int),
        v < crate::bytes::byte_range(len),
    ensures
        value_at(with_value(m, addr, v, len), addr, len) == v,
{
    crate::bytes::law_le_round_trip(v, len);
    law_read_after_write(m, addr, crate::bytes::le_bytes(v, len));
}

/// A write leaves every byte outside it, and which bytes are mapped, as they were.
pub proof fn law_write_is_local(m: Map<int, u8>, addr: int, data: Seq<u8>, at: int, len: nat)
    requires
        mapped(m, at, len as int),
        at + len <= addr || addr + data.len() <= at,
    ensures
        with_bytes(m, addr, data).dom() == m.dom(),
        bytes_at(with_bytes(m, addr, data), at, len) == bytes_at(m, at, len),
        value_at(with_bytes(m, addr, data), at, len) == value_at(m, at, len),
{
    let n = with_bytes(m, addr, data);
    assert(n.dom() =~= m.dom());
    assert forall|i: int| 0 <= i < len implies #[trigger] bytes_at(n, at, len)[i] == bytes_at(
        m,
        at,
        len,
    )[i] by {
        assert(m.dom().contains(at + i));
    }
    assert(bytes_at(n, at, len) =~= bytes_at(m, at, len));
}

/// A number in memory is spelled by its bytes in the order of their addresses, the lowest place
/// first.
pub proof fn law_numbers_are_little_endian(m: Map<int, u8>, a: int)
    ensures
        value_at(m, a, 2) == m[a] + 0x100 * m[a + 1],
        value_at(m, a, 4) == m[a] + 0x100 * m[a + 1] + 0x1_0000 * m[a + 2] + 0x100_0000 * m[a + 3],
        value_at(m, a, 8) == m[a] + 0x100 * m[a + 1] + 0x1_0000 * m[a + 2] + 0x100_0000 * m[a + 3]
            + 0x1_0000_0000 * m[a + 4] + 0x100_0000_0000 * m[a + 5] + 0x1_0000_0000_0000 * m[a + 6]
            + 0x100_0000_0000_0000 * m[a + 7],
{
    crate::bytes::law_bytes_count_by_place(bytes_at(m, a, 2));
    crate::bytes::law_bytes_count_by_place(bytes_at(m, a, 4));
    crate::bytes::law_bytes_count_by_place(bytes_at(m, a, 8));
}

/// Writing bytes puts each one at its address and leaves every other address as it was; it maps
/// and unmaps nothing.
pub proof fn law_writes_put_each_byte_at_its_address(m: Map<int, u8>, at: int, data: Seq<u8>, a: int)
    ensures
        with_bytes(m, at, data).dom().contains(a) == m.dom().contains(a),
        m.dom().contains(a) && at <= a < at + data.len() ==> with_bytes(m, at, data)[a] == data[a
            - at],
        m.dom().contains(a) && !(at <= a < at + data.len()) ==> with_bytes(m, at, data)[a] == m[a],
{
}

/// Writing a number puts its lowest place at the first address, and so on up.
pub proof fn law_numbers_are_written_little_endian(m: Map<int, u8>, a: int, v: nat)
    requires
        mapped(m, a, 8),
    ensures
        ({
            let n = with_value(m, a, v, 2);
            n[a] == v % 256 && n[a + 1] == v / 0x100 % 256 && n[a + 2] == m[a + 2]
        }),
        ({
            let n = with_value(m, a, v, 4);
            &&& n[a] == v % 256 && n[a + 1] == v / 0x100 % 256
            &&& n[a + 2] == v / 0x1_0000 % 256 && n[a + 3] == v / 0x100_0000 % 256
            &&& n[a + 4] == m[a + 4]
        }),
        ({
            let n = with_value(m, a, v, 8);
            &&& n[a] == v % 256 && n[a + 1] == v / 0x100 % 256
            &&& n[a + 2] == v / 0x1_0000 % 256 && n[a + 3] == v / 0x100_0000 % 256
            &&& n[a + 4] == v / 0x1_0000_0000 % 256 && n[a + 5] == v / 0x100_0000_0000 % 256
            &&& n[a + 6] == v / 0x1_0000_0000_0000 % 256
            &&& n[a + 7] == v / 0x100_0000_0000_0000 % 256
        }),
{
    crate::bytes::law_numbers_split_by_place(v);
    assert forall|i: int| 0 <= i < 8 implies #[trigger] m.dom().contains(a + i) by {}
    assert(m.dom().contains(a + 0) && m.dom().contains(a + 1) && m.dom().contains(a + 2)
        && m.dom().contains(a + 3) && m.dom().contains(a + 4) && m.dom().contains(a + 5)
        && m.dom().contains(a + 6) && m.dom().contains(a + 7));
}

/// A range is mapped exactly when each of its addresses is. A new region maps its addresses, with
/// zeros, and no other.
pub proof fn law_regions_map_their_addresses(m: Map<int, u8>, base: int, len: int, a: int)
    ensures
        mapped(m, base, len) <==> forall|i: int| 0 <= i < len ==> m.dom().contains(
            #[trigger] (base + i),
        ),
        with_region(m, base, len).dom().contains(a) <==> m.dom().contains(a) || base <= a < base
            + len,
        base <= a < base + len ==> with_region(m, base, len)[a] == 0,
        m.dom().contains(a) && !(base <= a < base + len) ==> with_region(m, base, len)[a] == m[a],
{
    if forall|i: int| 0 <= i < len ==> m.dom().contains(#[trigger] (base + i)) {
        assert forall|x: int| base <= x < base + len implies #[trigger] m.dom().contains(x) by {
            assert(m.dom().contains(base + (x - base)));
        }
    }
}

/// Reads bring what is at their addresses, the lowest byte first, and are refused exactly where an
/// address is not mapped.
pub proof fn law_reads_bring_what_is_there(
    m: &GuestMemory,
    addr: u64,
    len: usize,
    a: Result<u8, MemoryError>,
    b: Result<u16, MemoryError>,
    c: Result<u32, MemoryError>,
    d: Result<u64, MemoryError>,
    e: Result<Vec<u8>, MemoryError>,
    f: bool,
)
    requires
        call_ensures(GuestMemory::read_u8, (m, addr), a),
        call_ensures(GuestMemory::read_u16, (m, addr), b),
        call_ensures(GuestMemory::read_u32, (m, addr), c),
        call_ensures(GuestMemory::read_u64, (m, addr), d),
        call_ensures(GuestMemory::read_bytes, (m, addr, len), e),
        call_ensures(GuestMemory::covers, (m, addr, len), f),
    ensures
        ({
            let at = addr as int;
            let x = m@;
            let low = x[at] + 0x100 * x[at + 1] + 0x1_0000 * x[at + 2] + 0x100_0000 * x[at + 3];
            let high = x[at + 4] + 0x100 * x[at + 5] + 0x1_0000 * x[at + 6] + 0x100_0000 * x[at
                + 7];
            &&& a is Ok <==> all_there(x, at, 1)
            &&& b is Ok <==> all_there(x, at, 2)
            &&& c is Ok <==> all_there(x, at, 4)
            &&& d is Ok <==> all_there(x, at, 8)
            &&& e is Ok <==> all_there(x, at, len as int)
            &&& f <==> all_there(x, at, len as int)
            &&& a is Ok ==> a->Ok_0 == x[at]
            &&& b is Ok ==> b->Ok_0 == x[at] + 0x100 * x[at + 1]
            &&& c is Ok ==> c->Ok_0 == low
            &&& d is Ok ==> d->Ok_0 == low + 0x1_0000_0000 * high
            &&& e is Ok ==> e->Ok_0@.len() == len && forall|i: int|
                0 <= i < len ==> #[trigger] e->Ok_0@[i] == x[at + i]
            &&& a is Err ==> a->Err_0 == (MemoryError::Unmapped { addr })
            &&& b is Err ==> b->Err_0 == (MemoryError::Unmapped { addr })
            &&& c is Err ==> c->Err_0 == (MemoryError::Unmapped { addr })
            &&& d is Err ==> d->Err_0 == (MemoryError::Unmapped { addr })
            &&& e is Err ==> e->Err_0 == (MemoryError::Unmapped { addr })
        }),
{
    let at = addr as int;
    law_numbers_are_little_endian(m@, at);
    law_regions_map_their_addresses(m@, at, 1, at);
    law_regions_map_their_addresses(m@, at, 2, at);
    law_regions_map_their_addresses(m@, at, 4, at);
    law_regions_map_their_addresses(m@, at, 8, at);
    law_regions_map_their_addresses(m@, at, len as int, at);
    if all_there(m@, at, 1) {
        assert(m@.dom().contains(at + 0));
    }
}

/// The `n` addresses from `at` on are mapped.
pub open spec fn all_there(m: Map<int, u8>, at: int, n: int) -> bool {
    forall|i: int| 0 <= i < n ==> m.dom().contains(#[trigger] (at + i))
}

/// A write that is not refused puts its bytes at their addresses, the lowest place of a number
/// first, and changes no other; one that is refused, because an address is not mapped, changes
/// nothing.
pub proof fn law_writes_change_just_their_bytes(
    m: &mut GuestMemory,
    n: &mut GuestMemory,
    o: &mut GuestMemory,
    p: &mut GuestMemory,
    q: &mut GuestMemory,
    addr: u64,
    v: (u8, u16, u32, u64),
    data: &[u8],
    r: (Result<(), MemoryError>, Result<(), MemoryError>, Result<(), MemoryError>),
    s: (Result<(), MemoryError>, Result<(), MemoryError>),
    a: int,
)
    requires
        call_ensures(GuestMemory::write_u8, (m, addr, v.0), r.0),
        call_ensures(GuestMemory::write_u16, (n, addr, v.1), r.1),
        call_ensures(GuestMemory::write_u32, (o, addr, v.2), r.2),
        call_ensures(GuestMemory::write_u64, (p, addr, v.3), s.0),
        call_ensures(GuestMemory::write_bytes, (q, addr, data), s.1),
    ensures
        wrote(old(m)@, final(m)@, addr as int, seq![v.0], r.0 is Ok, a),
        wrote(old(n)@, final(n)@, addr as int, places(v.1 as nat, 2), r.1 is Ok, a),
        wrote(old(o)@, final(o)@, addr as int, places(v.2 as nat, 4), r.2 is Ok, a),
        wrote(old(p)@, final(p)@, addr as int, places(v.3 as nat, 8), s.0 is Ok, a),
        wrote(old(q)@, final(q)@, addr as int, data@, s.1 is Ok, a),
{
    let at = addr as int;
    lemma_places(v.1 as nat);
    lemma_places(v.2 as nat);
    lemma_places(v.3 as nat);
    law_regions_map_their_addresses(old(m)@, at, 1, at);
    law_regions_map_their_addresses(old(n)@, at, 2, at);
    law_regions_map_their_addresses(old(o)@, at, 4, at);
    law_regions_map_their_addresses(old(p)@, at, 8, at);
    law_regions_map_their_addresses(old(q)@, at, data@.len() as int, at);
    if all_there(old(m)@, at, 1) {
        assert(old(m)@.dom().contains(at + 0));
    }
}

/// The lowest `n` places of `v`, two, four, or eight, as bytes.
pub open spec fn places(v: nat, n: nat) -> Seq<u8> {
    seq![
        (v % 256) as u8,
        (v / 0x100 % 256) as u8,
        (v / 0x1_0000 % 256) as u8,
        (v / 0x100_0000 % 256) as u8,
        (v / 0x1_0000_0000 % 256) as u8,
        (v / 0x100_0000_0000 % 256) as u8,
        (v / 0x1_0000_0000_0000 % 256) as u8,
        (v / 0x100_0000_0000_0000 % 256) as u8,
    ].take(n as int)
}

proof fn lemma_places(v: nat)
    ensures
        crate::bytes::le_bytes(v, 2) == places(v, 2) && places(v, 2).len() == 2,
        crate::bytes::le_bytes(v, 4) == places(v, 4) && places(v, 4).len() == 4,
        crate::bytes::le_bytes(v, 8) == places(v, 8) && places(v, 8).len() == 8,
{
    crate::bytes::law_numbers_split_by_place(v);
    assert(crate::bytes::le_bytes(v, 2) =~= places(v, 2));
    assert(crate::bytes::le_bytes(v, 4) =~= places(v, 4));
    assert(crate::bytes::le_bytes(v, 8) =~= places(v, 8));
}

/// At address `a`, memory became `after` by writing `data` at `at`, where `done`, and it is done
/// exactly where all is mapped.
pub open spec fn wrote(
    before: Map<int, u8>,
    after: Map<int, u8>,
    at: int,
    data: Seq<u8>,
    done: bool,
    a: int,
) -> bool {
    &&& done <==> all_there(before, at, data.len() as int)
    &&& after.dom().contains(a) == before.dom().contains(a)
    &&& done && at <= a < at + data.len() ==> after[a] == data[a - at]
    &&& before.dom().contains(a) && (!done || !(at <= a < at + data.len())) ==> after[a]
        == before[a]
}

/// A region is added exactly when it has bytes, fits the address space, and shares none with
/// another; its bytes are zero. New memory has none mapped.
pub proof fn law_regions_are_added_where_there_is_room(
    n: GuestMemory,
    m: &mut GuestMemory,
    base: u64,
    size: u64,
    r: Result<(), MemoryError>,
    a: int,
)
    requires
        call_ensures(GuestMemory::new, (), n),
        call_ensures(GuestMemory::add_region, (m, base, size), r),
    ensures
        !n@.dom().contains(a),
        r is Ok <==> 0 < size <= usize::MAX && base + size <= 0x1_0000_0000_0000_0000 && forall|
            x: int,
        |
            base <= x < base + size ==> !#[trigger] old(m)@.dom().contains(x),
        size == 0 ==> r == Err::<(), MemoryError>(MemoryError::EmptyRegion),
        r is Ok ==> (final(m)@.dom().contains(a) <==> old(m)@.dom().contains(a) || base <= a < base
            + size),
        r is Ok && base <= a < base + size ==> final(m)@[a] == 0,
        old(m)@.dom().contains(a) ==> final(m)@.dom().contains(a) && final(m)@[a] == old(m)@[a],
{
}

} // verus!
