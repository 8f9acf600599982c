//! A value model of the virtual address space collaborator: page-granular
//! mapping state and byte contents, enough for the lifecycle and signal code
//! that reads and writes user memory through it.
//!
//! The model keeps contents keyed by address and gates access by the mapping
//! state alone; page-table encoding and fault resolution stay with the real
//! collaborator.

use std::collections::HashMap;
use vstd::prelude::*;
use crate::align::lemma_page_div_ordered;
use crate::errors::KernelError;

verus! {

broadcast use vstd::std_specs::hash::group_hash_axioms;

/// The page may be read.
pub const MF_READ: u32 = 1;

/// The page may be written.
pub const MF_WRITE: u32 = 2;

/// The page may be executed.
pub const MF_EXECUTE: u32 = 4;

/// The page is reachable from user mode.
pub const MF_USER: u32 = 8;

/// Protection flags of a mapped range.
#[derive(Clone, Copy, Debug, PartialEq, Eq, Structural)]
pub struct MappingFlags {
    pub bits: u32,
}

impl MappingFlags {
    /// True when every bit of `m` is set.
    pub open spec fn has(self, m: u32) -> bool {
        self.bits & m == m
    }

    /// The flag set with exactly the bits of `bits`.
    pub fn from_bits(bits: u32) -> (r: MappingFlags)
        ensures
            r.bits == bits,
    {
        MappingFlags { bits }
    }

    /// All four protection bits.
    pub fn all() -> (r: MappingFlags)
        ensures
            r.bits == MF_READ | MF_WRITE | MF_EXECUTE | MF_USER,
    {
        MappingFlags { bits: MF_READ | MF_WRITE | MF_EXECUTE | MF_USER }
    }

    /// Whether every bit of `m` is set.
    pub fn contains(&self, m: u32) -> (r: bool)
        ensures
            r == self.has(m),
    {
        self.bits & m == m
    }
}

/// The page index holding `addr`.
pub open spec fn spec_page_idx(addr: usize) -> usize {
    addr / 4096
}

/// `m` with pages `p0 .. p0 + n` mapped at `bits`.
pub open spec fn spec_map_pages(m: Map<usize, u32>, p0: usize, n: usize, bits: u32) -> Map<
    usize,
    u32,
>
    recommends
        p0 + n <= usize::MAX,
    decreases n,
{
    if n == 0 {
        m
    } else {
        spec_map_pages(m, p0, (n - 1) as usize, bits).insert((p0 + (n - 1)) as usize, bits)
    }
}

/// `m` with pages `p0 .. p0 + n` removed.
pub open spec fn spec_unmap_pages(m: Map<usize, u32>, p0: usize, n: usize) -> Map<usize, u32>
    recommends
        p0 + n <= usize::MAX,
    decreases n,
{
    if n == 0 {
        m
    } else {
        spec_unmap_pages(m, p0, (n - 1) as usize).remove((p0 + (n - 1)) as usize)
    }
}

/// `m` with `data` written byte by byte from `addr`.
pub open spec fn spec_write_bytes(m: Map<usize, u8>, addr: usize, data: Seq<u8>) -> Map<usize, u8>
    recommends
        addr + data.len() <= usize::MAX,
    decreases data.len(),
{
    if data.len() == 0 {
        m
    } else {
        spec_write_bytes(m, addr, data.drop_last()).insert(
            (addr + data.len() - 1) as usize,
            data.last(),
        )
    }
}

/// One user address space: which pages are mapped with which protection,
/// and what has been written where.
#[derive(Debug)]
pub struct AddrSpace {
    pages: HashMap<usize, u32>,
    bytes: HashMap<usize, u8>,
}

impl AddrSpace {
    /// Mapping state: page index to protection bits.
    pub closed spec fn pages_map(self) -> Map<usize, u32> {
        self.pages@
    }

    /// Contents: address to the byte last written there.
    pub closed spec fn bytes_map(self) -> Map<usize, u8> {
        self.bytes@
    }

    /// Whether the page holding `addr` is mapped.
    pub open spec fn is_mapped(self, addr: usize) -> bool {
        self.pages_map().contains_key(spec_page_idx(addr))
    }

    /// The byte visible at `addr`: the last write, or zero on fresh memory.
    pub open spec fn spec_byte(self, addr: usize) -> u8 {
        if self.bytes_map().contains_key(addr) {
            self.bytes_map()[addr]
        } else {
            0
        }
    }

    /// Whether an access with the bits of `access` at `addr` is permitted.
    pub open spec fn spec_can_access(self, addr: usize, access: u32) -> bool {
        &&& self.is_mapped(addr)
        &&& self.pages_map()[spec_page_idx(addr)] & access == access
    }

    /// The empty address space.
    pub fn new() -> (r: AddrSpace)
        ensures
            r.pages_map() == Map::<usize, u32>::empty(),
            r.bytes_map() == Map::<usize, u8>::empty(),
    {
        AddrSpace { pages: HashMap::new(), bytes: HashMap::new() }
    }

    /// A deep copy, as the clone operation without shared memory asks the
    /// collaborator for.
    pub fn duplicate(&self) -> (r: AddrSpace)
        ensures
            r.pages_map() == self.pages_map(),
            r.bytes_map() == self.bytes_map(),
    {
        AddrSpace { pages: self.pages.clone(), bytes: self.bytes.clone() }
    }

    /// Maps the page-aligned range `start .. start + size` with `flags`.
    /// Fails exactly on an unaligned or wrapping range; contents are kept.
    pub fn map_alloc(&mut self, start: usize, size: usize, flags: MappingFlags) -> (r: Result<
        (),
        KernelError,
    >)
        ensures
            final(self).bytes_map() == old(self).bytes_map(),
            match r {
                Ok(()) => {
                    &&& start % 4096 == 0
                    &&& size % 4096 == 0
                    &&& start + size <= usize::MAX
                    &&& final(self).pages_map() == spec_map_pages(
                        old(self).pages_map(),
                        start / 4096,
                        size / 4096,
                        flags.bits,
                    )
                },
                Err(e) => {
                    &&& e == KernelError::InvalidArgument
                    &&& !(start % 4096 == 0 && size % 4096 == 0 && start + size <= usize::MAX)
                    &&& final(self).pages_map() == old(self).pages_map()
                },
            },
    {
        if start % 4096 != 0 || size % 4096 != 0 || size > usize::MAX - start {
            return Err(KernelError::InvalidArgument);
        }
        let p0 = start / 4096;
        let n = size / 4096;
        proof {
            lemma_page_div_ordered(start as int, usize::MAX as int);
            lemma_page_div_ordered(size as int, usize::MAX as int);
        }
        let mut i: usize = 0;
        while i < n
            invariant
                i <= n,
                p0 + n <= usize::MAX,
                self.pages@ == spec_map_pages(old(self).pages@, p0, i, flags.bits),
                self.bytes@ == old(self).bytes@,
            decreases n - i,
        {
            self.pages.insert(p0 + i, flags.bits);
            i += 1;
        }
        Ok(())
    }

    /// Unmaps the page-aligned range `start .. start + size`. Fails exactly
    /// on an unaligned or wrapping range.
    pub fn unmap(&mut self, start: usize, size: usize) -> (r: Result<(), KernelError>)
        ensures
            final(self).bytes_map() == old(self).bytes_map(),
            match r {
                Ok(()) => {
                    &&& start % 4096 == 0
                    &&& size % 4096 == 0
                    &&& start + size <= usize::MAX
                    &&& final(self).pages_map() == spec_unmap_pages(
                        old(self).pages_map(),
                        start / 4096,
                        size / 4096,
                    )
                },
                Err(e) => {
                    &&& e == KernelError::InvalidArgument
                    &&& !(start % 4096 == 0 && size % 4096 == 0 && start + size <= usize::MAX)
                    &&& final(self).pages_map() == old(self).pages_map()
                },
            },
    {
        if start % 4096 != 0 || size % 4096 != 0 || size > usize::MAX - start {
            return Err(KernelError::InvalidArgument);
        }
        let p0 = start / 4096;
        let n = size / 4096;
        proof {
            lemma_page_div_ordered(start as int, usize::MAX as int);
            lemma_page_div_ordered(size as int, usize::MAX as int);
        }
        let mut i: usize = 0;
        while i < n
            invariant
                i <= n,
                p0 + n <= usize::MAX,
                self.pages@ == spec_unmap_pages(old(self).pages@, p0, i),
                self.bytes@ == old(self).bytes@,
            decreases n - i,
        {
            self.pages.remove(&(p0 + i));
            i += 1;
        }
        Ok(())
    }

    /// Whether a fault at `addr` with the access bits of `access` can be
    /// resolved: the page is mapped and permits the access.
    pub fn handle_page_fault(&self, addr: usize, access: MappingFlags) -> (r: bool)
        ensures
            r == self.spec_can_access(addr, access.bits),
    {
        let idx = addr / 4096;
        match self.pages.get(&idx) {
            Some(bits) => *bits & access.bits == access.bits,
            None => false,
        }
    }

    /// Writes `data` from `addr` on. Succeeds exactly when the range does
    /// not wrap and every byte's page is mapped; nothing is written on
    /// failure.
    pub fn write_bytes(&mut self, addr: usize, data: &Vec<u8>) -> (r: Result<(), KernelError>)
        ensures
            final(self).pages_map() == old(self).pages_map(),
            match r {
                Ok(()) => {
                    &&& addr + data@.len() <= usize::MAX
                    &&& forall|k: int| 0 <= k < data@.len() ==> #[trigger] old(self).is_mapped((addr + k) as usize)
                    &&& final(self).bytes_map() == spec_write_bytes(
                        old(self).bytes_map(),
                        addr,
                        data@,
                    )
                },
                Err(e) => {
                    &&& e == KernelError::InvalidArgument
                    &&& !(addr + data@.len() <= usize::MAX && (forall|k: int|
                        0 <= k < data@.len() ==> #[trigger] old(self).is_mapped((addr + k) as usize)))
                    &&& final(self).bytes_map() == old(self).bytes_map()
                },
            },
    {
        let len = data.len();
        if len > usize::MAX - addr {
            return Err(KernelError::InvalidArgument);
        }
        let mut i: usize = 0;
        while i < len
            invariant
                i <= len,
                addr + len <= usize::MAX,
                len == data@.len(),
                forall|k: int| 0 <= k < i ==> #[trigger] self.is_mapped((addr + k) as usize),
                self.pages@ == old(self).pages@,
                self.bytes@ == old(self).bytes@,
            decreases len - i,
        {
            if !self.pages.contains_key(&((addr + i) / 4096)) {
                proof {
                    assert(!old(self).is_mapped((addr + i as int) as usize));
                }
                return Err(KernelError::InvalidArgument);
            }
            i += 1;
        }
        let mut j: usize = 0;
        while j < len
            invariant
                j <= len,
                addr + len <= usize::MAX,
                len == data@.len(),
                self.pages@ == old(self).pages@,
                self.bytes@ == spec_write_bytes(old(self).bytes@, addr, data@.subrange(0, j as int)),
            decreases len - j,
        {
            proof {
                assert(data@.subrange(0, j as int + 1).drop_last() =~= data@.subrange(
                    0,
                    j as int,
                ));
            }
            self.bytes.insert(addr + j, data[j]);
            j += 1;
        }
        proof {
            assert(data@.subrange(0, len as int) =~= data@);
        }
        Ok(())
    }

    /// Reads `len` bytes from `addr` on. Succeeds exactly when the range
    /// does not wrap and every byte's page is mapped; unwritten bytes of
    /// mapped pages read as zero.
    pub fn read_bytes(&self, addr: usize, len: usize) -> (r: Option<Vec<u8>>)
        ensures
            match r {
                Some(v) => {
                    &&& addr + len <= usize::MAX
                    &&& forall|k: int| 0 <= k < len ==> #[trigger] self.is_mapped((addr + k) as usize)
                    &&& v@.len() == len
                    &&& forall|k: int| 0 <= k < len ==> v@[k] == #[trigger] self.spec_byte((addr + k) as usize)
                },
                None => !(addr + len <= usize::MAX && (forall|k: int|
                    0 <= k < len ==> #[trigger] self.is_mapped((addr + k) as usize))),
            },
    {
        if len > usize::MAX - addr {
            return None;
        }
        let mut out: Vec<u8> = Vec::new();
        let mut i: usize = 0;
        while i < len
            invariant
                i <= len,
                addr + len <= usize::MAX,
                out@.len() == i,
                forall|k: int| 0 <= k < i ==> #[trigger] self.is_mapped((addr + k) as usize),
                forall|k: int| 0 <= k < i ==> out@[k] == #[trigger] self.spec_byte((addr + k) as usize),
            decreases len - i,
        {
            let a = addr + i;
            if !self.pages.contains_key(&(a / 4096)) {
                proof {
                    assert(!self.is_mapped((addr + i as int) as usize));
                }
                return None;
            }
            match self.bytes.get(&a) {
                Some(b) => out.push(*b),
                None => out.push(0),
            }
            i += 1;
        }
        Some(out)
    }

    /// Reads the single byte at `addr`.
    pub fn read_byte(&self, addr: usize) -> (r: Option<u8>)
        ensures
            match r {
                Some(b) => self.is_mapped(addr) && b == self.spec_byte(addr),
                None => !self.is_mapped(addr),
            },
    {
        if !self.pages.contains_key(&(addr / 4096)) {
            return None;
        }
        match self.bytes.get(&addr) {
            Some(b) => Some(*b),
            None => Some(0),
        }
    }

    /// Drops every mapping and all contents, as exec does before loading a
    /// fresh image.
    pub fn clear(&mut self)
        ensures
            final(self).pages_map() == Map::<usize, u32>::empty(),
            final(self).bytes_map() == Map::<usize, u8>::empty(),
    {
        self.pages.clear();
        self.bytes.clear();
    }
}


/// Which pages a `spec_map_pages` result maps, and at what bits.
pub proof fn lemma_map_pages_contains(m: Map<usize, u32>, p0: usize, n: usize, bits: u32, p: usize)
    requires
        p0 + n <= usize::MAX,
    ensures
        spec_map_pages(m, p0, n, bits).contains_key(p) <==> (m.contains_key(p) || (p0 <= p < p0
            + n)),
        (p0 <= p < p0 + n) ==> spec_map_pages(m, p0, n, bits)[p] == bits,
        (!(p0 <= p < p0 + n) && m.contains_key(p)) ==> spec_map_pages(m, p0, n, bits)[p] == m[p],
    decreases n,
{
    if n > 0 {
        lemma_map_pages_contains(m, p0, (n - 1) as usize, bits, p);
    }
}

/// Which pages a `spec_unmap_pages` result still maps.
pub proof fn lemma_unmap_pages_contains(m: Map<usize, u32>, p0: usize, n: usize, p: usize)
    requires
        p0 + n <= usize::MAX,
    ensures
        spec_unmap_pages(m, p0, n).contains_key(p) <==> (m.contains_key(p) && !(p0 <= p < p0 + n)),
        spec_unmap_pages(m, p0, n).contains_key(p) ==> spec_unmap_pages(m, p0, n)[p] == m[p],
    decreases n,
{
    if n > 0 {
        lemma_unmap_pages_contains(m, p0, (n - 1) as usize, p);
    }
}

/// What each address holds after a `spec_write_bytes`.
pub proof fn lemma_write_bytes_byte(m: Map<usize, u8>, addr: usize, data: Seq<u8>, a: usize)
    requires
        addr + data.len() <= usize::MAX,
    ensures
        spec_write_bytes(m, addr, data).contains_key(a) <==> (m.contains_key(a) || (addr <= a
            < addr + data.len())),
        (addr <= a < addr + data.len()) ==> spec_write_bytes(m, addr, data)[a] == data[a - addr],
        (!(addr <= a < addr + data.len()) && m.contains_key(a)) ==> spec_write_bytes(
            m,
            addr,
            data,
        )[a] == m[a],
    decreases data.len(),
{
    if data.len() > 0 {
        lemma_write_bytes_byte(m, addr, data.drop_last(), a);
    }
}

} // verus!
