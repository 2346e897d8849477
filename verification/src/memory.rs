//! Linear memory of a contract: bounds-checked byte access, little-endian
//! integers, growth by pages with gas charged for the expansion.

use vstd::prelude::*;
use crate::error::ContractError;
use crate::gas::{expansion_cost, memory_cost_fits, saturate, words, Gas, GasMeter};

verus! {

/// Maximum memory size in bytes (16MB).
pub const MAX_MEMORY_SIZE: usize = 16 * 1024 * 1024;

/// Page size (64KB, as in WebAssembly).
pub const PAGE_SIZE: usize = 64 * 1024;

/// `n` zero bytes.
pub open spec fn zeros(n: nat) -> Seq<u8> {
    Seq::new(n, |i: int| 0u8)
}

/// `mem` with the bytes from `offset` on replaced by `data`.
pub open spec fn splice(mem: Seq<u8>, offset: int, data: Seq<u8>) -> Seq<u8> {
    mem.subrange(0, offset) + data + mem.subrange(offset + data.len(), mem.len() as int)
}

/// Whether `[offset, offset + size)` lies inside a memory of `len` bytes.
pub open spec fn in_bounds(offset: int, size: int, len: int) -> bool {
    offset + size <= len
}

/// The little-endian bytes of a 32-bit value.
pub open spec fn le_bytes_u32(v: u32) -> Seq<u8> {
    seq![v as u8, (v >> 8u32) as u8, (v >> 16u32) as u8, (v >> 24u32) as u8]
}

/// The 32-bit value of four little-endian bytes.
pub open spec fn le_value_u32(b0: u8, b1: u8, b2: u8, b3: u8) -> u32 {
    (b0 as u32) | ((b1 as u32) << 8u32) | ((b2 as u32) << 16u32) | ((b3 as u32) << 24u32)
}

/// The little-endian bytes of a 64-bit value.
pub open spec fn le_bytes_u64(v: u64) -> Seq<u8> {
    seq![
        v as u8, (v >> 8u64) as u8, (v >> 16u64) as u8, (v >> 24u64) as u8,
        (v >> 32u64) as u8, (v >> 40u64) as u8, (v >> 48u64) as u8, (v >> 56u64) as u8,
    ]
}

/// The 64-bit value of eight little-endian bytes.
pub open spec fn le_value_u64(b: Seq<u8>) -> u64 {
    (b[0] as u64) | ((b[1] as u64) << 8u64) | ((b[2] as u64) << 16u64) | ((b[3] as u64) << 24u64)
        | ((b[4] as u64) << 32u64) | ((b[5] as u64) << 40u64) | ((b[6] as u64) << 48u64) | ((b[7] as u64) << 56u64)
}

/// Reading back the little-endian bytes of a 32-bit value gives the value.
pub proof fn lemma_le_u32_roundtrip(v: u32)
    ensures
        le_value_u32(le_bytes_u32(v)[0], le_bytes_u32(v)[1], le_bytes_u32(v)[2], le_bytes_u32(v)[3]) == v,
{
    let b0 = v as u8;
    let b1 = (v >> 8u32) as u8;
    let b2 = (v >> 16u32) as u8;
    let b3 = (v >> 24u32) as u8;
    assert((b0 as u32) | ((b1 as u32) << 8u32) | ((b2 as u32) << 16u32) | ((b3 as u32) << 24u32) == v) by (bit_vector)
        requires
            b0 == v as u8,
            b1 == (v >> 8u32) as u8,
            b2 == (v >> 16u32) as u8,
            b3 == (v >> 24u32) as u8,
    ;
}

/// Reading back the little-endian bytes of a 64-bit value gives the value.
pub proof fn lemma_le_u64_roundtrip(v: u64)
    ensures
        le_value_u64(le_bytes_u64(v)) == v,
{
    let b = le_bytes_u64(v);
    let b0 = v as u8;
    let b1 = (v >> 8u64) as u8;
    let b2 = (v >> 16u64) as u8;
    let b3 = (v >> 24u64) as u8;
    let b4 = (v >> 32u64) as u8;
    let b5 = (v >> 40u64) as u8;
    let b6 = (v >> 48u64) as u8;
    let b7 = (v >> 56u64) as u8;
    assert(b[0] == b0 && b[1] == b1 && b[2] == b2 && b[3] == b3 && b[4] == b4 && b[5] == b5 && b[6] == b6 && b[7] == b7);
    assert((b0 as u64) | ((b1 as u64) << 8u64) | ((b2 as u64) << 16u64) | ((b3 as u64) << 24u64)
        | ((b4 as u64) << 32u64) | ((b5 as u64) << 40u64) | ((b6 as u64) << 48u64) | ((b7 as u64) << 56u64) == v)
        by (bit_vector)
        requires
            b0 == v as u8,
            b1 == (v >> 8u64) as u8,
            b2 == (v >> 16u64) as u8,
            b3 == (v >> 24u64) as u8,
            b4 == (v >> 32u64) as u8,
            b5 == (v >> 40u64) as u8,
            b6 == (v >> 48u64) as u8,
            b7 == (v >> 56u64) as u8,
    ;
}

/// A write is read back: the written range holds the data, the size stays, and
/// every byte outside the range is unchanged.
pub proof fn lemma_read_after_write(mem: Seq<u8>, offset: int, data: Seq<u8>)
    requires
        0 <= offset,
        offset + data.len() <= mem.len(),
    ensures
        splice(mem, offset, data).len() == mem.len(),
        splice(mem, offset, data).subrange(offset, offset + data.len()) == data,
        forall|i: int| 0 <= i < mem.len() && !(offset <= i < offset + data.len())
            ==> #[trigger] splice(mem, offset, data)[i] == mem[i],
{
    let s = splice(mem, offset, data);
    assert(s.subrange(offset, offset + data.len()) =~= data);
    assert forall|i: int| 0 <= i < mem.len() && !(offset <= i < offset + data.len()) implies #[trigger] s[i] == mem[i] by {
        if i < offset {
            assert(s[i] == mem.subrange(0, offset)[i]);
        } else {
            assert(s[i] == mem.subrange(offset + data.len(), mem.len() as int)[i - offset - data.len()]);
        }
    }
}

/// A 32-bit integer written at `offset` is read back unchanged.
pub proof fn lemma_u32_read_after_write(mem: Seq<u8>, offset: int, v: u32)
    requires
        0 <= offset,
        offset + 4 <= mem.len(),
    ensures
        ({
            let s = splice(mem, offset, le_bytes_u32(v));
            le_value_u32(s[offset], s[offset + 1], s[offset + 2], s[offset + 3]) == v
        }),
{
    let b = le_bytes_u32(v);
    let s = splice(mem, offset, b);
    lemma_read_after_write(mem, offset, b);
    assert(s[offset] == b[0] && s[offset + 1] == b[1] && s[offset + 2] == b[2] && s[offset + 3] == b[3]) by {
        assert(s.subrange(offset, offset + 4)[0] == b[0]);
        assert(s.subrange(offset, offset + 4)[1] == b[1]);
        assert(s.subrange(offset, offset + 4)[2] == b[2]);
        assert(s.subrange(offset, offset + 4)[3] == b[3]);
    }
    lemma_le_u32_roundtrip(v);
}

/// A 64-bit integer written at `offset` is read back unchanged.
pub proof fn lemma_u64_read_after_write(mem: Seq<u8>, offset: int, v: u64)
    requires
        0 <= offset,
        offset + 8 <= mem.len(),
    ensures
        le_value_u64(splice(mem, offset, le_bytes_u64(v)).subrange(offset, offset + 8)) == v,
{
    lemma_read_after_write(mem, offset, le_bytes_u64(v));
    lemma_le_u64_roundtrip(v);
}

/// The error for an access of `size` bytes at `offset`.
pub open spec fn access_error(offset: int, size: int) -> ContractError {
    ContractError::InvalidMemoryAccess { offset: offset as u64, size: size as u64 }
}

/// The page count that `grow` aims at: the current pages plus the request, saturating.
pub open spec fn grow_target(pages: u32, additional: u32) -> u32 {
    if pages + additional > u32::MAX { u32::MAX } else { (pages + additional) as u32 }
}

/// The gas that copying `len` bytes costs.
pub open spec fn copy_cost(len: int, per_word: int) -> int {
    words(len) * per_word
}

/// Contract memory for WASM execution.
pub struct ContractMemory {
    data: Vec<u8>,
    pages: u32,
    max_pages: u32,
    gas: GasMeter,
}

impl ContractMemory {
    /// The bytes of the memory.
    pub closed spec fn bytes(&self) -> Seq<u8> {
        self.data@
    }

    /// The current size in pages.
    pub closed spec fn spec_pages(&self) -> u32 {
        self.pages
    }

    /// The page limit.
    pub closed spec fn spec_max_pages(&self) -> u32 {
        self.max_pages
    }

    /// The meter charged for expansion and copies.
    pub closed spec fn meter(&self) -> GasMeter {
        self.gas
    }

    /// The memory is `pages` pages of 64KB, within the page limit and 16MB.
    pub open spec fn wf(&self) -> bool {
        &&& self.bytes().len() == self.spec_pages() * PAGE_SIZE
        &&& self.spec_pages() <= self.spec_max_pages()
        &&& self.bytes().len() <= MAX_MEMORY_SIZE
    }

    /// Creates zeroed memory of `min(initial_pages, max_pages)` pages; fails when that
    /// is more than 16MB.
    pub fn new(initial_pages: u32, max_pages: u32, gas: GasMeter) -> (r: Result<Self, ContractError>)
        ensures
            ({
                let p = if initial_pages <= max_pages { initial_pages } else { max_pages };
                &&& r is Ok <==> p * PAGE_SIZE <= MAX_MEMORY_SIZE
                &&& r matches Ok(m) ==> {
                    &&& m.wf()
                    &&& m.bytes() == zeros((p * PAGE_SIZE) as nat)
                    &&& m.spec_pages() == p
                    &&& m.spec_max_pages() == max_pages
                    &&& m.meter() == gas
                }
                &&& r matches Err(e) ==> e == access_error(0, p * PAGE_SIZE)
            }),
    {
        let p = if initial_pages <= max_pages { initial_pages } else { max_pages };
        let size = (p as u64) * (PAGE_SIZE as u64);
        if size > MAX_MEMORY_SIZE as u64 {
            return Err(ContractError::InvalidMemoryAccess { offset: 0, size });
        }
        let data = vec![0u8; size as usize];
        assert(data@ =~= zeros(size as nat));
        Ok(ContractMemory { data, pages: p, max_pages, gas })
    }

    /// Memory of one page that may grow to 256 pages (16MB).
    pub fn default_with_gas(gas: GasMeter) -> (r: Result<Self, ContractError>)
        ensures
            r matches Ok(m) && m.wf() && m.bytes() == zeros(PAGE_SIZE as nat) && m.spec_pages() == 1
                && m.spec_max_pages() == 256 && m.meter() == gas,
    {
        Self::new(1, 256, gas)
    }

    /// The current size in bytes.
    pub fn size(&self) -> (r: usize)
        ensures
            r == self.bytes().len(),
    {
        self.data.len()
    }

    /// The current size in pages.
    pub fn pages(&self) -> (r: u32)
        ensures
            r == self.spec_pages(),
    {
        self.pages
    }

    /// The gas meter of this memory.
    pub fn gas(&self) -> (r: &GasMeter)
        ensures
            *r == self.meter(),
    {
        &self.gas
    }

    /// Ends the memory, handing back its meter with every expansion and copy
    /// charge made through it.
    pub fn into_gas(self) -> (r: GasMeter)
        ensures
            r == self.meter(),
    {
        self.gas
    }

    /// Grows the memory by `additional_pages` zeroed pages, charging the expansion
    /// cost. Returns the previous page count, or `u32::MAX` (changing nothing) when
    /// the page limit or 16MB would be exceeded; fails when the gas runs out.
    pub fn grow(&mut self, additional_pages: u32) -> (r: Result<u32, ContractError>)
        requires
            ({
                let np = grow_target(old(self).spec_pages(), additional_pages);
                np <= old(self).spec_max_pages() && np * PAGE_SIZE <= MAX_MEMORY_SIZE
                    && np * PAGE_SIZE > old(self).bytes().len()
                    ==> memory_cost_fits((np * PAGE_SIZE) as u64, old(self).meter().spec_costs().memory_per_word)
            }),
        ensures
            ({
                let np = grow_target(old(self).spec_pages(), additional_pages);
                let new_size = np * PAGE_SIZE;
                let cost = expansion_cost(old(self).bytes().len() as int, new_size, old(self).meter().spec_costs().memory_per_word as int);
                let g = old(self).meter();
                if np > old(self).spec_max_pages() || new_size > MAX_MEMORY_SIZE {
                    r == Ok::<u32, ContractError>(u32::MAX) && *final(self) == *old(self)
                } else if saturate(g.spec_used() + cost) > g.spec_limit() {
                    &&& r == Err::<u32, ContractError>(ContractError::OutOfGas { used: saturate(g.spec_used() + cost) as u64, limit: g.spec_limit() })
                    &&& final(self).bytes() == old(self).bytes()
                    &&& final(self).spec_pages() == old(self).spec_pages()
                    &&& final(self).spec_max_pages() == old(self).spec_max_pages()
                    &&& final(self).meter().spec_used() == g.spec_used()
                    &&& final(self).meter().spec_limit() == g.spec_limit()
                    &&& final(self).meter().spec_refund() == g.spec_refund()
                    &&& final(self).meter().spec_costs() == g.spec_costs()
                } else {
                    &&& r == Ok::<u32, ContractError>(old(self).spec_pages())
                    &&& final(self).spec_pages() == np
                    &&& final(self).spec_max_pages() == old(self).spec_max_pages()
                    &&& (new_size >= old(self).bytes().len() ==> final(self).bytes() == old(self).bytes() + zeros((new_size - old(self).bytes().len()) as nat))
                    &&& (new_size < old(self).bytes().len() ==> final(self).bytes() == old(self).bytes().subrange(0, new_size))
                    &&& final(self).meter().spec_used() == saturate(g.spec_used() + cost)
                    &&& final(self).meter().spec_limit() == g.spec_limit()
                    &&& final(self).meter().spec_refund() == g.spec_refund()
                    &&& final(self).meter().spec_costs() == g.spec_costs()
                }
            }),
            old(self).wf() ==> final(self).wf(),
    {
        let new_pages = self.pages.saturating_add(additional_pages);
        if new_pages > self.max_pages {
            return Ok(u32::MAX);
        }
        let new_size64 = (new_pages as u64) * (PAGE_SIZE as u64);
        if new_size64 > MAX_MEMORY_SIZE as u64 {
            return Ok(u32::MAX);
        }
        let new_size = new_size64 as usize;
        let current_size = self.data.len() as u64;
        let cost = self.gas.costs().memory_expansion_cost(current_size, new_size64);
        match self.gas.consume(cost) {
            Ok(()) => {},
            Err(e) => {
                return Err(e);
            },
        }
        let old_pages = self.pages;
        let ghost before = self.data@;
        self.data.resize(new_size, 0);
        proof {
            if new_size >= before.len() {
                assert(self.data@ =~= before + zeros((new_size - before.len()) as nat)) by {
                    assert forall|i: int| before.len() <= i < new_size implies self.data@[i] == 0u8 by {
                        assert(cloned::<u8>(0u8, self.data@[i]));
                    }
                }
            }
        }
        self.pages = new_pages;
        Ok(old_pages)
    }

    /// The byte at `offset`.
    pub fn read_byte(&self, offset: u32) -> (r: Result<u8, ContractError>)
        ensures
            r is Ok <==> offset < self.bytes().len(),
            r matches Ok(b) ==> b == self.bytes()[offset as int],
            r matches Err(e) ==> e == access_error(offset as int, 1),
    {
        let off = offset as usize;
        if off >= self.data.len() {
            return Err(ContractError::InvalidMemoryAccess { offset: offset as u64, size: 1 });
        }
        Ok(self.data[off])
    }

    /// Writes the byte at `offset`.
    pub fn write_byte(&mut self, offset: u32, value: u8) -> (r: Result<(), ContractError>)
        ensures
            r is Ok <==> offset < old(self).bytes().len(),
            r is Ok ==> final(self).bytes() == old(self).bytes().update(offset as int, value),
            r matches Err(e) ==> e == access_error(offset as int, 1) && final(self).bytes() == old(self).bytes(),
            final(self).bytes().len() == old(self).bytes().len(),
            final(self).spec_pages() == old(self).spec_pages(),
            final(self).spec_max_pages() == old(self).spec_max_pages(),
            final(self).meter() == old(self).meter(),
    {
        let off = offset as usize;
        if off >= self.data.len() {
            return Err(ContractError::InvalidMemoryAccess { offset: offset as u64, size: 1 });
        }
        self.data.set(off, value);
        Ok(())
    }

    /// The `size` bytes at `offset`.
    pub fn read(&self, offset: u32, size: u32) -> (r: Result<&[u8], ContractError>)
        ensures
            r is Ok <==> in_bounds(offset as int, size as int, self.bytes().len() as int),
            r matches Ok(s) ==> s@ == self.bytes().subrange(offset as int, offset + size),
            r matches Err(e) ==> e == access_error(offset as int, size as int),
    {
        let off = offset as usize;
        let sz = size as usize;
        let len = self.data.len();
        let end = match off.checked_add(sz) {
            Some(end) => end,
            None => {
                return Err(ContractError::InvalidMemoryAccess { offset: offset as u64, size: size as u64 });
            },
        };
        if end > len {
            return Err(ContractError::InvalidMemoryAccess { offset: offset as u64, size: size as u64 });
        }
        Ok(vstd::slice::slice_subrange(self.data.as_slice(), off, end))
    }

    /// Writes `data` at `offset`.
    pub fn write(&mut self, offset: u32, data: &[u8]) -> (r: Result<(), ContractError>)
        ensures
            r is Ok <==> in_bounds(offset as int, data@.len() as int, old(self).bytes().len() as int),
            r is Ok ==> final(self).bytes() == splice(old(self).bytes(), offset as int, data@),
            r matches Err(e) ==> e == access_error(offset as int, data@.len() as int) && final(self).bytes() == old(self).bytes(),
            final(self).bytes().len() == old(self).bytes().len(),
            final(self).spec_pages() == old(self).spec_pages(),
            final(self).spec_max_pages() == old(self).spec_max_pages(),
            final(self).meter() == old(self).meter(),
    {
        let off = offset as usize;
        let n = data.len();
        let len = self.data.len();
        let end = match off.checked_add(n) {
            Some(end) => end,
            None => {
                return Err(ContractError::InvalidMemoryAccess { offset: offset as u64, size: n as u64 });
            },
        };
        if end > len {
            return Err(ContractError::InvalidMemoryAccess { offset: offset as u64, size: n as u64 });
        }
        let ghost before = self.data@;
        let mut i: usize = 0;
        while i < n
            invariant
                n == data@.len(),
                end == off + n,
                end <= before.len(),
                i <= n,
                self.data@.len() == before.len(),
                self.pages == old(self).pages,
                self.max_pages == old(self).max_pages,
                self.gas == old(self).gas,
                forall|j: int| 0 <= j < off ==> self.data@[j] == before[j],
                forall|j: int| end <= j < before.len() ==> self.data@[j] == before[j],
                forall|j: int| 0 <= j < i ==> self.data@[off + j] == data@[j],
                forall|j: int| off + i <= j < end ==> self.data@[j] == before[j],
            decreases n - i,
        {
            self.data.set(off + i, data[i]);
            i = i + 1;
        }
        assert(self.data@ =~= splice(before, off as int, data@));
        Ok(())
    }

    /// The 32-bit little-endian integer at `offset`.
    pub fn read_u32_le(&self, offset: u32) -> (r: Result<u32, ContractError>)
        ensures
            r is Ok <==> in_bounds(offset as int, 4, self.bytes().len() as int),
            r matches Ok(v) ==> v == le_value_u32(
                self.bytes()[offset as int],
                self.bytes()[offset + 1],
                self.bytes()[offset + 2],
                self.bytes()[offset + 3],
            ),
            r matches Err(e) ==> e == access_error(offset as int, 4),
    {
        let bytes = match self.read(offset, 4) {
            Ok(b) => b,
            Err(e) => {
                return Err(e);
            },
        };
        let b0 = bytes[0];
        let b1 = bytes[1];
        let b2 = bytes[2];
        let b3 = bytes[3];
        Ok((b0 as u32) | ((b1 as u32) << 8u32) | ((b2 as u32) << 16u32) | ((b3 as u32) << 24u32))
    }

    /// Writes a 32-bit little-endian integer at `offset`.
    pub fn write_u32_le(&mut self, offset: u32, value: u32) -> (r: Result<(), ContractError>)
        ensures
            r is Ok <==> in_bounds(offset as int, 4, old(self).bytes().len() as int),
            r is Ok ==> final(self).bytes() == splice(old(self).bytes(), offset as int, le_bytes_u32(value)),
            r matches Err(e) ==> e == access_error(offset as int, 4) && final(self).bytes() == old(self).bytes(),
            final(self).bytes().len() == old(self).bytes().len(),
            final(self).spec_pages() == old(self).spec_pages(),
            final(self).spec_max_pages() == old(self).spec_max_pages(),
            final(self).meter() == old(self).meter(),
    {
        let bytes: [u8; 4] = [value as u8, (value >> 8u32) as u8, (value >> 16u32) as u8, (value >> 24u32) as u8];
        assert(bytes@ =~= le_bytes_u32(value));
        self.write(offset, &bytes)
    }

    /// The 64-bit little-endian integer at `offset`.
    pub fn read_u64_le(&self, offset: u32) -> (r: Result<u64, ContractError>)
        ensures
            r is Ok <==> in_bounds(offset as int, 8, self.bytes().len() as int),
            r matches Ok(v) ==> v == le_value_u64(self.bytes().subrange(offset as int, offset + 8)),
            r matches Err(e) ==> e == access_error(offset as int, 8),
    {
        let bytes = match self.read(offset, 8) {
            Ok(b) => b,
            Err(e) => {
                return Err(e);
            },
        };
        let v = (bytes[0] as u64) | ((bytes[1] as u64) << 8u64) | ((bytes[2] as u64) << 16u64)
            | ((bytes[3] as u64) << 24u64) | ((bytes[4] as u64) << 32u64) | ((bytes[5] as u64) << 40u64)
            | ((bytes[6] as u64) << 48u64) | ((bytes[7] as u64) << 56u64);
        Ok(v)
    }

    /// Writes a 64-bit little-endian integer at `offset`.
    pub fn write_u64_le(&mut self, offset: u32, value: u64) -> (r: Result<(), ContractError>)
        ensures
            r is Ok <==> in_bounds(offset as int, 8, old(self).bytes().len() as int),
            r is Ok ==> final(self).bytes() == splice(old(self).bytes(), offset as int, le_bytes_u64(value)),
            r matches Err(e) ==> e == access_error(offset as int, 8) && final(self).bytes() == old(self).bytes(),
            final(self).bytes().len() == old(self).bytes().len(),
            final(self).spec_pages() == old(self).spec_pages(),
            final(self).spec_max_pages() == old(self).spec_max_pages(),
            final(self).meter() == old(self).meter(),
    {
        let bytes: [u8; 8] = [
            value as u8, (value >> 8u64) as u8, (value >> 16u64) as u8, (value >> 24u64) as u8,
            (value >> 32u64) as u8, (value >> 40u64) as u8, (value >> 48u64) as u8, (value >> 56u64) as u8,
        ];
        assert(bytes@ =~= le_bytes_u64(value));
        self.write(offset, &bytes)
    }

    /// Copies `len` bytes from `src` to `dst` (the ranges may overlap), charging the
    /// copy cost; the source range is checked first, then the destination.
    pub fn copy_within(&mut self, src: u32, dst: u32, len: u32) -> (r: Result<(), ContractError>)
        requires
            in_bounds(src as int, len as int, old(self).bytes().len() as int) && in_bounds(dst as int, len as int, old(self).bytes().len() as int)
                ==> copy_cost(len as int, old(self).meter().spec_costs().copy_per_word as int) <= u64::MAX,
        ensures
            ({
                let n = old(self).bytes().len() as int;
                let cost = copy_cost(len as int, old(self).meter().spec_costs().copy_per_word as int);
                let g = old(self).meter();
                if !in_bounds(src as int, len as int, n) {
                    r == Err::<(), ContractError>(access_error(src as int, len as int)) && *final(self) == *old(self)
                } else if !in_bounds(dst as int, len as int, n) {
                    r == Err::<(), ContractError>(access_error(dst as int, len as int)) && *final(self) == *old(self)
                } else if saturate(g.spec_used() + cost) > g.spec_limit() {
                    &&& r == Err::<(), ContractError>(ContractError::OutOfGas { used: saturate(g.spec_used() + cost) as u64, limit: g.spec_limit() })
                    &&& final(self).bytes() == old(self).bytes()
                    &&& final(self).meter().spec_used() == g.spec_used()
                } else {
                    &&& r is Ok
                    &&& final(self).bytes() == splice(old(self).bytes(), dst as int, old(self).bytes().subrange(src as int, src + len))
                    &&& final(self).meter().spec_used() == saturate(g.spec_used() + cost)
                }
            }),
            final(self).bytes().len() == old(self).bytes().len(),
            final(self).spec_pages() == old(self).spec_pages(),
            final(self).spec_max_pages() == old(self).spec_max_pages(),
            final(self).meter().spec_limit() == old(self).meter().spec_limit(),
            final(self).meter().spec_refund() == old(self).meter().spec_refund(),
            final(self).meter().spec_costs() == old(self).meter().spec_costs(),
    {
        let s = src as usize;
        let d = dst as usize;
        let l = len as usize;
        let n = self.data.len();
        let src_ok = match s.checked_add(l) {
            Some(end) => end <= n,
            None => false,
        };
        if !src_ok {
            return Err(ContractError::InvalidMemoryAccess { offset: src as u64, size: len as u64 });
        }
        let dst_ok = match d.checked_add(l) {
            Some(end) => end <= n,
            None => false,
        };
        if !dst_ok {
            return Err(ContractError::InvalidMemoryAccess { offset: dst as u64, size: len as u64 });
        }
        let w: u64 = (len as u64 + 31) / 32;
        let cost: Gas = w * self.gas.costs().copy_per_word;
        match self.gas.consume(cost) {
            Ok(()) => {},
            Err(e) => {
                return Err(e);
            },
        }
        let ghost before = self.data@;
        let mut tmp: Vec<u8> = Vec::new();
        let mut i: usize = 0;
        while i < l
            invariant
                s + l <= n,
                n == self.data@.len(),
                self.data@ == before,
                self.pages == old(self).pages,
                self.max_pages == old(self).max_pages,
                i <= l,
                tmp@ == before.subrange(s as int, s + i),
            decreases l - i,
        {
            tmp.push(self.data[s + i]);
            i = i + 1;
        }
        let ghost moved = self.gas;
        let mut j: usize = 0;
        while j < l
            invariant
                d + l <= n,
                self.data@.len() == n,
                before.len() == n,
                tmp@.len() == l,
                j <= l,
                self.gas == moved,
                self.pages == old(self).pages,
                self.max_pages == old(self).max_pages,
                forall|k: int| 0 <= k < d ==> self.data@[k] == before[k],
                forall|k: int| d + l <= k < n ==> self.data@[k] == before[k],
                forall|k: int| 0 <= k < j ==> self.data@[d + k] == tmp@[k],
                forall|k: int| d + j <= k < d + l ==> self.data@[k] == before[k],
            decreases l - j,
        {
            self.data.set(d + j, tmp[j]);
            j = j + 1;
        }
        assert(self.data@ =~= splice(before, d as int, before.subrange(s as int, s + l)));
        Ok(())
    }

    /// Sets `len` bytes at `offset` to `value`.
    pub fn fill(&mut self, offset: u32, value: u8, len: u32) -> (r: Result<(), ContractError>)
        ensures
            r is Ok <==> in_bounds(offset as int, len as int, old(self).bytes().len() as int),
            r is Ok ==> final(self).bytes() == splice(old(self).bytes(), offset as int, Seq::new(len as nat, |i: int| value)),
            r matches Err(e) ==> e == access_error(offset as int, len as int) && final(self).bytes() == old(self).bytes(),
            final(self).bytes().len() == old(self).bytes().len(),
            final(self).spec_pages() == old(self).spec_pages(),
            final(self).spec_max_pages() == old(self).spec_max_pages(),
            final(self).meter() == old(self).meter(),
    {
        let off = offset as usize;
        let l = len as usize;
        let size = self.data.len();
        let end = match off.checked_add(l) {
            Some(end) => end,
            None => {
                return Err(ContractError::InvalidMemoryAccess { offset: offset as u64, size: len as u64 });
            },
        };
        if end > size {
            return Err(ContractError::InvalidMemoryAccess { offset: offset as u64, size: len as u64 });
        }
        let ghost before = self.data@;
        let mut i: usize = 0;
        while i < l
            invariant
                end == off + l,
                end <= before.len(),
                i <= l,
                self.data@.len() == before.len(),
                self.pages == old(self).pages,
                self.max_pages == old(self).max_pages,
                self.gas == old(self).gas,
                forall|j: int| 0 <= j < off ==> self.data@[j] == before[j],
                forall|j: int| end <= j < before.len() ==> self.data@[j] == before[j],
                forall|j: int| off <= j < off + i ==> self.data@[j] == value,
                forall|j: int| off + i <= j < end ==> self.data@[j] == before[j],
            decreases l - i,
        {
            self.data.set(off + i, value);
            i = i + 1;
        }
        assert(self.data@ =~= splice(before, off as int, Seq::new(len as nat, |i: int| value)));
        Ok(())
    }

    /// The raw memory bytes.
    pub fn as_slice(&self) -> (r: &[u8])
        ensures
            r@ == self.bytes(),
    {
        self.data.as_slice()
    }

    /// The raw memory bytes, writable; the page counts and the meter stay.
    pub fn as_mut_slice(&mut self) -> (r: &mut [u8])
        ensures
            r@ == old(self).bytes(),
            final(r)@ == final(self).bytes(),
            final(self).spec_pages() == old(self).spec_pages(),
            final(self).spec_max_pages() == old(self).spec_max_pages(),
            final(self).meter() == old(self).meter(),
    {
        self.data.as_mut_slice()
    }
}

} // verus!
