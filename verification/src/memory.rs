use vstd::prelude::*;
use vstd::pervasive::VecAdditionalExecFns;

use crate::NarmError;

verus! {

/// Ghost description of one memory segment: where it starts, the bytes it
/// holds, and whether writes are allowed.
pub ghost struct SegView {
    pub base: u32,
    pub data: Seq<u8>,
    pub writable: bool,
}

/// One loaded region of the virtual address space, backed by a byte buffer.
/// Segments are created at load time and never resized.
pub struct MemorySegment {
    base: u32,
    data: Vec<u8>,
    writable: bool,
}

impl View for MemorySegment {
    type V = SegView;

    closed spec fn view(&self) -> SegView {
        SegView { base: self.base, data: self.data@, writable: self.writable }
    }
}

/// `addr` falls inside the segment
pub open spec fn seg_contains(s: SegView, addr: u32) -> bool {
    s.base <= addr && (addr as int) < s.base + s.data.len()
}

/// The two segments cover disjoint address ranges
pub open spec fn seg_disjoint(a: SegView, b: SegView) -> bool {
    a.base + a.data.len() <= b.base || b.base + b.data.len() <= a.base
}

/// The segments of a well-formed memory system never overlap, so the segment
/// holding a given address is unique.
pub open spec fn mem_wf(mem: Seq<SegView>) -> bool {
    forall|i: int, j: int|
        0 <= i < mem.len() && 0 <= j < mem.len() && i != j ==> seg_disjoint(
            #[trigger] mem[i],
            #[trigger] mem[j],
        )
}

/// Some segment holds `addr`
pub open spec fn loaded_at(mem: Seq<SegView>, addr: u32) -> bool {
    exists|i: int| 0 <= i < mem.len() && seg_contains(#[trigger] mem[i], addr)
}

/// The index of the segment holding `addr` (meaningful when `loaded_at`)
pub open spec fn seg_index(mem: Seq<SegView>, addr: u32) -> int {
    choose|i: int| 0 <= i < mem.len() && seg_contains(#[trigger] mem[i], addr)
}

/// In a well-formed memory only one segment can hold an address.
pub proof fn lemma_seg_index_unique(mem: Seq<SegView>, addr: u32, i: int)
    requires
        mem_wf(mem),
        0 <= i < mem.len(),
        seg_contains(mem[i], addr),
    ensures
        loaded_at(mem, addr),
        seg_index(mem, addr) == i,
{
    assert(loaded_at(mem, addr));
    let j = seg_index(mem, addr);
    assert(0 <= j < mem.len() && seg_contains(mem[j], addr));
    if i != j {
        assert(seg_disjoint(mem[i], mem[j]));
    }
}

/// `None` when `len` bytes starting at `addr` can be read; otherwise the
/// error the read reports.  An address outside every segment is unloaded; an
/// access that starts inside a segment but runs past its buffer is empty.
pub open spec fn read_check(mem: Seq<SegView>, addr: u32, len: nat) -> Option<NarmError> {
    if !loaded_at(mem, addr) {
        Option::Some(NarmError::UnloadedMemoryRead(addr))
    } else {
        let s = mem[seg_index(mem, addr)];
        if addr - s.base + len > s.data.len() {
            Option::Some(NarmError::EmptyMemoryRead(addr))
        } else {
            Option::None
        }
    }
}

/// `None` when `len` bytes starting at `addr` can be written; otherwise the
/// error the write reports.
pub open spec fn write_check(mem: Seq<SegView>, addr: u32, len: nat) -> Option<NarmError> {
    if !loaded_at(mem, addr) {
        Option::Some(NarmError::UnloadedMemoryWrite(addr))
    } else {
        let s = mem[seg_index(mem, addr)];
        if addr - s.base + len > s.data.len() {
            Option::Some(NarmError::EmptyMemoryWrite(addr))
        } else if !s.writable {
            Option::Some(NarmError::ReadOnlyMemoryWrite(addr))
        } else {
            Option::None
        }
    }
}

/// The `len` bytes stored at `addr` (meaningful when `read_check` passes)
pub open spec fn read_bytes(mem: Seq<SegView>, addr: u32, len: nat) -> Seq<u8> {
    let s = mem[seg_index(mem, addr)];
    s.data.subrange(addr - s.base, addr - s.base + len)
}

/// `data` with `bytes` written over the range starting at `off`
pub open spec fn splice(data: Seq<u8>, off: int, bytes: Seq<u8>) -> Seq<u8> {
    data.map(|j: int, b: u8| if off <= j && j < off + bytes.len() { bytes[j - off] } else { b })
}

/// The memory after `bytes` are stored at `addr` (meaningful when
/// `write_check` passes)
pub open spec fn stored(mem: Seq<SegView>, addr: u32, bytes: Seq<u8>) -> Seq<SegView> {
    let i = seg_index(mem, addr);
    let s = mem[i];
    mem.update(i, SegView { base: s.base, data: splice(s.data, addr - s.base, bytes), writable: s.writable })
}

/// The little-endian 16-bit value made of two bytes
pub open spec fn word16_of(b: Seq<u8>) -> u16
    recommends
        b.len() == 2,
{
    (b[0] + b[1] * 0x100) as u16
}

/// The little-endian 32-bit value made of four bytes
pub open spec fn word32_of(b: Seq<u8>) -> u32
    recommends
        b.len() == 4,
{
    (b[0] + b[1] * 0x100 + b[2] * 0x10000 + b[3] * 0x1000000) as u32
}

/// The little-endian bytes of a 16-bit value
pub open spec fn bytes_of_u16(v: u16) -> Seq<u8> {
    seq![(v % 0x100) as u8, (v / 0x100) as u8]
}

/// The little-endian bytes of a 32-bit value
pub open spec fn bytes_of_u32(v: u32) -> Seq<u8> {
    seq![
        (v % 0x100) as u8,
        ((v / 0x100) % 0x100) as u8,
        ((v / 0x10000) % 0x100) as u8,
        (v / 0x1000000) as u8,
    ]
}

/// The segment's range and `[base, base + size)` share an address
pub open spec fn seg_overlaps(s: SegView, base: u32, size: u32) -> bool {
    !(s.base + s.data.len() <= base || base + size <= s.base)
}


/// The little-endian byte decomposition of a halfword is lossless.
pub proof fn lemma_word16_roundtrip(v: u16)
    ensures
        word16_of(bytes_of_u16(v)) == v,
{
}

/// The little-endian byte decomposition of a word is lossless.
pub proof fn lemma_word32_roundtrip(v: u32)
    ensures
        word32_of(bytes_of_u32(v)) == v,
{
}

/// Reading back a range that was just stored yields the stored bytes, and
/// the rest of the segment's bytes are untouched.
pub proof fn lemma_stored_read(mem: Seq<SegView>, addr: u32, bytes: Seq<u8>)
    requires
        mem_wf(mem),
        write_check(mem, addr, bytes.len()) is None,
    ensures
        mem_wf(stored(mem, addr, bytes)),
        read_check(stored(mem, addr, bytes), addr, bytes.len()) is None,
        read_bytes(stored(mem, addr, bytes), addr, bytes.len()) == bytes,
{
    let i = seg_index(mem, addr);
    let s = mem[i];
    let post = stored(mem, addr, bytes);
    assert(seg_contains(post[i], addr));
    lemma_seg_index_unique(post, addr, i);
    assert forall|a: int, b: int|
        0 <= a < post.len() && 0 <= b < post.len() && a != b implies seg_disjoint(
        post[a],
        post[b],
    ) by {
        assert(seg_disjoint(mem[a], mem[b]));
    }
    assert(read_bytes(post, addr, bytes.len()) =~= bytes);
}

/// `r == Some(e)` exactly when the new segment is rejected: a base that is
/// not 4-aligned, or a range that overlaps an existing segment.
pub open spec fn add_check(mem: Seq<SegView>, base: u32, size: u32) -> Option<NarmError> {
    if base % 4 != 0 {
        Option::Some(NarmError::UnalignedMemoryAddition)
    } else if exists|i: int| 0 <= i < mem.len() && seg_overlaps(#[trigger] mem[i], base, size) {
        Option::Some(NarmError::ConflictingMemoryAddition)
    } else {
        Option::None
    }
}

/// Segmented virtual memory: an ordered set of non-overlapping segments with
/// typed little-endian accessors.  Addresses outside every segment are
/// unloaded; addresses inside a segment but past its buffer are empty.
pub struct MemorySystem {
    segments: Vec<MemorySegment>,
}

impl View for MemorySystem {
    type V = Seq<SegView>;

    closed spec fn view(&self) -> Seq<SegView> {
        self.segments@.map(|i: int, s: MemorySegment| s@)
    }
}

impl Default for MemorySystem {
    fn default() -> (r: Self)
        ensures
            r@ =~= Seq::<SegView>::empty(),
            mem_wf(r@),
    {
        MemorySystem { segments: Vec::new() }
    }
}

impl MemorySystem {
    pub open spec fn wf(&self) -> bool {
        mem_wf(self@)
    }

    /// Index of the segment holding `address`, scanning in creation order
    fn find_segment(&self, address: u32) -> (r: Option<usize>)
        requires
            self.wf(),
        ensures
            match r {
                Option::Some(i) => i < self@.len() && seg_contains(self@[i as int], address)
                    && seg_index(self@, address) == i && loaded_at(self@, address),
                Option::None => !loaded_at(self@, address),
            },
    {
        let n = self.segments.len();
        let mut i: usize = 0;
        while i < n
            invariant
                self.wf(),
                n == self@.len(),
                i <= n,
                forall|j: int| 0 <= j < i ==> !seg_contains(self@[j], address),
            decreases n - i,
        {
            let seg = &self.segments[i];
            if seg.base <= address && ((address - seg.base) as usize) < seg.data.len() {
                proof {
                    lemma_seg_index_unique(self@, address, i as int);
                }
                return Option::Some(i);
            }
            i = i + 1;
        }
        assert(!loaded_at(self@, address)) by {
            assert(forall|j: int| 0 <= j < self@.len() ==> !seg_contains(self@[j], address));
        }
        Option::None
    }

    /// Create a new segment of `size` zeroed, writable bytes at `base`.
    pub fn add_memory(&mut self, base: u32, size: u32) -> (r: Result<(), NarmError>)
        requires
            old(self).wf(),
        ensures
            final (self).wf(),
            match add_check(old(self)@, base, size) {
                Option::Some(e) => r == Result::<(), NarmError>::Err(e) && final (self)@ == old(
                    self,
                )@,
                Option::None => r == Result::<(), NarmError>::Ok(()) && final (self)@ == old(
                    self,
                )@.push(
                    SegView { base, data: Seq::new(size as nat, |i: int| 0u8), writable: true },
                ),
            },
    {
        if base % 4 != 0 {
            return Result::Err(NarmError::UnalignedMemoryAddition);
        }
        let n = self.segments.len();
        let mut i: usize = 0;
        while i < n
            invariant
                self == old(self),
                self.wf(),
                base % 4 == 0,
                n == self@.len(),
                i <= n,
                forall|j: int| 0 <= j < i ==> !seg_overlaps(#[trigger] self@[j], base, size),
            decreases n - i,
        {
            let seg = &self.segments[i];
            if !(seg.base as u128 + seg.data.len() as u128 <= base as u128 || base as u128
                + size as u128 <= seg.base as u128) {
                proof {
                    assert(seg_overlaps(self@[i as int], base, size));
                }
                return Result::Err(NarmError::ConflictingMemoryAddition);
            }
            i = i + 1;
        }
        let ghost pre = self@;
        let mut data: Vec<u8> = Vec::new();
        let mut k: u32 = 0;
        while k < size
            invariant
                k <= size,
                data@ =~= Seq::new(k as nat, |i: int| 0u8),
            decreases size - k,
        {
            data.push(0u8);
            k = k + 1;
        }
        self.segments.push(MemorySegment { base, data, writable: true });
        proof {
            assert(self@ =~~= pre.push(
                SegView { base, data: Seq::new(size as nat, |i: int| 0u8), writable: true },
            ));
            assert forall|a: int, b: int|
                0 <= a < self@.len() && 0 <= b < self@.len() && a != b implies seg_disjoint(
                self@[a],
                self@[b],
            ) by {
                if a < pre.len() && b < pre.len() {
                    assert(seg_disjoint(pre[a], pre[b]));
                }
            }
        }
        Result::Ok(())
    }

    /// Read the byte at `address`.
    pub fn get_u8(&self, address: u32) -> (r: Result<u8, NarmError>)
        requires
            self.wf(),
        ensures
            match read_check(self@, address, 1) {
                Option::Some(e) => r == Result::<u8, NarmError>::Err(e),
                Option::None => r == Result::<u8, NarmError>::Ok(read_bytes(self@, address, 1)[0]),
            },
    {
        match self.find_segment(address) {
            Option::Some(i) => {
                let seg = &self.segments[i];
                let off = (address - seg.base) as usize;
                proof {
                    assert(read_bytes(self@, address, 1)[0] == seg@.data[off as int]);
                }
                Result::Ok(seg.data[off])
            },
            Option::None => Result::Err(NarmError::UnloadedMemoryRead(address)),
        }
    }

    /// Read the little-endian halfword at `address`.  Both bytes must lie in
    /// the segment holding `address`.
    pub fn get_u16(&self, address: u32) -> (r: Result<u16, NarmError>)
        requires
            self.wf(),
        ensures
            match read_check(self@, address, 2) {
                Option::Some(e) => r == Result::<u16, NarmError>::Err(e),
                Option::None => r == Result::<u16, NarmError>::Ok(
                    word16_of(read_bytes(self@, address, 2)),
                ),
            },
    {
        match self.find_segment(address) {
            Option::Some(i) => {
                let seg = &self.segments[i];
                let off = (address - seg.base) as usize;
                if seg.data.len() - off < 2 {
                    return Result::Err(NarmError::EmptyMemoryRead(address));
                }
                let b0 = seg.data[off];
                let b1 = seg.data[off + 1];
                proof {
                    assert(read_bytes(self@, address, 2) =~= seq![b0, b1]);
                }
                Result::Ok((b0 as u16) + (b1 as u16) * 0x100)
            },
            Option::None => Result::Err(NarmError::UnloadedMemoryRead(address)),
        }
    }

    /// Read the little-endian word at `address`.  All four bytes must lie in
    /// the segment holding `address`.
    pub fn get_u32(&self, address: u32) -> (r: Result<u32, NarmError>)
        requires
            self.wf(),
        ensures
            match read_check(self@, address, 4) {
                Option::Some(e) => r == Result::<u32, NarmError>::Err(e),
                Option::None => r == Result::<u32, NarmError>::Ok(
                    word32_of(read_bytes(self@, address, 4)),
                ),
            },
    {
        match self.find_segment(address) {
            Option::Some(i) => {
                let seg = &self.segments[i];
                let off = (address - seg.base) as usize;
                if seg.data.len() - off < 4 {
                    return Result::Err(NarmError::EmptyMemoryRead(address));
                }
                let b0 = seg.data[off];
                let b1 = seg.data[off + 1];
                let b2 = seg.data[off + 2];
                let b3 = seg.data[off + 3];
                proof {
                    assert(read_bytes(self@, address, 4) =~= seq![b0, b1, b2, b3]);
                }
                Result::Ok(
                    (b0 as u32) + (b1 as u32) * 0x100 + (b2 as u32) * 0x10000 + (b3 as u32)
                        * 0x1000000,
                )
            },
            Option::None => Result::Err(NarmError::UnloadedMemoryRead(address)),
        }
    }

    /// Write the byte at `address`.
    pub fn set_u8(&mut self, address: u32, value: u8) -> (r: Result<(), NarmError>)
        requires
            old(self).wf(),
        ensures
            final (self).wf(),
            match write_check(old(self)@, address, 1) {
                Option::Some(e) => r == Result::<(), NarmError>::Err(e) && final (self)@ == old(
                    self,
                )@,
                Option::None => r == Result::<(), NarmError>::Ok(()) && final (self)@ == stored(
                    old(self)@,
                    address,
                    seq![value],
                ),
            },
    {
        let mut bytes: Vec<u8> = Vec::new();
        bytes.push(value);
        self.set_bytes_checked(address, bytes.as_slice())
    }

    /// Write the little-endian halfword at `address`.
    pub fn set_u16(&mut self, address: u32, value: u16) -> (r: Result<(), NarmError>)
        requires
            old(self).wf(),
        ensures
            final (self).wf(),
            match write_check(old(self)@, address, 2) {
                Option::Some(e) => r == Result::<(), NarmError>::Err(e) && final (self)@ == old(
                    self,
                )@,
                Option::None => r == Result::<(), NarmError>::Ok(()) && final (self)@ == stored(
                    old(self)@,
                    address,
                    bytes_of_u16(value),
                ),
            },
    {
        let b0 = (value % 0x100) as u8;
        let b1 = (value / 0x100) as u8;
        let mut bytes: Vec<u8> = Vec::new();
        bytes.push(b0);
        bytes.push(b1);
        proof {
            assert(bytes@ =~= bytes_of_u16(value));
        }
        self.set_bytes_checked(address, bytes.as_slice())
    }

    /// Write the little-endian word at `address`.
    pub fn set_u32(&mut self, address: u32, value: u32) -> (r: Result<(), NarmError>)
        requires
            old(self).wf(),
        ensures
            final (self).wf(),
            match write_check(old(self)@, address, 4) {
                Option::Some(e) => r == Result::<(), NarmError>::Err(e) && final (self)@ == old(
                    self,
                )@,
                Option::None => r == Result::<(), NarmError>::Ok(()) && final (self)@ == stored(
                    old(self)@,
                    address,
                    bytes_of_u32(value),
                ),
            },
    {
        let b0 = (value % 0x100) as u8;
        let b1 = ((value / 0x100) % 0x100) as u8;
        let b2 = ((value / 0x10000) % 0x100) as u8;
        let b3 = (value / 0x1000000) as u8;
        let mut bytes: Vec<u8> = Vec::new();
        bytes.push(b0);
        bytes.push(b1);
        bytes.push(b2);
        bytes.push(b3);
        proof {
            assert(bytes@ =~= bytes_of_u32(value));
        }
        self.set_bytes_checked(address, bytes.as_slice())
    }

    /// Copy `size` bytes starting at `address` out of memory.  The whole
    /// range must lie in the segment holding `address`.
    pub fn get_sized_memory(&self, address: u32, size: u32) -> (r: Result<Vec<u8>, NarmError>)
        requires
            self.wf(),
        ensures
            match read_check(self@, address, size as nat) {
                Option::Some(e) => r == Result::<Vec<u8>, NarmError>::Err(e),
                Option::None => r is Ok && r->Ok_0@ =~= read_bytes(self@, address, size as nat),
            },
    {
        match self.find_segment(address) {
            Option::Some(i) => {
                let seg = &self.segments[i];
                let off = (address - seg.base) as usize;
                if seg.data.len() - off < size as usize {
                    return Result::Err(NarmError::EmptyMemoryRead(address));
                }
                let mut out: Vec<u8> = Vec::new();
                let mut k: usize = 0;
                while k < size as usize
                    invariant
                        k <= size,
                        off + size <= seg.data.len(),
                        out@ =~= seg.data@.subrange(off as int, off + k),
                    decreases size - k,
                {
                    out.push(seg.data[off + k]);
                    k = k + 1;
                }
                proof {
                    assert(out@ =~= read_bytes(self@, address, size as nat));
                }
                Result::Ok(out)
            },
            Option::None => Result::Err(NarmError::UnloadedMemoryRead(address)),
        }
    }

    /// Copy `data` into memory starting at `address`.  The whole range must
    /// lie in the (writable) segment holding `address`; nothing is written
    /// when any part of the range is rejected.
    pub fn set_sized_memory(&mut self, address: u32, data: &[u8]) -> (r: Result<(), NarmError>)
        requires
            old(self).wf(),
        ensures
            final (self).wf(),
            match write_check(old(self)@, address, data@.len()) {
                Option::Some(e) => r == Result::<(), NarmError>::Err(e) && final (self)@ == old(
                    self,
                )@,
                Option::None => r == Result::<(), NarmError>::Ok(()) && final (self)@ == stored(
                    old(self)@,
                    address,
                    data@,
                ),
            },
    {
        self.set_bytes_checked(address, data)
    }

    /// Shared body of the write accessors
    fn set_bytes_checked(&mut self, address: u32, data: &[u8]) -> (r: Result<(), NarmError>)
        requires
            old(self).wf(),
        ensures
            final (self).wf(),
            match write_check(old(self)@, address, data@.len()) {
                Option::Some(e) => r == Result::<(), NarmError>::Err(e) && final (self)@ == old(
                    self,
                )@,
                Option::None => r == Result::<(), NarmError>::Ok(()) && final (self)@ == stored(
                    old(self)@,
                    address,
                    data@,
                ),
            },
    {
        let ghost pre = self@;
        let idx = match self.find_segment(address) {
            Option::Some(i) => i,
            Option::None => {
                return Result::Err(NarmError::UnloadedMemoryWrite(address));
            },
        };
        let len = data.len();
        let seg_len = self.segments[idx].data.len();
        let off = (address - self.segments[idx].base) as usize;
        if seg_len - off < len {
            return Result::Err(NarmError::EmptyMemoryWrite(address));
        }
        if !self.segments[idx].writable {
            return Result::Err(NarmError::ReadOnlyMemoryWrite(address));
        }
        let seg = &mut self.segments[idx];
        let ghost seg_pre = seg@;
        let dcap: usize = seg.data.len();
        let mut k: usize = 0;
        while k < len
            invariant
                k <= len,
                len == data@.len(),
                off + len <= dcap,
                dcap == seg@.data.len(),
                seg@.base == seg_pre.base,
                seg@.writable == seg_pre.writable,
                seg@.data.len() == seg_pre.data.len(),
                forall|j: int|
                    0 <= j < seg@.data.len() ==> seg@.data[j] == (if off <= j && j < off + k {
                        data@[j - off]
                    } else {
                        seg_pre.data[j]
                    }),
            decreases len - k,
        {
            seg.data.set(off + k, data[k]);
            k = k + 1;
        }
        proof {
            assert(seg@.data =~= splice(seg_pre.data, off as int, data@));
            lemma_seg_index_unique(pre, address, idx as int);
            assert(self@ =~~= stored(pre, address, data@));
            assert forall|a: int, b: int|
                0 <= a < self@.len() && 0 <= b < self@.len() && a != b implies seg_disjoint(
                self@[a],
                self@[b],
            ) by {
                assert(seg_disjoint(pre[a], pre[b]));
                assert(self@[a].base == pre[a].base && self@[a].data.len() == pre[a].data.len());
                assert(self@[b].base == pre[b].base && self@[b].data.len() == pre[b].data.len());
            }
        }
        Result::Ok(())
    }
}

} // verus!
