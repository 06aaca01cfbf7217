use vstd::prelude::*;
use crate::JvmValue;
use crate::class::{InstanceKlass, ArrayKlass};
use crate::field::{Field, FieldView, descriptor_default};

verus! {

/// A reference into the heap's address space: the address of an object, or 0 for null.
#[derive(Clone, Debug, Copy, PartialEq, Eq, Hash, Structural)]
pub struct RawPtr(pub u64);

/// The bits `off .. off + width` of a word.
pub open spec fn bits_get(w: u64, off: u64, width: u64) -> u64 {
    (w >> off) & (u64::MAX >> (64 - width) as u64)
}

/// A word with the bits `off .. off + width` replaced by the low bits of `v`.
pub open spec fn bits_set(w: u64, off: u64, width: u64, v: u64) -> u64 {
    (w & !((u64::MAX >> (64 - width) as u64) << off)) | ((v & (u64::MAX >> (64 - width) as u64))
        << off)
}

pub proof fn lemma_bits_get_set(w: u64, off: u64, width: u64, v: u64)
    requires
        1 <= width,
        off + width <= 64,
        v <= (u64::MAX >> (64 - width) as u64),
    ensures
        bits_get(bits_set(w, off, width, v), off, width) == v,
{
    assert(((w & !((u64::MAX >> (64 - width) as u64) << off)) | ((v & (u64::MAX >> (64
        - width) as u64)) << off)) >> off & (u64::MAX >> (64 - width) as u64) == v)
        by (bit_vector)
        requires
            1 <= width,
            off + width <= 64,
            v <= (u64::MAX >> (64 - width) as u64),
    ;
}

pub proof fn lemma_bits_set_other(w: u64, off: u64, width: u64, v: u64, off2: u64, width2: u64)
    requires
        1 <= width,
        off + width <= 64,
        1 <= width2,
        off2 + width2 <= 64,
        off2 + width2 <= off || off + width <= off2,
    ensures
        bits_get(bits_set(w, off, width, v), off2, width2) == bits_get(w, off2, width2),
{
    assert(((w & !((u64::MAX >> (64 - width) as u64) << off)) | ((v & (u64::MAX >> (64
        - width) as u64)) << off)) >> off2 & (u64::MAX >> (64 - width2) as u64) == (w >> off2)
        & (u64::MAX >> (64 - width2) as u64)) by (bit_vector)
        requires
            1 <= width,
            off + width <= 64,
            1 <= width2,
            off2 + width2 <= 64,
            off2 + width2 <= off || off + width <= off2,
    ;
}


/// The state bit of an object header.
#[derive(PartialEq, Eq, Clone, Copy, Debug, Structural)]
pub enum GcState {
    Unmarked,
    Marked,
}

impl GcState {
    pub open spec fn spec_bits(self) -> u64 {
        match self {
            GcState::Unmarked => 0,
            GcState::Marked => 1,
        }
    }

    /// The state that a header bit stands for.
    pub fn from_bits(value: u64) -> (s: GcState)
        requires
            value <= 1,
        ensures
            s.spec_bits() == value,
    {
        if value == 0 {
            GcState::Unmarked
        } else {
            GcState::Marked
        }
    }

    /// The header bit of a state.
    pub fn into_bits(self) -> (v: u64)
        ensures
            v == self.spec_bits(),
    {
        match self {
            GcState::Unmarked => 0,
            GcState::Marked => 1,
        }
    }
}

/// The largest value a field of `width` bits holds.
pub open spec fn field_max(width: u64) -> u64 {
    u64::MAX >> (64 - width) as u64
}

pub proof fn lemma_hash_bits_zero()
    ensures
        hash_bits(0) == 0,
{
    lemma_field_max_values();
    assert(0u64 & 0x3fff_ffffu64 == 0) by (bit_vector);
}

pub proof fn lemma_and_le(x: u64, m: u64)
    ensures
        x & m <= m,
{
    assert(x & m <= m) by (bit_vector);
}

pub proof fn lemma_field_max_values()
    ensures
        field_max(10) == 0x3ff,
        field_max(1) == 1,
        field_max(30) == 0x3fff_ffff,
        field_max(23) == 0x7f_ffff,
{
    assert(u64::MAX >> 54u64 == 0x3ffu64 && u64::MAX >> 63u64 == 1u64 && u64::MAX >> 34u64
        == 0x3fff_ffffu64 && u64::MAX >> 41u64 == 0x7f_ffffu64) by (bit_vector);
}

/// The header word at the start of every object: class id (bits 0..10),
/// state (bit 10), identity hash code (bits 11..41, two's complement) and
/// size in bytes (bits 41..64).
#[derive(PartialEq, Eq, Clone, Copy, Debug, Structural)]
pub struct Header(pub u64);

pub open spec fn hash_bits(v: i32) -> u64 {
    (v as u64) & field_max(30)
}

impl Header {
    pub fn new() -> (h: Header)
        ensures
            h.0 == 0,
    {
        Header(0)
    }

    pub fn with_class_id(self, value: usize) -> (h: Header)
        requires
            value < 1024,
        ensures
            h.0 == bits_set(self.0, 0, 10, value as u64),
    {
        let v = value as u64;
        let mask: u64 = 0x3ff;
        proof { lemma_field_max_values(); }
        Header((self.0 & !(mask << 0u64)) | ((v & mask) << 0u64))
    }

    pub fn class_id(&self) -> (v: usize)
        ensures
            v == bits_get(self.0, 0, 10),
    {
        let mask: u64 = 0x3ff;
        proof { lemma_field_max_values(); }
        let w = (self.0 >> 0u64) & mask;
        proof { lemma_and_le((self.0 >> 0u64), mask); }
        w as usize
    }

    pub fn with_state(self, state: GcState) -> (h: Header)
        ensures
            h.0 == bits_set(self.0, 10, 1, state.spec_bits()),
    {
        let v = state.into_bits();
        let mask: u64 = 1;
        proof { lemma_field_max_values(); }
        Header((self.0 & !(mask << 10u64)) | ((v & mask) << 10u64))
    }

    pub fn state(&self) -> (s: GcState)
        ensures
            s.spec_bits() == bits_get(self.0, 10, 1),
    {
        let mask: u64 = 1;
        proof { lemma_field_max_values(); }
        let w = (self.0 >> 10u64) & mask;
        proof { lemma_and_le((self.0 >> 10u64), mask); }
        GcState::from_bits(w)
    }

    pub fn with_identity_hash_code(self, value: i32) -> (h: Header)
        requires
            -0x2000_0000 <= value <= 0x1fff_ffff,
        ensures
            h.0 == bits_set(self.0, 11, 30, hash_bits(value)),
    {
        let mask: u64 = 0x3fff_ffff;
        proof { lemma_field_max_values(); }
        let v = (value as u64) & mask;
        Header((self.0 & !(mask << 11u64)) | ((v & mask) << 11u64))
    }

    pub fn with_size(self, value: usize) -> (h: Header)
        requires
            value < 0x80_0000,
        ensures
            h.0 == bits_set(self.0, 41, 23, value as u64),
    {
        let v = value as u64;
        let mask: u64 = 0x7f_ffff;
        proof { lemma_field_max_values(); }
        Header((self.0 & !(mask << 41u64)) | ((v & mask) << 41u64))
    }

    pub fn size(&self) -> (v: usize)
        ensures
            v == bits_get(self.0, 41, 23),
    {
        let mask: u64 = 0x7f_ffff;
        proof { lemma_field_max_values(); }
        let w = (self.0 >> 41u64) & mask;
        proof { lemma_and_le((self.0 >> 41u64), mask); }
        w as usize
    }
}

/// The header word of a freshly allocated object: unmarked, hash code 0.
pub open spec fn fresh_header(class_id: u64, size: u64) -> u64 {
    bits_set(bits_set(bits_set(bits_set(0, 0, 10, class_id), 10, 1, 0), 11, 30, hash_bits(0)), 41, 23, size)
}

/// A fresh header holds the class id and size it was made with, unmarked
/// and with hash code 0.
pub proof fn law_fresh_header_fields(class_id: u64, size: u64)
    requires
        class_id < 1024,
        size < 0x80_0000,
    ensures
        bits_get(fresh_header(class_id, size), 0, 10) == class_id,
        bits_get(fresh_header(class_id, size), 10, 1) == 0,
        bits_get(fresh_header(class_id, size), 11, 30) == 0,
        bits_get(fresh_header(class_id, size), 41, 23) == size,
{
    lemma_field_max_values();
    let w1 = bits_set(0, 0, 10, class_id);
    let w2 = bits_set(w1, 10, 1, 0);
    lemma_hash_bits_zero();
    let w3 = bits_set(w2, 11, 30, hash_bits(0));
    let w4 = bits_set(w3, 41, 23, size);
    lemma_bits_get_set(w3, 41, 23, size);
    lemma_bits_set_other(w3, 41, 23, size, 0, 10);
    lemma_bits_set_other(w3, 41, 23, size, 10, 1);
    lemma_bits_set_other(w3, 41, 23, size, 11, 30);
    lemma_bits_get_set(w2, 11, 30, 0);
    lemma_bits_set_other(w2, 11, 30, 0, 0, 10);
    lemma_bits_set_other(w2, 11, 30, 0, 10, 1);
    lemma_bits_get_set(w1, 10, 1, 0);
    lemma_bits_set_other(w1, 10, 1, 0, 0, 10);
    lemma_bits_get_set(0, 0, 10, class_id);
}


/// Memory after `bs` has been written at address `a`.
pub open spec fn write_bytes(mem: Seq<u8>, a: int, bs: Seq<u8>) -> Seq<u8> {
    Seq::new(mem.len(), |i: int| if a <= i < a + bs.len() { bs[i - a] } else { mem[i] })
}

/// The little-endian bytes of a 16-bit value.
pub open spec fn u16_bytes(v: u16) -> Seq<u8> {
    seq![v as u8, (v >> 8u16) as u8]
}

/// The little-endian bytes of a 32-bit value.
pub open spec fn u32_bytes(v: u32) -> Seq<u8> {
    seq![v as u8, (v >> 8u32) as u8, (v >> 16u32) as u8, (v >> 24u32) as u8]
}

/// The little-endian bytes of a 64-bit value.
pub open spec fn u64_bytes(v: u64) -> Seq<u8> {
    seq![
        v as u8,
        (v >> 8u64) as u8,
        (v >> 16u64) as u8,
        (v >> 24u64) as u8,
        (v >> 32u64) as u8,
        (v >> 40u64) as u8,
        (v >> 48u64) as u8,
        (v >> 56u64) as u8,
    ]
}

pub open spec fn join_u16(b0: u8, b1: u8) -> u16 {
    (b0 as u16) | ((b1 as u16) << 8u16)
}

pub open spec fn join_u32(b0: u8, b1: u8, b2: u8, b3: u8) -> u32 {
    (b0 as u32) | ((b1 as u32) << 8u32) | ((b2 as u32) << 16u32) | ((b3 as u32) << 24u32)
}

pub open spec fn join_u64(b0: u8, b1: u8, b2: u8, b3: u8, b4: u8, b5: u8, b6: u8, b7: u8) -> u64 {
    (b0 as u64) | ((b1 as u64) << 8u64) | ((b2 as u64) << 16u64) | ((b3 as u64) << 24u64) | ((
    b4 as u64) << 32u64) | ((b5 as u64) << 40u64) | ((b6 as u64) << 48u64) | ((b7 as u64)
        << 56u64)
}

/// The 16-bit little-endian value stored at address `a`.
pub open spec fn read_u16(mem: Seq<u8>, a: int) -> u16 {
    join_u16(mem[a], mem[a + 1])
}

/// The 32-bit little-endian value stored at address `a`.
pub open spec fn read_u32(mem: Seq<u8>, a: int) -> u32 {
    join_u32(mem[a], mem[a + 1], mem[a + 2], mem[a + 3])
}

/// The 64-bit little-endian value stored at address `a`.
pub open spec fn read_u64(mem: Seq<u8>, a: int) -> u64 {
    join_u64(mem[a], mem[a + 1], mem[a + 2], mem[a + 3], mem[a + 4], mem[a + 5], mem[a + 6], mem[a + 7])
}

pub proof fn lemma_join_split_u16(v: u16)
    ensures
        join_u16(v as u8, (v >> 8u16) as u8) == v,
{
    assert((v as u8) as u16 | ((((v >> 8u16) as u8) as u16) << 8u16) == v) by (bit_vector);
}

pub proof fn lemma_join_split_u32(v: u32)
    ensures
        join_u32(v as u8, (v >> 8u32) as u8, (v >> 16u32) as u8, (v >> 24u32) as u8) == v,
{
    assert((v as u8) as u32 | ((((v >> 8u32) as u8) as u32) << 8u32) | ((((v >> 16u32) as u8) as u32)
        << 16u32) | ((((v >> 24u32) as u8) as u32) << 24u32) == v) by (bit_vector);
}

pub proof fn lemma_join_split_u64(v: u64)
    ensures
        join_u64(
            v as u8,
            (v >> 8u64) as u8,
            (v >> 16u64) as u8,
            (v >> 24u64) as u8,
            (v >> 32u64) as u8,
            (v >> 40u64) as u8,
            (v >> 48u64) as u8,
            (v >> 56u64) as u8,
        ) == v,
{
    assert((v as u8) as u64 | ((((v >> 8u64) as u8) as u64) << 8u64) | ((((v >> 16u64) as u8) as u64)
        << 16u64) | ((((v >> 24u64) as u8) as u64) << 24u64) | ((((v >> 32u64) as u8) as u64)
        << 32u64) | ((((v >> 40u64) as u8) as u64) << 40u64) | ((((v >> 48u64) as u8) as u64)
        << 48u64) | ((((v >> 56u64) as u8) as u64) << 56u64) == v) by (bit_vector);
}

/// A 16-bit value read back where it was written is the value written.
pub proof fn law_read_after_write_u16(mem: Seq<u8>, a: int, v: u16)
    requires
        0 <= a,
        a + 2 <= mem.len(),
    ensures
        read_u16(write_bytes(mem, a, u16_bytes(v)), a) == v,
{
    lemma_join_split_u16(v);
}

/// A 32-bit value read back where it was written is the value written.
pub proof fn law_read_after_write_u32(mem: Seq<u8>, a: int, v: u32)
    requires
        0 <= a,
        a + 4 <= mem.len(),
    ensures
        read_u32(write_bytes(mem, a, u32_bytes(v)), a) == v,
{
    lemma_join_split_u32(v);
}

/// A 64-bit value read back where it was written is the value written.
pub proof fn law_read_after_write_u64(mem: Seq<u8>, a: int, v: u64)
    requires
        0 <= a,
        a + 8 <= mem.len(),
    ensures
        read_u64(write_bytes(mem, a, u64_bytes(v)), a) == v,
{
    lemma_join_split_u64(v);
}

/// A write leaves every byte outside the written range as it was.
pub proof fn law_write_keeps_other_bytes(mem: Seq<u8>, a: int, bs: Seq<u8>, i: int)
    requires
        0 <= i < mem.len(),
        i < a || a + bs.len() <= i,
    ensures
        write_bytes(mem, a, bs)[i] == mem[i],
        write_bytes(mem, a, bs).len() == mem.len(),
{
}

/// `x` rounded up to a multiple of 8.
pub open spec fn align8(x: int) -> int {
    (x + 7) - (x + 7) % 8
}

/// The heap with `size` zeroed bytes handed out past its end, from an
/// address aligned to 8.
pub open spec fn grown(mem: Seq<u8>, size: int) -> Seq<u8> {
    mem + Seq::new((align8(mem.len() as int) + size - mem.len()) as nat, |i: int| 0u8)
}

/// The int 0 stored in each of the first `n` field slots of the object at `p`.
pub open spec fn zero_fields(mem: Seq<u8>, p: int, n: nat) -> Seq<u8>
    decreases n,
{
    if n == 0 {
        mem
    } else {
        write_bytes(zero_fields(mem, p, (n - 1) as nat), p + 8 + 8 * (n - 1), u32_bytes(0))
    }
}

/// 16-bit words written one after the other from address `a` on.
pub open spec fn write_units(mem: Seq<u8>, a: int, units: Seq<u16>) -> Seq<u8>
    decreases units.len(),
{
    if units.len() == 0 {
        mem
    } else {
        write_bytes(write_units(mem, a, units.drop_last()), a + 2 * (units.len() - 1), u16_bytes(units.last()))
    }
}

/// The bytes that a value occupies when it is stored in a field.
pub open spec fn value_bytes(v: JvmValue) -> Seq<u8> {
    match v {
        JvmValue::Boolean(b) => seq![b],
        JvmValue::Byte(b) => seq![b],
        JvmValue::Short(s) => u16_bytes(s),
        JvmValue::Int(i) => u32_bytes(i),
        JvmValue::Long(l) => u64_bytes(l),
        JvmValue::Float(f) => u64_bytes(f),
        JvmValue::Double(d) => u64_bytes(d),
        JvmValue::Char(c) => u16_bytes(c),
        JvmValue::ObjRef(p) => u64_bytes(p.0),
        JvmValue::Null => seq![0u8],
    }
}

/// An allocation error type
#[derive(Copy, Clone, Debug, PartialEq, Eq, Structural)]
pub enum AllocError {
    /// Some attribute of the allocation, most likely the size requested,
    /// could not be fulfilled
    BadRequest,
    /// Out of memory - allocating the space failed
    OOM,
}

/// An allocation on our memory chunk
pub struct AllocEntry {
    pub(crate) ptr: RawPtr,
    pub(crate) alloc_size: usize,
}

/// A region of the address space that hands out memory by bumping a
/// pointer: `memory` is the address where the region starts.
#[derive(Debug)]
struct MemoryChunk {
    memory: u64,
    used: usize,
    capacity: usize,
}

/// What allocating `size` bytes from a chunk gives: the new fill level, and
/// the address of the allocation, or `None` when the chunk has no room.
pub open spec fn chunk_alloc(start: int, used: int, capacity: int, size: int) -> (int, Option<RawPtr>) {
    if used + size > capacity {
        (used, None)
    } else {
        (used + size, Some(RawPtr((start + used) as u64)))
    }
}

/// Two allocations that succeed one after the other from the same chunk
/// do not overlap: the second starts where the first ends.
pub proof fn law_chunk_allocations_disjoint(start: int, used: int, capacity: int, s1: int, s2: int)
    requires
        0 <= start,
        0 <= used,
        0 <= s1,
        0 <= s2,
        start + capacity <= u64::MAX,
        chunk_alloc(start, used, capacity, s1).1 is Some,
        chunk_alloc(start, chunk_alloc(start, used, capacity, s1).0, capacity, s2).1 is Some,
    ensures
        (chunk_alloc(start, used, capacity, s1).1->0).0 + s1 <= (chunk_alloc(
            start,
            chunk_alloc(start, used, capacity, s1).0,
            capacity,
            s2,
        ).1->0).0,
{
}

/// A run of allocation requests of the given sizes on a chunk that starts
/// empty: the fill level after them, and for each whether it was granted.
pub open spec fn chunk_run(start: int, capacity: int, sizes: Seq<int>) -> (int, Seq<bool>)
    decreases sizes.len(),
{
    if sizes.len() == 0 {
        (0, Seq::empty())
    } else {
        let (used, granted) = chunk_run(start, capacity, sizes.drop_last());
        let (next, p) = chunk_alloc(start, used, capacity, sizes.last());
        (next, granted.push(p is Some))
    }
}

/// The sum of the sizes whose request was granted.
pub open spec fn granted_total(sizes: Seq<int>, granted: Seq<bool>) -> int
    decreases sizes.len(),
{
    if sizes.len() == 0 {
        0
    } else {
        granted_total(sizes.drop_last(), granted.drop_last()) + (if granted.last() { sizes.last() } else { 0 })
    }
}

/// On a chunk that starts empty, the fill level is the sum of the sizes
/// granted so far, and a request is granted exactly when that sum and its
/// size fit in the capacity; a refused request takes nothing.
pub proof fn law_chunk_run(start: int, capacity: int, sizes: Seq<int>)
    ensures
        chunk_run(start, capacity, sizes).1.len() == sizes.len(),
        chunk_run(start, capacity, sizes).0 == granted_total(sizes, chunk_run(start, capacity, sizes).1),
        forall|k: int| 0 <= k < sizes.len() ==> (#[trigger] chunk_run(start, capacity, sizes).1[k] <==> granted_total(
            sizes.take(k),
            chunk_run(start, capacity, sizes).1.take(k),
        ) + sizes[k] <= capacity),
    decreases sizes.len(),
{
    if sizes.len() > 0 {
        let front = sizes.drop_last();
        law_chunk_run(start, capacity, front);
        let (used, granted) = chunk_run(start, capacity, front);
        let all = chunk_run(start, capacity, sizes).1;
        assert(all.drop_last() =~= granted);
        assert forall|k: int| 0 <= k < sizes.len() implies (#[trigger] all[k] <==> granted_total(sizes.take(k), all.take(k))
            + sizes[k] <= capacity) by {
            if k < front.len() {
                assert(sizes.take(k) =~= front.take(k));
                assert(all.take(k) =~= granted.take(k));
                assert(all[k] == granted[k]);
            } else {
                assert(sizes.take(k) =~= front);
                assert(all.take(k) =~= granted);
            }
        }
    }
}

/// Appends `n` zero bytes to `memory`.
fn append_zeroes(memory: &mut Vec<u8>, n: usize)
    requires
        old(memory)@.len() + n <= usize::MAX,
    ensures
        final(memory)@ == old(memory)@ + Seq::new(n as nat, |i: int| 0u8),
{
    let mut k: usize = 0;
    while k < n
        invariant
            k <= n,
            memory@ == old(memory)@ + Seq::new(k as nat, |i: int| 0u8),
            old(memory)@.len() + n <= usize::MAX,
        decreases n - k,
    {
        memory.push(0u8);
        k = k + 1;
        assert(memory@ =~= old(memory)@ + Seq::new(k as nat, |i: int| 0u8));
    }
}

impl MemoryChunk {
    /// A new chunk of `capacity` zeroed bytes, placed at the end of the address space.
    fn new(memory: &mut Vec<u8>, capacity: usize) -> (c: MemoryChunk)
        requires
            old(memory)@.len() + capacity <= usize::MAX,
        ensures
            final(memory)@ == old(memory)@ + Seq::new(capacity as nat, |i: int| 0u8),
            c.memory == old(memory)@.len(),
            c.used == 0,
            c.capacity == capacity,
    {
        let start = memory.len();
        append_zeroes(memory, capacity);
        MemoryChunk { memory: start as u64, capacity, used: 0 }
    }

    /// Allocates from the chunk, or returns None if there is not enough space
    fn allocate(&mut self, required_size: usize) -> (p: Option<RawPtr>)
        requires
            old(self).used + required_size <= usize::MAX,
            old(self).used + required_size > old(self).capacity || required_size % 8 == 0,
            old(self).memory + old(self).capacity <= u64::MAX,
        ensures
            final(self).memory == old(self).memory,
            final(self).capacity == old(self).capacity,
            (final(self).used as int, p) == chunk_alloc(
                old(self).memory as int,
                old(self).used as int,
                old(self).capacity as int,
                required_size as int,
            ),
    {
        if self.used + required_size > self.capacity {
            return None;
        }
        let ptr = self.memory + self.used as u64;
        self.used = self.used + required_size;
        Some(RawPtr(ptr))
    }

    fn contains(&self, ptr: u64) -> (b: bool)
        ensures
            b == (ptr >= self.memory && ptr <= self.memory + self.used),
    {
        ptr >= self.memory && (ptr - self.memory) <= self.used as u64
    }
}


impl MemoryChunk {
    /// Empties the chunk and zeroes its bytes.
    fn reset(&mut self, memory: &mut Vec<u8>)
        requires
            old(self).memory + old(self).capacity <= old(memory)@.len(),
        ensures
            final(self).used == 0,
            final(self).memory == old(self).memory,
            final(self).capacity == old(self).capacity,
            final(memory)@ == write_bytes(
                old(memory)@,
                old(self).memory as int,
                Seq::new(old(self).capacity as nat, |i: int| 0u8),
            ),
    {
        self.used = 0;
        let _n = memory.len();
        let start = self.memory as usize;
        let mut k: usize = 0;
        while k < self.capacity
            invariant
                k <= self.capacity,
                self.memory == old(self).memory,
                self.capacity == old(self).capacity,
                start == self.memory,
                self.memory + self.capacity <= old(memory)@.len(),
                memory@.len() == old(memory)@.len(),
                old(memory)@.len() <= usize::MAX,
                memory@ == write_bytes(old(memory)@, start as int, Seq::new(k as nat, |i: int| 0u8)),
            decreases self.capacity - k,
        {
            memory.set(start + k, 0u8);
            k = k + 1;
            assert(memory@ =~= write_bytes(old(memory)@, start as int, Seq::new(k as nat, |i: int| 0u8)));
        }
    }
}

/// The heap: one address space of bytes holding two semi-spaces of equal
/// capacity, `cur` (where objects are allocated) and `nxt`, followed by
/// memory handed out outside the semi-spaces. Address 0 is never handed out.
pub struct Heap {
    memory: Vec<u8>,
    cur: MemoryChunk,
    nxt: MemoryChunk,
}

/// The number of bytes of an object header.
pub const HEADER_SIZE: usize = 8;

/// The size of an object with `n_fields` instance fields.
pub open spec fn object_size(n_fields: int) -> int {
    align8(8 + n_fields * 8)
}

/// The size of an array of `length` elements: header, length word, elements.
pub open spec fn array_size(length: int) -> int {
    align8(8 + 8 + length * 8)
}

impl Heap {
    /// The heap's internal consistency.
    pub closed spec fn wf(&self) -> bool {
        &&& self.cur.memory >= 8
        &&& self.cur.memory + self.cur.capacity <= self.memory@.len()
        &&& self.cur.used <= self.cur.capacity
        &&& self.nxt.memory >= 8
        &&& self.nxt.memory + self.nxt.capacity <= self.memory@.len()
        &&& self.nxt.used <= self.nxt.capacity
        &&& self.memory@.len() <= isize::MAX
    }

    /// The contents of the address space, address 0 first.
    pub closed spec fn bytes(&self) -> Seq<u8> {
        self.memory@
    }

    /// Where the current semi-space starts.
    pub closed spec fn cur_start(&self) -> int {
        self.cur.memory as int
    }

    /// How many bytes of the current semi-space are in use.
    pub closed spec fn cur_used(&self) -> int {
        self.cur.used as int
    }

    /// The capacity of each semi-space.
    pub closed spec fn cur_capacity(&self) -> int {
        self.cur.capacity as int
    }

    /// Everything about the heap but the bytes of its address space.
    pub closed spec fn same_layout(&self, other: &Heap) -> bool {
        &&& self.cur.memory == other.cur.memory
        &&& self.cur.used == other.cur.used
        &&& self.cur.capacity == other.cur.capacity
        &&& self.nxt.memory == other.nxt.memory
        &&& self.nxt.used == other.nxt.used
        &&& self.nxt.capacity == other.nxt.capacity
    }

    /// What consistency gives: the address space fits in an `isize`.
    pub proof fn lemma_wf_bounds(&self)
        requires
            self.wf(),
        ensures
            self.bytes().len() <= isize::MAX,
            8 <= self.cur_start(),
            0 <= self.cur_used(),
            self.cur_start() + self.cur_capacity() <= self.bytes().len(),
            self.cur_used() <= self.cur_capacity(),
    {
    }

    /// Having the same layout is reflexive and transitive.
    pub proof fn lemma_same_layout(&self, b: &Heap, c: &Heap)
        ensures
            self.same_layout(self),
            b.same_layout(b),
            c.same_layout(c),
            self.same_layout(b) <==> b.same_layout(self),
            b.same_layout(c) <==> c.same_layout(b),
            self.same_layout(c) <==> c.same_layout(self),
            self.same_layout(b) && b.same_layout(c) ==> self.same_layout(c),
            self.same_layout(b) ==> self.cur_start() == b.cur_start() && self.cur_used() == b.cur_used()
                && self.cur_capacity() == b.cur_capacity(),
    {
    }

    pub fn with_maximum_memory(max_size: usize) -> (h: Self)
        requires
            8 + 2 * (max_size / 2) <= isize::MAX,
        ensures
            h.wf(),
            h.bytes() == Seq::new((8 + 2 * (max_size / 2)) as nat, |i: int| 0u8),
            h.cur_start() == 8,
            h.cur_used() == 0,
            h.cur_capacity() == max_size / 2,
    {
        let semi_space_capacity = max_size / 2;
        let mut memory: Vec<u8> = Vec::new();
        append_zeroes(&mut memory, HEADER_SIZE);
        let cur = MemoryChunk::new(&mut memory, semi_space_capacity);
        let nxt = MemoryChunk::new(&mut memory, semi_space_capacity);
        let h = Self { memory, cur, nxt };
        assert(h.bytes() =~= Seq::new((8 + 2 * (max_size / 2)) as nat, |i: int| 0u8));
        h
    }

    /// The size of the address space.
    pub fn memory_len(&self) -> (n: usize)
        ensures
            n == self.bytes().len(),
    {
        self.memory.len()
    }

    pub fn read_u8(&self, addr: u64) -> (v: u8)
        requires
            addr < self.bytes().len(),
        ensures
            v == self.bytes()[addr as int],
    {
        let _n = self.memory.len();
        self.memory[addr as usize]
    }

    pub fn read_u16(&self, addr: u64) -> (v: u16)
        requires
            addr + 2 <= self.bytes().len(),
        ensures
            v == read_u16(self.bytes(), addr as int),
    {
        let _n = self.memory.len();
        let i = addr as usize;
        (self.memory[i] as u16) | ((self.memory[i + 1] as u16) << 8u16)
    }

    pub fn read_u32(&self, addr: u64) -> (v: u32)
        requires
            addr + 4 <= self.bytes().len(),
        ensures
            v == read_u32(self.bytes(), addr as int),
    {
        let _n = self.memory.len();
        let i = addr as usize;
        (self.memory[i] as u32) | ((self.memory[i + 1] as u32) << 8u32) | ((self.memory[i + 2] as u32)
            << 16u32) | ((self.memory[i + 3] as u32) << 24u32)
    }

    pub fn read_u64(&self, addr: u64) -> (v: u64)
        requires
            addr + 8 <= self.bytes().len(),
        ensures
            v == read_u64(self.bytes(), addr as int),
    {
        let _n = self.memory.len();
        let i = addr as usize;
        (self.memory[i] as u64) | ((self.memory[i + 1] as u64) << 8u64) | ((self.memory[i + 2] as u64)
            << 16u64) | ((self.memory[i + 3] as u64) << 24u64) | ((self.memory[i + 4] as u64)
            << 32u64) | ((self.memory[i + 5] as u64) << 40u64) | ((self.memory[i + 6] as u64)
            << 48u64) | ((self.memory[i + 7] as u64) << 56u64)
    }

    pub fn write_u8(&mut self, addr: u64, v: u8)
        requires
            old(self).wf(),
            addr < old(self).bytes().len(),
        ensures
            final(self).wf(),
            final(self).same_layout(old(self)),
            final(self).bytes() == write_bytes(old(self).bytes(), addr as int, seq![v]),
    {
        let _n = self.memory.len();
        self.memory.set(addr as usize, v);
        assert(self.memory@ =~= write_bytes(old(self).bytes(), addr as int, seq![v]));
    }

    pub fn write_u16(&mut self, addr: u64, v: u16)
        requires
            old(self).wf(),
            addr + 2 <= old(self).bytes().len(),
        ensures
            final(self).wf(),
            final(self).same_layout(old(self)),
            final(self).bytes() == write_bytes(old(self).bytes(), addr as int, u16_bytes(v)),
    {
        let _n = self.memory.len();
        let i = addr as usize;
        self.memory.set(i, v as u8);
        self.memory.set(i + 1, (v >> 8u16) as u8);
        assert(self.memory@ =~= write_bytes(old(self).bytes(), addr as int, u16_bytes(v)));
    }

    pub fn write_u32(&mut self, addr: u64, v: u32)
        requires
            old(self).wf(),
            addr + 4 <= old(self).bytes().len(),
        ensures
            final(self).wf(),
            final(self).same_layout(old(self)),
            final(self).bytes() == write_bytes(old(self).bytes(), addr as int, u32_bytes(v)),
    {
        let _n = self.memory.len();
        let i = addr as usize;
        self.memory.set(i, v as u8);
        self.memory.set(i + 1, (v >> 8u32) as u8);
        self.memory.set(i + 2, (v >> 16u32) as u8);
        self.memory.set(i + 3, (v >> 24u32) as u8);
        assert(self.memory@ =~= write_bytes(old(self).bytes(), addr as int, u32_bytes(v)));
    }

    pub fn write_u64(&mut self, addr: u64, v: u64)
        requires
            old(self).wf(),
            addr + 8 <= old(self).bytes().len(),
        ensures
            final(self).wf(),
            final(self).same_layout(old(self)),
            final(self).bytes() == write_bytes(old(self).bytes(), addr as int, u64_bytes(v)),
    {
        let _n = self.memory.len();
        let i = addr as usize;
        self.memory.set(i, v as u8);
        self.memory.set(i + 1, (v >> 8u64) as u8);
        self.memory.set(i + 2, (v >> 16u64) as u8);
        self.memory.set(i + 3, (v >> 24u64) as u8);
        self.memory.set(i + 4, (v >> 32u64) as u8);
        self.memory.set(i + 5, (v >> 40u64) as u8);
        self.memory.set(i + 6, (v >> 48u64) as u8);
        self.memory.set(i + 7, (v >> 56u64) as u8);
        assert(self.memory@ =~= write_bytes(old(self).bytes(), addr as int, u64_bytes(v)));
    }

    /// Stores a value at an address, taking as many bytes as its type needs.
    pub fn write_value(&mut self, addr: u64, value: JvmValue)
        requires
            old(self).wf(),
            addr + value_bytes(value).len() <= old(self).bytes().len(),
        ensures
            final(self).wf(),
            final(self).same_layout(old(self)),
            final(self).bytes() == write_bytes(old(self).bytes(), addr as int, value_bytes(value)),
    {
        match value {
            JvmValue::Boolean(val) => self.write_u8(addr, val),
            JvmValue::Byte(val) => self.write_u8(addr, val),
            JvmValue::Short(val) => self.write_u16(addr, val),
            JvmValue::Int(val) => self.write_u32(addr, val),
            JvmValue::Long(val) => self.write_u64(addr, val),
            JvmValue::Float(val) => self.write_u64(addr, val),
            JvmValue::Double(val) => self.write_u64(addr, val),
            JvmValue::Char(val) => self.write_u16(addr, val),
            JvmValue::ObjRef(val) => self.write_u64(addr, val.0),
            JvmValue::Null => self.write_u8(addr, 0),
        }
    }

    /// Hands out `size` zeroed bytes after everything allocated so far,
    /// outside the semi-spaces, starting at an address aligned to 8.
    pub fn alloc_outside(&mut self, size: usize) -> (r: Result<RawPtr, AllocError>)
        requires
            old(self).wf(),
        ensures
            final(self).wf(),
            final(self).same_layout(old(self)),
            r is Ok <==> align8(old(self).bytes().len() as int) + size <= isize::MAX,
            match r {
                Ok(p) => {
                    &&& p.0 == align8(old(self).bytes().len() as int)
                    &&& final(self).bytes() == grown(old(self).bytes(), size as int)
                    &&& p.0 != 0
                    &&& final(self).bytes() == old(self).bytes() + Seq::new(
                        (p.0 + size - old(self).bytes().len()) as nat,
                        |i: int| 0u8,
                    )
                },
                Err(e) => {
                    &&& e == AllocError::OOM
                    &&& align8(old(self).bytes().len() as int) + size > isize::MAX
                    &&& final(self).bytes() == old(self).bytes()
                },
            },
    {
        let len = self.memory.len();
        let pad = (8 - len % 8) % 8;
        let limit = isize::MAX as usize;
        if size > limit - len || pad > limit - len - size {
            return Err(AllocError::OOM);
        }
        let start = len + pad;
        append_zeroes(&mut self.memory, pad + size);
        assert(start == align8(len as int));
        assert(self.memory@ =~= old(self).bytes() + Seq::new(
            (start + size - len) as nat,
            |i: int| 0u8,
        ));
        Ok(RawPtr(start as u64))
    }

    /// Allocates `total_size` bytes in the current semi-space and writes a
    /// fresh header for `class_id` at their start.
    fn alloc_with_header(&mut self, total_size: usize, class_id: usize) -> (r: Result<
        RawPtr,
        AllocError,
    >)
        requires
            old(self).wf(),
            total_size % 8 == 0,
            total_size >= 8,
            class_id < 1024,
            old(self).cur.used + total_size <= usize::MAX,
            total_size < 0x80_0000 || old(self).cur.used + total_size > old(self).cur.capacity,
        ensures
            final(self).wf(),
            final(self).cur_start() == old(self).cur_start(),
            final(self).cur_capacity() == old(self).cur_capacity(),
            (final(self).cur_used(), r.ok()) == chunk_alloc(
                old(self).cur_start(),
                old(self).cur_used(),
                old(self).cur_capacity(),
                total_size as int,
            ),
            match r {
                Ok(p) => final(self).bytes() == write_bytes(
                    old(self).bytes(),
                    p.0 as int,
                    u64_bytes(fresh_header(class_id as u64, total_size as u64)),
                ),
                Err(e) => e == AllocError::OOM && final(self).bytes() == old(self).bytes(),
            },
    {
        let ptr = match self.cur.allocate(total_size) {
            Some(p) => p,
            None => return Err(AllocError::OOM),
        };
        let header = Header::new().with_class_id(class_id).with_state(GcState::Unmarked)
            .with_identity_hash_code(0).with_size(total_size);
        self.write_u64(ptr.0, header.0);
        Ok(ptr)
    }

    /// Rounds a size up to a multiple of 8.
    pub fn align_to_8_bytes(required_size: usize) -> (r: usize)
        requires
            required_size + 7 <= usize::MAX,
        ensures
            r == align8(required_size as int),
    {
        let x = required_size + 7;
        let r = x & !7usize;
        assert(r == x - x % 8) by (bit_vector)
            requires
                r == x & !7usize,
        ;
        r
    }
}


/// The bytes that `Heap::put_field` and `Heap::put_array_element` store for
/// a value: four for an int, eight for a reference.
pub open spec fn slot_bytes(value: JvmValue) -> Seq<u8> {
    match value {
        JvmValue::Int(v) => u32_bytes(v),
        JvmValue::ObjRef(p) => u64_bytes(p.0),
        _ => Seq::empty(),
    }
}

/// Whether `Heap::put_field` and `Heap::put_array_element` can store a value.
pub open spec fn is_slot_value(value: JvmValue) -> bool {
    value is Int || value is ObjRef
}

impl RawPtr {
    pub fn is_null(&self) -> (b: bool)
        ensures
            b == (self.0 == 0),
    {
        self.0 == 0
    }

    /// Writes a value `index` bytes past the address, in as many bytes as its
    /// type needs (one zero byte for null).
    pub fn put_field(&self, heap: &mut Heap, value: JvmValue, index: usize)
        requires
            old(heap).wf(),
            self.0 + index + value_bytes(value).len() <= old(heap).bytes().len(),
        ensures
            final(heap).wf(),
            final(heap).same_layout(old(heap)),
            final(heap).bytes() == write_bytes(
                old(heap).bytes(),
                self.0 + index,
                value_bytes(value),
            ),
    {
        heap.write_value(self.0 + index as u64, value);
    }

    /// The value of the static field at position `index` of a class: null
    /// past the last static field, the field's default when it has no value.
    pub fn get_field_value(&self, klass: &InstanceKlass, index: usize) -> (v: JvmValue)
        ensures
            v == (if index >= klass@.s_fields.len() {
                JvmValue::Null
            } else if index < klass@.s_field_val.len() {
                klass@.s_field_val[index as int]
            } else {
                descriptor_default(klass@.s_fields[index as int].descriptor)
            }),
    {
        let fields = klass.get_static_fields();
        if index >= fields.len() {
            return JvmValue::Null;
        }
        let field = &fields[index];
        assert(fields@.map_values(|f: Field| f@)[index as int] == field@);
        let field_values = klass.get_static_field_values();
        if index < field_values.len() {
            field_values[index]
        } else {
            field.get_default()
        }
    }
}

impl Heap {
    /// Allocates an object of a class in the current semi-space: a header and
    /// an 8-byte slot per instance field, rounded up to 8 bytes.
    pub fn alloc_object(&mut self, klass: &InstanceKlass) -> (r: Result<RawPtr, AllocError>)
        requires
            old(self).wf(),
            klass@.class_id < 1024,
            object_size(klass@.i_fields.len() as int) + old(self).cur_used() <= usize::MAX,
            object_size(klass@.i_fields.len() as int) < 0x80_0000 || old(self).cur_used()
                + object_size(klass@.i_fields.len() as int) > old(self).cur_capacity(),
        ensures
            final(self).wf(),
            final(self).cur_start() == old(self).cur_start(),
            final(self).cur_capacity() == old(self).cur_capacity(),
            (final(self).cur_used(), r.ok()) == chunk_alloc(
                old(self).cur_start(),
                old(self).cur_used(),
                old(self).cur_capacity(),
                object_size(klass@.i_fields.len() as int),
            ),
            match r {
                Ok(p) => final(self).bytes() == write_bytes(
                    old(self).bytes(),
                    p.0 as int,
                    u64_bytes(
                        fresh_header(
                            klass@.class_id as u64,
                            object_size(klass@.i_fields.len() as int) as u64,
                        ),
                    ),
                ),
                Err(e) => e == AllocError::OOM && final(self).bytes() == old(self).bytes(),
            },
    {
        let n = klass.instance_field_count();
        let field_size = n * 8;
        let total_size = Self::align_to_8_bytes(HEADER_SIZE + field_size);
        self.alloc_with_header(total_size, klass.get_class_id())
    }

    /// Allocates an array in the current semi-space: a header, an 8-byte
    /// length word holding `length`, and an 8-byte slot per element.
    pub fn alloc_array(&mut self, klass: &ArrayKlass, length: usize) -> (r: Result<RawPtr, AllocError>)
        requires
            old(self).wf(),
            klass@.class_id < 1024,
            array_size(length as int) + old(self).cur_used() <= usize::MAX,
            array_size(length as int) < 0x80_0000 || old(self).cur_used() + array_size(
                length as int,
            ) > old(self).cur_capacity(),
        ensures
            final(self).wf(),
            final(self).cur_start() == old(self).cur_start(),
            final(self).cur_capacity() == old(self).cur_capacity(),
            (final(self).cur_used(), r.ok()) == chunk_alloc(
                old(self).cur_start(),
                old(self).cur_used(),
                old(self).cur_capacity(),
                array_size(length as int),
            ),
            match r {
                Ok(p) => final(self).bytes() == write_bytes(
                    write_bytes(
                        old(self).bytes(),
                        p.0 as int,
                        u64_bytes(fresh_header(klass@.class_id as u64, array_size(length as int) as u64)),
                    ),
                    p.0 + 8,
                    u64_bytes(length as u64),
                ),
                Err(e) => e == AllocError::OOM && final(self).bytes() == old(self).bytes(),
            },
    {
        let elem_size: usize = 8;
        let total_size = Self::align_to_8_bytes(HEADER_SIZE + 8 + length * elem_size);
        let ptr = self.alloc_with_header(total_size, klass.get_class_id())?;
        self.write_u64(ptr.0 + 8, length as u64);
        Ok(ptr)
    }

    /// Stores an int or a reference in the field slot `field_offset` bytes
    /// after an object's header.
    pub fn put_field(&mut self, obj: RawPtr, field_offset: usize, value: JvmValue)
        requires
            old(self).wf(),
            is_slot_value(value),
            obj.0 + 8 + field_offset + slot_bytes(value).len() <= old(self).bytes().len(),
        ensures
            final(self).wf(),
            final(self).same_layout(old(self)),
            final(self).bytes() == write_bytes(
                old(self).bytes(),
                obj.0 + 8 + field_offset,
                slot_bytes(value),
            ),
    {
        let addr = obj.0 + HEADER_SIZE as u64 + field_offset as u64;
        match value {
            JvmValue::Int(v) => self.write_u32(addr, v),
            JvmValue::ObjRef(ptr) => self.write_u64(addr, ptr.0),
            _ => {},
        }
    }

    /// The int in the field slot `field_offset` bytes after an object's header.
    pub fn get_field(&self, obj: RawPtr, field_offset: usize) -> (v: JvmValue)
        requires
            obj.0 + 8 + field_offset + 4 <= self.bytes().len(),
        ensures
            v == JvmValue::Int(read_u32(self.bytes(), obj.0 + 8 + field_offset)),
    {
        let _n = self.memory.len();
        let addr = obj.0 + HEADER_SIZE as u64 + field_offset as u64;
        JvmValue::Int(self.read_u32(addr))
    }

    /// Stores an int or a reference in element slot `index` of an array.
    pub fn put_array_element(&mut self, arr: RawPtr, index: usize, value: JvmValue)
        requires
            old(self).wf(),
            is_slot_value(value),
            arr.0 + 16 + index * 8 + slot_bytes(value).len() <= old(self).bytes().len(),
        ensures
            final(self).wf(),
            final(self).same_layout(old(self)),
            final(self).bytes() == write_bytes(
                old(self).bytes(),
                arr.0 + 16 + index * 8,
                slot_bytes(value),
            ),
    {
        let addr = arr.0 + HEADER_SIZE as u64 + 8 + (index as u64) * 8;
        match value {
            JvmValue::Int(v) => self.write_u32(addr, v),
            JvmValue::ObjRef(ptr) => self.write_u64(addr, ptr.0),
            _ => {},
        }
    }

    /// The int in element slot `index` of an array.
    pub fn get_array_element(&self, arr: RawPtr, index: usize) -> (v: JvmValue)
        requires
            arr.0 + 16 + index * 8 + 4 <= self.bytes().len(),
        ensures
            v == JvmValue::Int(read_u32(self.bytes(), arr.0 + 16 + index * 8)),
    {
        let _n = self.memory.len();
        let addr = arr.0 + HEADER_SIZE as u64 + 8 + (index as u64) * 8;
        JvmValue::Int(self.read_u32(addr))
    }
}

/// An int stored in an object's field slot is what reading that slot gives.
pub proof fn law_field_read_after_write(mem: Seq<u8>, obj: u64, offset: int, v: u32)
    requires
        0 <= offset,
        obj + 8 + offset + 4 <= mem.len(),
    ensures
        read_u32(write_bytes(mem, obj + 8 + offset, slot_bytes(JvmValue::Int(v))), obj + 8 + offset)
            == v,
{
    law_read_after_write_u32(mem, obj + 8 + offset, v);
}

/// An object that an allocation just handed out holds each of its field
/// slots inside the heap, and an int stored in one of them is what reading
/// that slot gives.
pub proof fn law_allocated_field_reads_back(h: Heap, class_id: u64, n_fields: int, offset: int, v: u32)
    requires
        h.wf(),
        0 <= offset,
        offset % 8 == 0,
        offset < 8 * n_fields,
        chunk_alloc(h.cur_start(), h.cur_used(), h.cur_capacity(), object_size(n_fields)).1 is Some,
    ensures
        ({
            let p = chunk_alloc(h.cur_start(), h.cur_used(), h.cur_capacity(), object_size(n_fields)).1.unwrap();
            let m = write_bytes(h.bytes(), p.0 as int, u64_bytes(fresh_header(class_id, object_size(n_fields) as u64)));
            &&& p.0 + 8 + offset + slot_bytes(JvmValue::Int(v)).len() <= m.len()
            &&& read_u32(write_bytes(m, p.0 + 8 + offset, slot_bytes(JvmValue::Int(v))), p.0 + 8 + offset) == v
        }),
{
    h.lemma_wf_bounds();
    let size = object_size(n_fields);
    let x = 8 + n_fields * 8;
    assert(x <= align8(x)) by {
        assert((x + 7) % 8 <= 7);
    }
    let p = chunk_alloc(h.cur_start(), h.cur_used(), h.cur_capacity(), size).1.unwrap();
    assert(p.0 == h.cur_start() + h.cur_used());
    let m = write_bytes(h.bytes(), p.0 as int, u64_bytes(fresh_header(class_id, size as u64)));
    assert(m.len() == h.bytes().len());
    assert(offset + 8 <= 8 * n_fields);
    law_field_read_after_write(m, p.0, offset, v);
}

/// Writing one field slot leaves the int in every slot that does not overlap it.
pub proof fn law_field_write_keeps_other_slots(
    mem: Seq<u8>,
    obj: u64,
    offset: int,
    value: JvmValue,
    other: int,
)
    requires
        0 <= offset,
        0 <= other,
        is_slot_value(value),
        obj + 8 + offset + slot_bytes(value).len() <= mem.len(),
        obj + 8 + other + 4 <= mem.len(),
        other + 4 <= offset || offset + slot_bytes(value).len() <= other,
    ensures
        read_u32(write_bytes(mem, obj + 8 + offset, slot_bytes(value)), obj + 8 + other) == read_u32(
            mem,
            obj + 8 + other,
        ),
{
    let w = write_bytes(mem, obj + 8 + offset, slot_bytes(value));
    assert(w[obj + 8 + other] == mem[obj + 8 + other]);
    assert(w[obj + 8 + other + 1] == mem[obj + 8 + other + 1]);
    assert(w[obj + 8 + other + 2] == mem[obj + 8 + other + 2]);
    assert(w[obj + 8 + other + 3] == mem[obj + 8 + other + 3]);
}

/// An int stored in an array element slot is what reading that slot gives.
pub proof fn law_array_read_after_write(mem: Seq<u8>, arr: u64, index: int, v: u32)
    requires
        0 <= index,
        arr + 16 + index * 8 + 4 <= mem.len(),
    ensures
        read_u32(write_bytes(mem, arr + 16 + index * 8, slot_bytes(JvmValue::Int(v))), arr + 16 + index * 8)
            == v,
{
    law_read_after_write_u32(mem, arr + 16 + index * 8, v);
}

/// A write leaves every value stored in bytes it does not touch as it was.
pub proof fn lemma_write_frame(mem: Seq<u8>, a: int, bs: Seq<u8>, b: int, n: int)
    requires
        0 <= b,
        b + n <= mem.len(),
        b + n <= a || a + bs.len() <= b,
    ensures
        n >= 2 ==> read_u16(write_bytes(mem, a, bs), b) == read_u16(mem, b),
        n >= 4 ==> read_u32(write_bytes(mem, a, bs), b) == read_u32(mem, b),
        n >= 8 ==> read_u64(write_bytes(mem, a, bs), b) == read_u64(mem, b),
{
    let w = write_bytes(mem, a, bs);
    assert forall|i: int| b <= i < b + n implies w[i] == mem[i] by {}
    if n >= 2 {
        assert(w[b] == mem[b] && w[b + 1] == mem[b + 1]);
    }
    if n >= 4 {
        assert(w[b + 2] == mem[b + 2] && w[b + 3] == mem[b + 3]);
    }
    if n >= 8 {
        assert(w[b + 4] == mem[b + 4] && w[b + 5] == mem[b + 5]);
        assert(w[b + 6] == mem[b + 6] && w[b + 7] == mem[b + 7]);
    }
}

/// Values stored in memory that an extension leaves in place read the same.
pub proof fn lemma_extend_frame(mem: Seq<u8>, more: Seq<u8>, b: int, n: int)
    requires
        0 <= b,
        b + n <= mem.len(),
    ensures
        n >= 2 ==> read_u16(mem + more, b) == read_u16(mem, b),
        n >= 4 ==> read_u32(mem + more, b) == read_u32(mem, b),
        n >= 8 ==> read_u64(mem + more, b) == read_u64(mem, b),
{
    let w = mem + more;
    assert forall|i: int| b <= i < b + n implies w[i] == mem[i] by {}
    if n >= 2 {
        assert(w[b] == mem[b] && w[b + 1] == mem[b + 1]);
    }
    if n >= 4 {
        assert(w[b + 2] == mem[b + 2] && w[b + 3] == mem[b + 3]);
    }
    if n >= 8 {
        assert(w[b + 4] == mem[b + 4] && w[b + 5] == mem[b + 5]);
        assert(w[b + 6] == mem[b + 6] && w[b + 7] == mem[b + 7]);
    }
}

/// The header word that `Header::new().with_class_id(c).with_state(Unmarked)
/// .with_size(s)` makes.
pub open spec fn plain_header(class_id: u64, size: u64) -> u64 {
    bits_set(bits_set(bits_set(0, 0, 10, class_id), 10, 1, 0), 41, 23, size)
}

} // verus!
