//! Linear memory and the bounds-checked typed views over it.
//!
//! A view is a lazy lens, not a captured pointer: it holds no bytes and no
//! length of its own, and every access re-reads the current buffer of the
//! memory it is applied to, so a view stays valid across memory growth.

use vstd::prelude::*;
use vstd::arithmetic::div_mod::lemma_fundamental_div_mod;
use crate::error::{Exception, ExceptionKind};

verus! {

/// The number of bytes in one linear-memory page.
pub const PAGE_SIZE: usize = 65536;

/// An instance's linear memory: a contiguous, growable byte buffer.
pub struct Memory {
    data: Vec<u8>,
}

impl View for Memory {
    type V = Seq<u8>;

    closed spec fn view(&self) -> Seq<u8> {
        self.data@
    }
}

impl Memory {
    /// Allocates a memory of `minimum` pages, zero-filled.
    pub fn new(minimum: usize) -> (r: Memory)
        requires
            minimum * 65536 <= usize::MAX,
        ensures
            r@.len() == minimum * 65536,
            forall|i: int| 0 <= i < r@.len() ==> r@[i] == 0u8,
    {
        let bytes: usize = minimum * 65536;
        let mut data: Vec<u8> = Vec::new();
        let mut i: usize = 0;
        while i < bytes
            invariant
                i <= bytes,
                data@.len() == i,
                forall|j: int| 0 <= j < i ==> data@[j] == 0u8,
            decreases bytes - i,
        {
            data.push(0);
            i = i + 1;
        }
        Memory { data }
    }

    /// The current byte length of the buffer.
    pub fn data_size(&self) -> (r: usize)
        ensures
            r == self@.len(),
    {
        self.data.len()
    }

    /// The current size in whole pages.
    pub fn size(&self) -> (r: usize)
        ensures
            r == self@.len() / 65536,
    {
        self.data.len() / 65536
    }

    /// Grows the memory by `pages` zero-filled pages and returns the previous
    /// size in whole pages. Fails with a `RuntimeError`, leaving the memory
    /// unchanged, exactly when the grown buffer would not be addressable.
    pub fn grow(&mut self, pages: usize) -> (r: Result<usize, Exception>)
        ensures
            r matches Ok(previous) ==> final(self)@.len() == old(self)@.len() + pages * 65536
                && previous == old(self)@.len() / 65536 && (forall|i: int|
                0 <= i < old(self)@.len() ==> final(self)@[i] == old(self)@[i]) && (forall|i: int|
                old(self)@.len() <= i < final(self)@.len() ==> final(self)@[i] == 0u8),
            r is Ok <==> old(self)@.len() + pages * 65536 <= usize::MAX,
            r matches Err(e) ==> final(self)@ == old(self)@ && e.kind
                == ExceptionKind::RuntimeError,
    {
        if pages > (usize::MAX - self.data.len()) / 65536 {
            proof {
                lemma_fundamental_div_mod(usize::MAX - self@.len(), 65536);
            }
            return Err(
                Exception::new(ExceptionKind::RuntimeError, "The grown memory would be too large"),
            );
        }
        proof {
            vstd::arithmetic::mul::lemma_mul_inequality(
                pages as int,
                (usize::MAX - self@.len()) as int / 65536,
                65536,
            );
            lemma_fundamental_div_mod((usize::MAX - self@.len()) as int, 65536);
        }
        let previous: usize = self.data.len() / 65536;
        let bytes: usize = pages * 65536;
        let mut i: usize = 0;
        while i < bytes
            invariant
                i <= bytes,
                self@.len() == old(self)@.len() + i,
                forall|j: int| 0 <= j < old(self)@.len() ==> self@[j] == old(self)@[j],
                forall|j: int| old(self)@.len() <= j < self@.len() ==> self@[j] == 0u8,
                old(self)@.len() + bytes <= usize::MAX,
            decreases bytes - i,
        {
            self.data.push(0);
            i = i + 1;
        }
        Ok(previous)
    }

    /// A view of this memory as unsigned 8-bit elements.
    pub fn uint8_view(&self) -> (r: TypedMemoryView)
        ensures
            r.kind == ViewKind::Uint8,
    {
        TypedMemoryView { kind: ViewKind::Uint8 }
    }

    /// A view of this memory as signed 8-bit elements.
    pub fn int8_view(&self) -> (r: TypedMemoryView)
        ensures
            r.kind == ViewKind::Int8,
    {
        TypedMemoryView { kind: ViewKind::Int8 }
    }

    /// A view of this memory as unsigned 16-bit little-endian elements.
    pub fn uint16_view(&self) -> (r: TypedMemoryView)
        ensures
            r.kind == ViewKind::Uint16,
    {
        TypedMemoryView { kind: ViewKind::Uint16 }
    }

    /// A view of this memory as signed 16-bit little-endian elements.
    pub fn int16_view(&self) -> (r: TypedMemoryView)
        ensures
            r.kind == ViewKind::Int16,
    {
        TypedMemoryView { kind: ViewKind::Int16 }
    }

    /// A view of this memory as unsigned 32-bit little-endian elements.
    pub fn uint32_view(&self) -> (r: TypedMemoryView)
        ensures
            r.kind == ViewKind::Uint32,
    {
        TypedMemoryView { kind: ViewKind::Uint32 }
    }

    /// A view of this memory as signed 32-bit little-endian elements.
    pub fn int32_view(&self) -> (r: TypedMemoryView)
        ensures
            r.kind == ViewKind::Int32,
    {
        TypedMemoryView { kind: ViewKind::Int32 }
    }
}

/// The element type of a typed memory view: a width of 8, 16 or 32 bits, and
/// a signedness.
#[derive(Clone, Copy, PartialEq, Eq, Structural, Debug)]
pub enum ViewKind {
    Int8,
    Uint8,
    Int16,
    Uint16,
    Int32,
    Uint32,
}

/// The number of bytes of one element of the given kind.
pub open spec fn spec_bytes_per_element(kind: ViewKind) -> int {
    match kind {
        ViewKind::Int8 | ViewKind::Uint8 => 1,
        ViewKind::Int16 | ViewKind::Uint16 => 2,
        ViewKind::Int32 | ViewKind::Uint32 => 4,
    }
}

/// Whether elements of the given kind are read as signed.
pub open spec fn spec_is_signed(kind: ViewKind) -> bool {
    match kind {
        ViewKind::Int8 | ViewKind::Int16 | ViewKind::Int32 => true,
        ViewKind::Uint8 | ViewKind::Uint16 | ViewKind::Uint32 => false,
    }
}

/// The element count of a view of kind `kind` over a buffer of `len` bytes.
pub open spec fn spec_view_length(kind: ViewKind, len: int) -> int {
    len / spec_bytes_per_element(kind)
}

/// The unsigned little-endian reading of element `i` of the buffer.
pub open spec fn spec_raw_element(kind: ViewKind, mem: Seq<u8>, i: int) -> int {
    let s = spec_bytes_per_element(kind);
    let b = i * s;
    if s == 1 {
        mem[b] as int
    } else if s == 2 {
        mem[b] as int + 0x100 * (mem[b + 1] as int)
    } else {
        mem[b] as int + 0x100 * (mem[b + 1] as int) + 0x10000 * (mem[b + 2] as int) + 0x1000000 * (
        mem[b + 3] as int)
    }
}

/// The value of element `i` of the buffer under a view of kind `kind`:
/// little-endian, sign-extended for the signed kinds.
pub open spec fn spec_element(kind: ViewKind, mem: Seq<u8>, i: int) -> int {
    let raw = spec_raw_element(kind, mem, i);
    let s = spec_bytes_per_element(kind);
    let half: int = if s == 1 {
        0x80
    } else if s == 2 {
        0x8000
    } else {
        0x80000000
    };
    if spec_is_signed(kind) && raw >= half {
        raw - 2 * half
    } else {
        raw
    }
}

/// The buffer after writing `v`, reduced to the element width, at element
/// `i`: the little-endian bytes of `v` modulo the element's range replace the
/// element's bytes and nothing else changes.
pub open spec fn spec_store(kind: ViewKind, mem: Seq<u8>, i: int, v: int) -> Seq<u8> {
    let s = spec_bytes_per_element(kind);
    let b = i * s;
    if s == 1 {
        mem.update(b, (v % 0x100) as u8)
    } else if s == 2 {
        mem.update(b, (v % 0x100) as u8).update(b + 1, ((v % 0x10000) / 0x100) as u8)
    } else {
        mem.update(b, (v % 0x100) as u8).update(b + 1, ((v % 0x10000) / 0x100) as u8).update(
            b + 2,
            ((v % 0x1000000) / 0x10000) as u8,
        ).update(b + 3, ((v % 0x100000000) / 0x1000000) as u8)
    }
}

/// A bounds-checked, element-typed window over a memory's byte buffer. The
/// view owns nothing: each operation takes the memory it is applied to, reads
/// its current length, and fails with an `IndexError` out of bounds.
#[derive(Clone, Copy, PartialEq, Eq, Structural, Debug)]
pub struct TypedMemoryView {
    pub kind: ViewKind,
}

impl TypedMemoryView {
    /// The number of bytes of one element: 1, 2 or 4.
    pub fn bytes_per_element(&self) -> (r: usize)
        ensures
            r == spec_bytes_per_element(self.kind),
    {
        match self.kind {
            ViewKind::Int8 | ViewKind::Uint8 => 1,
            ViewKind::Int16 | ViewKind::Uint16 => 2,
            ViewKind::Int32 | ViewKind::Uint32 => 4,
        }
    }

    /// The element count over the current buffer of `mem`.
    pub fn length(&self, mem: &Memory) -> (r: usize)
        ensures
            r == spec_view_length(self.kind, mem@.len() as int),
    {
        mem.data.len() / self.bytes_per_element()
    }

    /// Reads element `index`, failing with an `IndexError` exactly when
    /// `index` is not below the current element count.
    pub fn get(&self, mem: &Memory, index: usize) -> (r: Result<i64, Exception>)
        ensures
            r is Ok <==> index < spec_view_length(self.kind, mem@.len() as int),
            r matches Ok(v) ==> v == spec_element(self.kind, mem@, index as int),
            r matches Err(e) ==> e.kind == ExceptionKind::IndexError,
    {
        let s = self.bytes_per_element();
        let len = mem.data.len() / s;
        if index >= len {
            return Err(Exception::new(ExceptionKind::IndexError, "Out of bound memory access"));
        }
        proof {
            lemma_element_in_bounds(s as int, index as int, mem@.len() as int);
        }
        let b = index * s;
        let raw: u32 = match self.kind {
            ViewKind::Int8 | ViewKind::Uint8 => mem.data[b] as u32,
            ViewKind::Int16 | ViewKind::Uint16 => mem.data[b] as u32 + 0x100 * (mem.data[b + 1]
                as u32),
            ViewKind::Int32 | ViewKind::Uint32 => mem.data[b] as u32 + 0x100 * (mem.data[b + 1]
                as u32) + 0x10000 * (mem.data[b + 2] as u32) + 0x1000000 * (mem.data[b + 3]
                as u32),
        };
        let signed = match self.kind {
            ViewKind::Int8 | ViewKind::Int16 | ViewKind::Int32 => true,
            ViewKind::Uint8 | ViewKind::Uint16 | ViewKind::Uint32 => false,
        };
        let half: u32 = match self.kind {
            ViewKind::Int8 | ViewKind::Uint8 => 0x80,
            ViewKind::Int16 | ViewKind::Uint16 => 0x8000,
            ViewKind::Int32 | ViewKind::Uint32 => 0x80000000,
        };
        if signed && raw >= half {
            Ok((raw as i64) - 2 * (half as i64))
        } else {
            Ok(raw as i64)
        }
    }

    /// Writes `value`, reduced to the element width, at element `index`,
    /// failing with an `IndexError` and leaving the memory unchanged exactly
    /// when `index` is not below the current element count.
    pub fn set(&self, mem: &mut Memory, index: usize, value: i64) -> (r: Result<(), Exception>)
        ensures
            r is Ok <==> index < spec_view_length(self.kind, old(mem)@.len() as int),
            r is Ok ==> final(mem)@ == spec_store(self.kind, old(mem)@, index as int, value as int),
            r matches Err(e) ==> final(mem)@ == old(mem)@ && e.kind == ExceptionKind::IndexError,
    {
        let s = self.bytes_per_element();
        let len = mem.data.len() / s;
        if index >= len {
            return Err(Exception::new(ExceptionKind::IndexError, "Out of bound memory access"));
        }
        proof {
            lemma_element_in_bounds(s as int, index as int, mem@.len() as int);
        }
        let b = index * s;
        let u: u64 = if value < 0 {
            (((value as i128) + 0x10000000000000000) as u64)
        } else {
            value as u64
        };
        proof {
            lemma_low_bytes_of_pattern(value as int, u as int);
        }
        match self.kind {
            ViewKind::Int8 | ViewKind::Uint8 => {
                mem.data[b] = (u % 0x100) as u8;
            },
            ViewKind::Int16 | ViewKind::Uint16 => {
                mem.data[b] = (u % 0x100) as u8;
                mem.data[b + 1] = ((u % 0x10000) / 0x100) as u8;
            },
            ViewKind::Int32 | ViewKind::Uint32 => {
                mem.data[b] = (u % 0x100) as u8;
                mem.data[b + 1] = ((u % 0x10000) / 0x100) as u8;
                mem.data[b + 2] = ((u % 0x1000000) / 0x10000) as u8;
                mem.data[b + 3] = ((u % 0x100000000) / 0x1000000) as u8;
            },
        }
        Ok(())
    }

    /// Reads all elements `0..length()` of the current buffer, first to last.
    pub fn each(&self, mem: &Memory) -> (r: Vec<i64>)
        ensures
            r@.len() == spec_view_length(self.kind, mem@.len() as int),
            forall|i: int|
                0 <= i < r@.len() ==> #[trigger] r@[i] == spec_element(self.kind, mem@, i),
    {
        let len = self.length(mem);
        let mut out: Vec<i64> = Vec::new();
        let mut i: usize = 0;
        while i < len
            invariant
                i <= len,
                len == spec_view_length(self.kind, mem@.len() as int),
                out@.len() == i,
                forall|j: int|
                    0 <= j < i ==> #[trigger] out@[j] == spec_element(self.kind, mem@, j),
            decreases len - i,
        {
            let v = match self.get(mem, i) {
                Ok(v) => v,
                Err(_) => 0,
            };
            out.push(v);
            i = i + 1;
        }
        out
    }
}

/// Law: writing a value at an element and reading the same element back gives
/// the value reduced to the element's range — its low bits, sign-extended for
/// the signed kinds — and the write never changes the buffer's length.
pub proof fn lemma_get_after_set(kind: ViewKind, mem: Seq<u8>, i: int, v: int)
    requires
        0 <= i,
        (i + 1) * spec_bytes_per_element(kind) <= mem.len(),
    ensures
        ({
            let stored = spec_store(kind, mem, i, v);
            let s = spec_bytes_per_element(kind);
            let range: int = if s == 1 {
                0x100
            } else if s == 2 {
                0x10000
            } else {
                0x100000000
            };
            let u = v % range;
            stored.len() == mem.len() && spec_element(kind, stored, i) == (if spec_is_signed(kind)
                && u >= range / 2 {
                u - range
            } else {
                u
            })
        }),
{
    let s = spec_bytes_per_element(kind);
    vstd::arithmetic::div_mod::lemma_mod_bound(v, 0x100);
    vstd::arithmetic::div_mod::lemma_mod_bound(v, 0x10000);
    vstd::arithmetic::div_mod::lemma_mod_bound(v, 0x1000000);
    vstd::arithmetic::div_mod::lemma_mod_bound(v, 0x100000000);
    assert(i * s >= 0) by (nonlinear_arith)
        requires
            0 <= i,
            s >= 1,
    ;
    assert(i * s + s == (i + 1) * s) by (nonlinear_arith);
    if s == 2 {
        let w = v % 0x10000;
        vstd::arithmetic::div_mod::lemma_mod_mod(v, 0x100, 0x100);
        lemma_fundamental_div_mod(w, 0x100);
        vstd::arithmetic::div_mod::lemma_mod_bound(w, 0x100);
        vstd::arithmetic::div_mod::lemma_div_pos_is_pos(w, 0x100);
        vstd::arithmetic::div_mod::lemma_div_is_ordered(w, 0xffff, 0x100);
    } else if s == 4 {
        let w = v % 0x100000000;
        vstd::arithmetic::div_mod::lemma_mod_mod(v, 0x100, 0x1000000);
        vstd::arithmetic::div_mod::lemma_mod_mod(v, 0x10000, 0x10000);
        vstd::arithmetic::div_mod::lemma_mod_mod(v, 0x1000000, 0x100);
        lemma_fundamental_div_mod(w, 0x1000000);
        vstd::arithmetic::div_mod::lemma_mod_bound(w, 0x1000000);
        let w2 = w % 0x1000000;
        lemma_fundamental_div_mod(w2, 0x10000);
        vstd::arithmetic::div_mod::lemma_mod_mod(w, 0x10000, 0x100);
        vstd::arithmetic::div_mod::lemma_mod_bound(w2, 0x10000);
        let w3 = w2 % 0x10000;
        lemma_fundamental_div_mod(w3, 0x100);
        vstd::arithmetic::div_mod::lemma_mod_mod(w2, 0x100, 0x100);
        vstd::arithmetic::div_mod::lemma_div_pos_is_pos(w, 0x1000000);
        vstd::arithmetic::div_mod::lemma_div_is_ordered(w, 0xffffffff, 0x1000000);
        vstd::arithmetic::div_mod::lemma_div_pos_is_pos(w2, 0x10000);
        vstd::arithmetic::div_mod::lemma_div_is_ordered(w2, 0xffffff, 0x10000);
        vstd::arithmetic::div_mod::lemma_div_pos_is_pos(w3, 0x100);
        vstd::arithmetic::div_mod::lemma_div_is_ordered(w3, 0xffff, 0x100);
    }
}

/// An element strictly below the element count lies wholly inside the buffer.
proof fn lemma_element_in_bounds(s: int, index: int, len: int)
    requires
        s >= 1,
        0 <= index,
        0 <= len,
        index < len / s,
    ensures
        index * s + s <= len,
{
    lemma_fundamental_div_mod(len, s);
    vstd::arithmetic::div_mod::lemma_mod_bound(len, s);
    vstd::arithmetic::mul::lemma_mul_inequality(index + 1, len / s, s);
    assert((index + 1) * s == index * s + s) by (nonlinear_arith);
}

/// The unsigned 64-bit pattern of an integer keeps its low bytes: the two
/// values agree modulo every byte-aligned power of two up to 2^32.
proof fn lemma_low_bytes_of_pattern(v: int, u: int)
    requires
        u == v || u == v + 0x10000000000000000,
    ensures
        u % 0x100 == v % 0x100,
        u % 0x10000 == v % 0x10000,
        u % 0x1000000 == v % 0x1000000,
        u % 0x100000000 == v % 0x100000000,
{
    if u == v + 0x10000000000000000 {
        vstd::arithmetic::div_mod::lemma_mod_multiples_vanish(0x100000000000000, v, 0x100);
        vstd::arithmetic::div_mod::lemma_mod_multiples_vanish(0x1000000000000, v, 0x10000);
        vstd::arithmetic::div_mod::lemma_mod_multiples_vanish(0x10000000000, v, 0x1000000);
        vstd::arithmetic::div_mod::lemma_mod_multiples_vanish(0x100000000, v, 0x100000000);
    }
}

} // verus!
