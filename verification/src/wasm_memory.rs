use vstd::prelude::*;

use crate::errors::RuntimeError;

verus! {

/// Errors raised while running WASM code.
#[derive(Debug, Clone, PartialEq, Eq)]
pub enum WasmRuntimeError {
    /// A read or write fell outside the instance's linear memory.
    MemoryAccessError,
    /// A returned value was not a pointer to a slice.
    InvalidWasmPointer,
    /// The named export does not exist.
    UnknownExport(String),
    /// Executing the code failed.
    ExecutionError(String),
}

/// An error of an invocation: one of the invoked code itself, or one passed
/// up from a call it made.
#[derive(Debug, Clone, PartialEq, Eq)]
pub enum InvokeError<E> {
    SelfError(E),
    Downstream(RuntimeError),
}

/// A slice of WASM linear memory, packed into one 64-bit word: the pointer in
/// the low 32 bits and the length in the high 32 bits.
#[derive(Debug, Clone, Copy, PartialEq, Eq)]
pub struct Slice(pub u64);

impl Slice {
    /// The pointer of the slice.
    pub open spec fn spec_ptr(self) -> u32 {
        (self.0 % 0x1_0000_0000) as u32
    }

    /// The length of the slice.
    pub open spec fn spec_len(self) -> u32 {
        (self.0 / 0x1_0000_0000) as u32
    }

    pub fn new(ptr: u32, len: u32) -> (r: Self)
        ensures
            r.spec_ptr() == ptr,
            r.spec_len() == len,
    {
        let word: u64 = ((len as u64) << 32u64) | (ptr as u64);
        assert(word % 0x1_0000_0000 == ptr as u64 && word / 0x1_0000_0000 == len as u64)
            by (bit_vector)
            requires
                word == ((len as u64) << 32u64) | (ptr as u64),
        ;
        Slice(word)
    }

    /// Reinterprets a 64-bit WASM value as a slice.
    pub fn transmute_i64(n: i64) -> (r: Self)
        ensures
            r.0 == n as u64,
    {
        Slice(n as u64)
    }

    /// The slice as a 64-bit WASM value.
    pub fn as_i64(&self) -> (r: i64)
        ensures
            r as u64 == self.0,
    {
        let word: u64 = self.0;
        let r: i64 = word as i64;
        assert(r as u64 == word) by (bit_vector)
            requires
                r == word as i64,
        ;
        r
    }

    pub fn ptr(&self) -> (r: u32)
        ensures
            r == self.spec_ptr(),
    {
        let word: u64 = self.0;
        let low: u64 = word & 0xFFFF_FFFFu64;
        assert(low == word % 0x1_0000_0000) by (bit_vector)
            requires
                low == word & 0xFFFF_FFFFu64,
        ;
        low as u32
    }

    pub fn len(&self) -> (r: u32)
        ensures
            r == self.spec_len(),
    {
        let word: u64 = self.0;
        let high: u64 = word >> 32u64;
        assert(high == word / 0x1_0000_0000) by (bit_vector)
            requires
                high == word >> 32u64,
        ;
        high as u32
    }
}

/// Whether the `len` bytes from `ptr` lie within memory of the given size.
pub open spec fn in_bounds(memory_len: int, ptr: int, len: int) -> bool {
    ptr + len <= memory_len
}

/// Copies `len` bytes of memory from `ptr`.
pub fn read_memory(memory: &[u8], ptr: u32, len: u32) -> (r: Result<Vec<u8>, InvokeError<WasmRuntimeError>>)
    ensures
        in_bounds(memory@.len() as int, ptr as int, len as int) ==> (r matches Ok(v) && v@
            == memory@.subrange(ptr as int, ptr + len)),
        !in_bounds(memory@.len() as int, ptr as int, len as int) ==> r == Err::<Vec<u8>, _>(
            InvokeError::SelfError(WasmRuntimeError::MemoryAccessError),
        ),
{
    let ptr = ptr as usize;
    let len = len as usize;
    if ptr > memory.len() || len > memory.len() - ptr {
        return Err(InvokeError::SelfError(WasmRuntimeError::MemoryAccessError));
    }
    let mut out: Vec<u8> = Vec::with_capacity(len);
    let mut i: usize = 0;
    while i < len
        invariant
            i <= len,
            ptr + len <= memory@.len(),
            memory@.len() <= usize::MAX,
            out@ == memory@.subrange(ptr as int, ptr + i),
        decreases len - i,
    {
        out.push(memory[ptr + i]);
        i = i + 1;
        assert(out@ =~= memory@.subrange(ptr as int, ptr + i));
    }
    Ok(out)
}

/// Writes `data` into memory from `ptr`; memory outside the written range,
/// and its size, stay as they were.
pub fn write_memory(memory: &mut Vec<u8>, ptr: u32, data: &[u8]) -> (r: Result<(), InvokeError<WasmRuntimeError>>)
    ensures
        final(memory)@.len() == old(memory)@.len(),
        in_bounds(old(memory)@.len() as int, ptr as int, data@.len() as int) ==> {
            &&& r is Ok
            &&& final(memory)@ == old(memory)@.subrange(0, ptr as int) + data@ + old(memory)@.subrange(
                ptr + data@.len(),
                old(memory)@.len() as int,
            )
        },
        !in_bounds(old(memory)@.len() as int, ptr as int, data@.len() as int) ==> {
            &&& r == Err::<(), _>(InvokeError::SelfError(WasmRuntimeError::MemoryAccessError))
            &&& final(memory)@ == old(memory)@
        },
{
    let ptr = ptr as usize;
    if ptr > memory.len() || data.len() > memory.len() - ptr {
        return Err(InvokeError::SelfError(WasmRuntimeError::MemoryAccessError));
    }
    let ghost before = memory@;
    assert(before.len() <= usize::MAX);
    let mut i: usize = 0;
    while i < data.len()
        invariant
            i <= data@.len(),
            ptr + data@.len() <= before.len(),
            memory@.len() == before.len(),
            before.len() <= usize::MAX,
            forall|k: int| 0 <= k < ptr ==> memory@[k] == before[k],
            forall|k: int| ptr <= k < ptr + i ==> memory@[k] == data@[k - ptr],
            forall|k: int| ptr + i <= k < before.len() ==> memory@[k] == before[k],
        decreases data@.len() - i,
    {
        memory.set(ptr + i, data[i]);
        i = i + 1;
    }
    assert(memory@ =~= before.subrange(0, ptr as int) + data@ + before.subrange(
        ptr + data@.len(),
        before.len() as int,
    ));
    Ok(())
}

/// Copies the bytes of a slice of memory.
pub fn read_slice(memory: &[u8], v: Slice) -> (r: Result<Vec<u8>, InvokeError<WasmRuntimeError>>)
    ensures
        in_bounds(memory@.len() as int, v.spec_ptr() as int, v.spec_len() as int) ==> (r matches Ok(
            bytes,
        ) && bytes@ == memory@.subrange(v.spec_ptr() as int, v.spec_ptr() + v.spec_len())),
        !in_bounds(memory@.len() as int, v.spec_ptr() as int, v.spec_len() as int) ==> r == Err::<
            Vec<u8>,
            _,
        >(InvokeError::SelfError(WasmRuntimeError::MemoryAccessError)),
{
    let ptr = v.ptr();
    let len = v.len();
    read_memory(memory, ptr, len)
}

/// A read of the range just written gives back what was written.
pub proof fn lemma_read_after_write(before: Seq<u8>, ptr: int, data: Seq<u8>)
    requires
        0 <= ptr,
        ptr + data.len() <= before.len(),
    ensures
        ({
            let after = before.subrange(0, ptr) + data + before.subrange(ptr + data.len(), before.len() as int);
            &&& after.len() == before.len()
            &&& after.subrange(ptr, ptr + data.len()) == data
        }),
{
    let after = before.subrange(0, ptr) + data + before.subrange(ptr + data.len(), before.len() as int);
    assert(after.subrange(ptr, ptr + data.len()) =~= data);
}

/// A packed slice gives back the pointer and length it was made from.
pub proof fn lemma_slice_roundtrip(ptr: u32, len: u32, word: u64)
    requires
        word == ((len as u64) << 32u64) | (ptr as u64),
    ensures
        (Slice(word)).spec_ptr() == ptr,
        (Slice(word)).spec_len() == len,
{
    assert(word % 0x1_0000_0000 == ptr as u64 && word / 0x1_0000_0000 == len as u64) by (bit_vector)
        requires
            word == ((len as u64) << 32u64) | (ptr as u64),
    ;
}

/// The sum of all coverage counters.
pub open spec fn counters_sum(area: Seq<u8>) -> int
    decreases area.len(),
{
    if area.len() == 0 {
        0
    } else {
        counters_sum(area.drop_last()) + area.last()
    }
}

proof fn lemma_counters_sum_bound(area: Seq<u8>)
    ensures
        0 <= counters_sum(area) <= 255 * area.len(),
    decreases area.len(),
{
    if area.len() > 0 {
        lemma_counters_sum_bound(area.drop_last());
    }
}

/// Adds a run's coverage counters into the shared coverage area, each counter
/// wrapping at 256, and returns the sum of the area's counters afterwards.
pub fn merge_coverage_counters(area: &mut Vec<u8>, coverage: &[u8]) -> (sum: i32)
    requires
        coverage@.len() <= old(area)@.len(),
        old(area)@.len() <= 0x10000,
    ensures
        final(area)@.len() == old(area)@.len(),
        forall|i: int|
            0 <= i < coverage@.len() ==> #[trigger] final(area)@[i] == ((old(area)@[i] + coverage@[i])
                % 256) as u8,
        forall|i: int| coverage@.len() <= i < old(area)@.len() ==> #[trigger] final(area)@[i] == old(area)@[i],
        sum == counters_sum(final(area)@),
{
    let ghost before = area@;
    let mut i: usize = 0;
    while i < coverage.len()
        invariant
            i <= coverage@.len(),
            coverage@.len() <= before.len(),
            area@.len() == before.len(),
            forall|k: int| 0 <= k < i ==> #[trigger] area@[k] == ((before[k] + coverage@[k]) % 256) as u8,
            forall|k: int| i <= k < before.len() ==> #[trigger] area@[k] == before[k],
        decreases coverage@.len() - i,
    {
        let merged: u8 = area[i].wrapping_add(coverage[i]);
        area.set(i, merged);
        i = i + 1;
    }
    let mut total: i32 = 0;
    let mut j: usize = 0;
    while j < area.len()
        invariant
            j <= area@.len(),
            area@.len() <= 0x10000,
            total == counters_sum(area@.subrange(0, j as int)),
        decreases area@.len() - j,
    {
        proof {
            lemma_counters_sum_bound(area@.subrange(0, j as int));
            assert(area@.subrange(0, j + 1).drop_last() =~= area@.subrange(0, j as int));
        }
        total = total + area[j] as i32;
        j = j + 1;
    }
    assert(area@.subrange(0, area@.len() as int) =~= area@);
    total
}

} // verus!
