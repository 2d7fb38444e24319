use vstd::prelude::*;

use crate::errors::CryptoError;

verus! {

/// Size of one chunk: the memory budget divided evenly over the workers, so
/// that `worker_count` concurrently buffered chunks never exceed the budget.
pub open spec fn chunk_size_spec(worker_count: u64, memory_budget: u64) -> int {
    memory_budget as int / worker_count as int
}

/// Number of chunks a file of `file_size` bytes is split into: the ceiling
/// of `file_size / chunk_size`.
pub open spec fn num_chunks_spec(file_size: u64, chunk_size: u64) -> int {
    file_size as int / chunk_size as int + if file_size as int % chunk_size as int == 0 {
        0int
    } else {
        1int
    }
}

/// A worker count and memory budget can be used only if they yield chunks of
/// at least one byte.
pub open spec fn valid_config(worker_count: u64, memory_budget: u64) -> bool {
    worker_count >= 1 && chunk_size_spec(worker_count, memory_budget) >= 1
}

/// First byte offset of chunk `i`.
pub open spec fn chunk_start(chunk_size: u64, i: int) -> int {
    i * chunk_size
}

/// One-past-the-last byte offset of chunk `i`.
pub open spec fn chunk_end(file_size: u64, chunk_size: u64, i: int) -> int {
    vstd::math::min(i * chunk_size + chunk_size, file_size as int)
}

/// The deterministic partition of a file into chunks: boundaries are a
/// function of the file size and the configured budget alone.
#[derive(Clone, Copy, Debug, PartialEq, Eq)]
pub struct ChunkPlan {
    pub file_size: u64,
    pub chunk_size: u64,
    pub chunk_count: u64,
}

impl ChunkPlan {
    /// The plan is exactly what the chunking rules dictate for its file size
    /// and chunk size.
    pub open spec fn wf(self) -> bool {
        &&& self.file_size >= 1
        &&& self.chunk_size >= 1
        &&& self.chunk_count == num_chunks_spec(self.file_size, self.chunk_size)
    }
}

/// Partitions a file of `file_size` bytes under the given worker count and
/// memory budget.  A zero-length file is an explicit error, not a zero-chunk
/// no-op; a configuration that cannot yield one-byte chunks is refused.
pub fn plan_chunks(file_size: u64, worker_count: u64, memory_budget: u64) -> (r: Result<
    ChunkPlan,
    CryptoError,
>)
    ensures
        file_size == 0 ==> r == Err::<ChunkPlan, CryptoError>(CryptoError::EmptyInput),
        file_size >= 1 && !valid_config(worker_count, memory_budget) ==> r == Err::<
            ChunkPlan,
            CryptoError,
        >(CryptoError::BadConfig),
        file_size >= 1 && valid_config(worker_count, memory_budget) ==> (r matches Ok(p) && p.wf()
            && p.file_size == file_size && p.chunk_size == chunk_size_spec(
            worker_count,
            memory_budget,
        ) && p.chunk_count == num_chunks_spec(file_size, p.chunk_size)),
{
    if file_size == 0 {
        return Err(CryptoError::EmptyInput);
    }
    if worker_count == 0 {
        return Err(CryptoError::BadConfig);
    }
    let chunk_size = memory_budget / worker_count;
    if chunk_size == 0 {
        return Err(CryptoError::BadConfig);
    }
    let whole = file_size / chunk_size;
    let rem = file_size % chunk_size;
    proof {
        vstd::arithmetic::div_mod::lemma_fundamental_div_mod(
            file_size as int,
            chunk_size as int,
        );
        if rem != 0 {
            assert(whole < file_size) by (nonlinear_arith)
                requires
                    chunk_size >= 1,
                    file_size == chunk_size * (file_size as int / chunk_size as int) + rem,
                    whole == file_size as int / chunk_size as int,
                    rem >= 1,
                    whole >= 0,
            ;
        }
    }
    let chunk_count = if rem == 0 {
        whole
    } else {
        whole + 1
    };
    Ok(ChunkPlan { file_size, chunk_size, chunk_count })
}

/// Byte range `[start, end)` of chunk `i` of the plan.  The range is a
/// deterministic function of the plan alone, never empty, and lies within
/// the file.
pub fn chunk_bounds(plan: &ChunkPlan, i: u64) -> (r: (u64, u64))
    requires
        plan.wf(),
        i < plan.chunk_count,
    ensures
        r.0 == chunk_start(plan.chunk_size, i as int),
        r.1 == chunk_end(plan.file_size, plan.chunk_size, i as int),
        r.0 < r.1 <= plan.file_size,
{
    proof {
        lemma_chunk_start_in_file(plan.file_size, plan.chunk_size, i as int);
    }
    let start = i * plan.chunk_size;
    let end = if plan.file_size - start < plan.chunk_size {
        plan.file_size
    } else {
        start + plan.chunk_size
    };
    (start, end)
}

/// Every chunk of a well-formed plan starts strictly inside the file.
pub proof fn lemma_chunk_start_in_file(file_size: u64, chunk_size: u64, i: int)
    requires
        file_size >= 1,
        chunk_size >= 1,
        0 <= i < num_chunks_spec(file_size, chunk_size),
    ensures
        i * chunk_size < file_size,
{
    let q = file_size as int / chunk_size as int;
    let r = file_size as int % chunk_size as int;
    vstd::arithmetic::div_mod::lemma_fundamental_div_mod(file_size as int, chunk_size as int);
    if r == 0 {
        assert(i * chunk_size < file_size) by (nonlinear_arith)
            requires
                i <= q - 1,
                file_size == chunk_size * q,
                chunk_size >= 1,
                file_size >= 1,
                i >= 0,
        ;
    } else {
        assert(i * chunk_size < file_size) by (nonlinear_arith)
            requires
                i <= q,
                file_size == chunk_size * q + r,
                chunk_size >= 1,
                r >= 1,
                i >= 0,
        ;
    }
}

/// Chunking determinism and coverage: under a fixed file size and chunk
/// size, the boundaries are a function of the inputs alone; chunk 0 starts
/// at offset 0, every chunk is non-empty, each chunk ends exactly where the
/// next begins, and the last chunk ends at the file size.  So the ordered
/// chunk boundaries always come out the same and tile the file.
pub proof fn lemma_chunks_partition(file_size: u64, chunk_size: u64)
    requires
        file_size >= 1,
        chunk_size >= 1,
    ensures
        num_chunks_spec(file_size, chunk_size) >= 1,
        chunk_start(chunk_size, 0) == 0,
        forall|i: int|
            0 <= i < num_chunks_spec(file_size, chunk_size) ==> #[trigger] chunk_start(
                chunk_size,
                i,
            ) < chunk_end(file_size, chunk_size, i) <= file_size,
        forall|i: int|
            0 <= i < num_chunks_spec(file_size, chunk_size) - 1 ==> #[trigger] chunk_end(
                file_size,
                chunk_size,
                i,
            ) == chunk_start(chunk_size, i + 1),
        chunk_end(file_size, chunk_size, num_chunks_spec(file_size, chunk_size) - 1) == file_size,
{
    let q = file_size as int / chunk_size as int;
    let r = file_size as int % chunk_size as int;
    let n = num_chunks_spec(file_size, chunk_size);
    vstd::arithmetic::div_mod::lemma_fundamental_div_mod(file_size as int, chunk_size as int);
    vstd::arithmetic::div_mod::lemma_mod_bound(file_size as int, chunk_size as int);
    assert(n >= 1) by (nonlinear_arith)
        requires
            n == q + if r == 0 { 0int } else { 1int },
            file_size == chunk_size * q + r,
            chunk_size >= 1,
            0 <= r < chunk_size,
            file_size >= 1,
    ;
    assert forall|i: int| 0 <= i < n implies #[trigger] chunk_start(chunk_size, i) < chunk_end(
        file_size,
        chunk_size,
        i,
    ) <= file_size by {
        lemma_chunk_start_in_file(file_size, chunk_size, i);
    }
    assert forall|i: int| 0 <= i < n - 1 implies #[trigger] chunk_end(file_size, chunk_size, i)
        == chunk_start(chunk_size, i + 1) by {
        assert((i + 1) * chunk_size <= file_size) by (nonlinear_arith)
            requires
                0 <= i < n - 1,
                n == q + if r == 0 { 0int } else { 1int },
                file_size == chunk_size * q + r,
                chunk_size >= 1,
                0 <= r < chunk_size,
        ;
        assert(i * chunk_size + chunk_size == (i + 1) * chunk_size) by (nonlinear_arith);
    }
    assert((n - 1) * chunk_size + chunk_size >= file_size) by (nonlinear_arith)
        requires
            n == q + if r == 0 { 0int } else { 1int },
            file_size == chunk_size * q + r,
            chunk_size >= 1,
            0 <= r < chunk_size,
            file_size >= 1,
    ;
    lemma_chunk_start_in_file(file_size, chunk_size, n - 1);
}

/// Memory bound: each worker buffers at most one chunk of plaintext at a
/// time, so the bytes buffered by `worker_count` concurrent workers never
/// exceed `worker_count * chunk_size`, which never exceeds the memory
/// budget, whatever the file size.
pub proof fn lemma_memory_bound(worker_count: u64, memory_budget: u64)
    requires
        worker_count >= 1,
    ensures
        worker_count * chunk_size_spec(worker_count, memory_budget) <= memory_budget,
{
    let q = memory_budget as int / worker_count as int;
    vstd::arithmetic::div_mod::lemma_fundamental_div_mod(
        memory_budget as int,
        worker_count as int,
    );
    vstd::arithmetic::div_mod::lemma_mod_bound(memory_budget as int, worker_count as int);
    assert(worker_count * q <= memory_budget);
}

} // verus!
