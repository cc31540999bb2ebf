//! Sizing heuristics for the streaming pass: buffer sizes bounded by
//! available memory, chunk sizes bounded by column count, and a memory
//! estimate for an analysis.

use vstd::prelude::*;

verus! {

/// Smallest buffer the reader will use.
pub const MIN_BUFFER: usize = 4096;

/// Largest buffer the reader will use.
pub const MAX_BUFFER: usize = 1048576;

/// Buffer used when nothing is known about the input.
pub const DEFAULT_BUFFER: usize = 8192;

/// The smallest power of two at or above `x` (one for non-positive `x`).
pub open spec fn spec_next_pow2(x: int) -> int
    decreases x,
{
    if x <= 1 {
        1
    } else {
        2 * spec_next_pow2((x + 1) / 2)
    }
}

proof fn lemma_next_pow2_bounds(x: int)
    ensures
        spec_next_pow2(x) >= 1,
        x >= 1 ==> spec_next_pow2(x) >= x,
        x >= 2 ==> spec_next_pow2(x) <= 2 * (x - 1),
    decreases x,
{
    if x > 1 {
        lemma_next_pow2_bounds((x + 1) / 2);
    }
}

fn next_pow2(x: usize) -> (r: usize)
    requires
        x <= MAX_BUFFER,
    ensures
        r as int == spec_next_pow2(x as int),
    decreases x,
{
    if x <= 1 {
        1
    } else {
        let half = (x + 1) / 2;
        let r = next_pow2(half);
        proof {
            lemma_next_pow2_bounds(half as int);
        }
        2 * r
    }
}

/// Buffer-size selection.
pub struct BufferOptimizer;

/// The buffer size selected for a file: the default for an empty file, else
/// a hundredth of available memory clamped between the bounds and rounded
/// up to a power of two under the upper bound.
pub open spec fn spec_buffer_size(file_size: u64, available_memory: u64) -> int {
    if file_size == 0 {
        DEFAULT_BUFFER as int
    } else {
        let target = (available_memory / 100) as usize as int;
        if target < MIN_BUFFER {
            MIN_BUFFER as int
        } else if target > MAX_BUFFER {
            MAX_BUFFER as int
        } else {
            let p = spec_next_pow2(target);
            if p > MAX_BUFFER {
                MAX_BUFFER as int
            } else {
                p
            }
        }
    }
}

impl BufferOptimizer {
    /// Selects a read-buffer size from the file size and available memory.
    pub fn calculate_buffer_size(file_size: u64, available_memory: u64) -> (r: usize)
        ensures
            r as int == spec_buffer_size(file_size, available_memory),
    {
        if file_size == 0 {
            return DEFAULT_BUFFER;
        }
        let target = (available_memory / 100) as usize;
        if target < MIN_BUFFER {
            MIN_BUFFER
        } else if target > MAX_BUFFER {
            MAX_BUFFER
        } else {
            let p = next_pow2(target);
            if p > MAX_BUFFER {
                MAX_BUFFER
            } else {
                p
            }
        }
    }

    /// The memory this pass assumes to have available: a fixed placeholder
    /// of one gibibyte.
    pub fn get_available_memory() -> (r: u64)
        ensures
            r == 1073741824u64,
    {
        1073741824
    }
}

/// Chunk sizing and memory estimation for the streaming pass.
pub struct StreamingOptimizer;

/// The chunk size selected for a data set: a base falling with the column
/// count, halved for small inputs and doubled for very large ones, clamped
/// between one hundred and ten thousand.
pub open spec fn spec_chunk_size(total_rows: int, column_count: int) -> int {
    let base: int = if column_count <= 10 {
        2000
    } else if column_count <= 50 {
        1000
    } else {
        500
    };
    let adjusted: int = if total_rows < 10000 {
        base / 2
    } else if total_rows > 1000000 {
        base * 2
    } else {
        base
    };
    if adjusted < 100 {
        100
    } else if adjusted > 10000 {
        10000
    } else {
        adjusted
    }
}

impl StreamingOptimizer {
    /// Selects how many rows to process per chunk.
    pub fn calculate_chunk_size(total_rows: usize, column_count: usize) -> (r: usize)
        ensures
            r as int == spec_chunk_size(total_rows as int, column_count as int),
    {
        let base: usize = if column_count <= 10 {
            2000
        } else if column_count <= 50 {
            1000
        } else {
            500
        };
        let adjusted: usize = if total_rows < 10000 {
            base / 2
        } else if total_rows > 1000000 {
            base * 2
        } else {
            base
        };
        if adjusted < 100 {
            100
        } else if adjusted > 10000 {
            10000
        } else {
            adjusted
        }
    }

    /// Estimates the memory an analysis of the given shape needs: a fixed
    /// base, thirty-two bytes per cell and two hundred fifty-six bytes of
    /// per-column bookkeeping.
    pub fn estimate_memory_for_analysis(rows: usize, columns: usize) -> (r: u64)
        requires
            1024 + (rows as int) * (columns as int) * 32 + (columns as int) * 256 <= u64::MAX as int,
        ensures
            r as int == 1024 + (rows as int) * (columns as int) * 32 + (columns as int) * 256,
    {
        let cells = (rows as u64) * (columns as u64);
        proof {
            assert((rows as int) * (columns as int) >= 0) by (nonlinear_arith)
                requires
                    rows as int >= 0,
                    columns as int >= 0,
            ;
        }
        let cell_memory = cells * 32;
        let metadata_memory = (columns as u64) * 256;
        1024 + cell_memory + metadata_memory
    }
}

} // verus!
