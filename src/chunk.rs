use vstd::prelude::*;
use vstd::arithmetic::div_mod::{lemma_fundamental_div_mod, lemma_mod_pos_bound};

verus! {

/// A contiguous byte range `[start, end)` of a file, overwritten by one worker.
#[derive(Debug, Clone, Copy, PartialEq, Eq, Structural)]
pub struct Chunk {
    pub start: u64,
    pub end: u64,
}

/// First offset of worker `i` when a file of `len` bytes is split among
/// `threads` workers: `i` times the floored share.
pub open spec fn chunk_start(i: int, threads: int, len: int) -> int {
    i * (len / threads)
}

/// End (exclusive) of worker `i`'s range; the last worker runs to the end of
/// the file and so takes the remainder of the division.
pub open spec fn chunk_end(i: int, threads: int, len: int) -> int {
    if i == threads - 1 {
        len
    } else {
        (i + 1) * (len / threads)
    }
}

/// Offset `b` lies in worker `i`'s range.
pub open spec fn in_chunk(i: int, threads: int, len: int, b: int) -> bool {
    chunk_start(i, threads, len) <= b < chunk_end(i, threads, len)
}

/// Some worker's range holds offset `b`.
pub open spec fn offset_covered(threads: int, len: int, b: int) -> bool {
    exists|i: int| 0 <= i < threads && #[trigger] in_chunk(i, threads, len, b)
}

/// `c` is the range of worker `i`.
pub open spec fn is_chunk_of(c: Chunk, i: int, threads: int, len: int) -> bool {
    &&& c.start as int == chunk_start(i, threads, len)
    &&& c.end as int == chunk_end(i, threads, len)
}

proof fn lemma_share_bounds(threads: int, len: int)
    requires
        threads >= 1,
        len >= 0,
    ensures
        len / threads >= 0,
        threads * (len / threads) <= len,
        len < threads * (len / threads) + threads,
{
    lemma_fundamental_div_mod(len, threads);
    lemma_mod_pos_bound(len, threads);
    let c = len / threads;
    assert(c >= 0) by (nonlinear_arith)
        requires
            len == threads * c + len % threads,
            len % threads < threads,
            threads >= 1,
            len >= 0,
    ;
}

proof fn lemma_chunk_bounds(i: int, threads: int, len: int)
    requires
        0 <= i < threads,
        len >= 0,
    ensures
        0 <= chunk_start(i, threads, len) <= chunk_end(i, threads, len) <= len,
{
    lemma_share_bounds(threads, len);
    let c = len / threads;
    assert(0 <= i * c <= (i + 1) * c <= threads * c) by (nonlinear_arith)
        requires
            c >= 0,
            0 <= i < threads,
    ;
}

proof fn lemma_chunks_ordered(i: int, j: int, threads: int, len: int)
    requires
        0 <= i < j < threads,
        len >= 0,
    ensures
        chunk_end(i, threads, len) <= chunk_start(j, threads, len),
{
    lemma_share_bounds(threads, len);
    let c = len / threads;
    assert((i + 1) * c <= j * c) by (nonlinear_arith)
        requires
            c >= 0,
            i + 1 <= j,
    ;
}

proof fn lemma_offset_covered(b: int, threads: int, len: int)
    requires
        threads >= 1,
        0 <= b < len,
    ensures
        offset_covered(threads, len, b),
{
    lemma_share_bounds(threads, len);
    let c = len / threads;
    if c == 0 {
        assert((threads - 1) * c == 0) by (nonlinear_arith)
            requires
                c == 0,
        ;
        assert(in_chunk(threads - 1, threads, len, b));
    } else {
        lemma_fundamental_div_mod(b, c);
        lemma_mod_pos_bound(b, c);
        let q = b / c;
        assert(q >= 0 && q * c <= b && b < (q + 1) * c) by (nonlinear_arith)
            requires
                b == c * q + b % c,
                0 <= b % c < c,
                b >= 0,
        ;
        if q < threads - 1 {
            assert(in_chunk(q, threads, len, b));
        } else {
            assert((threads - 1) * c <= q * c) by (nonlinear_arith)
                requires
                    c > 0,
                    threads - 1 <= q,
            ;
            assert(in_chunk(threads - 1, threads, len, b));
        }
    }
}

/// The workers' ranges partition the file: the first starts at offset 0, the
/// last ends exactly at `len`, each range is well formed and ends where the
/// next begins, every offset of the file lies in some range, and no offset
/// lies in two ranges.
pub proof fn lemma_chunks_partition(len: int, threads: int)
    requires
        len >= 0,
        threads >= 1,
    ensures
        chunk_start(0, threads, len) == 0,
        chunk_end(threads - 1, threads, len) == len,
        forall|i: int|
            0 <= i < threads ==> 0 <= #[trigger] chunk_start(i, threads, len) <= chunk_end(
                i,
                threads,
                len,
            ) <= len,
        forall|i: int|
            0 <= i && i + 1 < threads ==> #[trigger] chunk_end(i, threads, len) == chunk_start(
                i + 1,
                threads,
                len,
            ),
        forall|b: int| 0 <= b < len ==> #[trigger] offset_covered(threads, len, b),
        forall|i: int, j: int, b: int|
            0 <= i < threads && 0 <= j < threads && #[trigger] in_chunk(i, threads, len, b)
                && #[trigger] in_chunk(j, threads, len, b) ==> i == j,
        forall|i: int, b: int| 0 <= i < threads && #[trigger] in_chunk(i, threads, len, b) ==> 0 <= b < len,
{
    assert forall|i: int| 0 <= i < threads implies 0 <= #[trigger] chunk_start(i, threads, len)
        <= chunk_end(i, threads, len) <= len by {
        lemma_chunk_bounds(i, threads, len);
    }
    assert forall|b: int| 0 <= b < len implies #[trigger] offset_covered(threads, len, b) by {
        lemma_offset_covered(b, threads, len);
    }
    assert forall|i: int, j: int, b: int|
        0 <= i < threads && 0 <= j < threads && #[trigger] in_chunk(i, threads, len, b)
            && #[trigger] in_chunk(j, threads, len, b) implies i == j by {
        if i < j {
            lemma_chunks_ordered(i, j, threads, len);
        } else if j < i {
            lemma_chunks_ordered(j, i, threads, len);
        }
    }
}

/// With a single worker the one range is the whole file.
pub proof fn lemma_single_worker_whole_file(len: int)
    requires
        len >= 0,
    ensures
        chunk_start(0, 1, len) == 0,
        chunk_end(0, 1, len) == len,
{
}

/// In an empty file every worker's range is empty.
pub proof fn lemma_empty_file_empty_chunks(threads: int)
    requires
        threads >= 1,
    ensures
        forall|i: int|
            0 <= i < threads ==> #[trigger] chunk_start(i, threads, 0) == 0 && chunk_end(
                i,
                threads,
                0,
            ) == 0,
{
    assert forall|i: int| 0 <= i < threads implies #[trigger] chunk_start(i, threads, 0) == 0
        && chunk_end(i, threads, 0) == 0 by {
        lemma_chunk_bounds(i, threads, 0);
    }
}

/// The byte range of worker `index` out of `threads` on a file of
/// `file_size` bytes.
pub fn chunk_range(index: u32, threads: u32, file_size: u64) -> (r: Chunk)
    requires
        index < threads,
    ensures
        is_chunk_of(r, index as int, threads as int, file_size as int),
{
    proof {
        lemma_chunk_bounds(index as int, threads as int, file_size as int);
    }
    let chunk_size: u64 = file_size / (threads as u64);
    let start: u64 = index as u64 * chunk_size;
    let end: u64 = if index == threads - 1 {
        file_size
    } else {
        (index as u64 + 1) * chunk_size
    };
    Chunk { start, end }
}

/// The ranges of all `threads` workers of one pass, worker `i` at index `i`.
pub fn chunk_plan(file_size: u64, threads: u32) -> (r: Vec<Chunk>)
    requires
        threads >= 1,
    ensures
        r@.len() == threads,
        forall|i: int| 0 <= i < threads ==> is_chunk_of(#[trigger] r@[i], i, threads as int, file_size as int),
{
    let mut plan: Vec<Chunk> = Vec::new();
    let mut i: u32 = 0;
    while i < threads
        invariant
            i <= threads,
            plan@.len() == i,
            forall|k: int| 0 <= k < i ==> is_chunk_of(#[trigger] plan@[k], k, threads as int, file_size as int),
        decreases threads - i,
    {
        let c = chunk_range(i, threads, file_size);
        plan.push(c);
        i = i + 1;
    }
    plan
}

} // verus!
