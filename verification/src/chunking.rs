//! Offset-tagged chunking of hardware buffers: whenever a transport's
//! single-write size is smaller than a payload (image transfer, e-ink
//! refresh), the payload is cut into fixed-size slices tagged with their
//! byte offset, in strictly increasing order with no gaps and no overlap.

use vstd::prelude::*;

verus! {

/// A fixed-size slice of a larger buffer tagged with its byte offset into
/// that buffer.
pub struct Chunk {
    pub offset: usize,
    pub payload: Vec<u8>,
}

/// How many chunks a buffer of `len` bytes yields at chunk size `size`.
pub open spec fn spec_chunk_count(len: int, size: int) -> int {
    (len + size - 1) / size
}

/// The payload of chunk `i`: the bytes from `i * size` up to the next
/// chunk boundary or the end of the buffer, whichever comes first.
pub open spec fn spec_chunk_payload(buf: Seq<u8>, size: int, i: int) -> Seq<u8> {
    buf.subrange(i * size, if buf.len() < (i + 1) * size { buf.len() as int } else { (i + 1) * size })
}

/// Cuts a buffer into offset-tagged chunks. The last chunk may be
/// shorter than `size`; offsets increase strictly by `size` with no gaps
/// and no overlap, and the payloads concatenated in order reconstruct the
/// buffer exactly.
pub fn chunk(buffer: &Vec<u8>, size: usize) -> (r: Vec<Chunk>)
    requires
        size > 0,
        buffer@.len() + size <= usize::MAX,
    ensures
        r@.len() == spec_chunk_count(buffer@.len() as int, size as int),
        forall|i: int| 0 <= i < r@.len() ==> (#[trigger] r@[i]).offset == i * size,
        forall|i: int| 0 <= i < r@.len() ==> (#[trigger] r@[i]).offset < buffer@.len(),
        forall|i: int|
            0 <= i < r@.len() ==> (#[trigger] r@[i]).payload@ == spec_chunk_payload(
                buffer@,
                size as int,
                i,
            ),
{
    let len: usize = buffer.len();
    let mut out: Vec<Chunk> = Vec::new();
    let mut offset: usize = 0;
    proof {
        assert(0int * size == 0) by (nonlinear_arith);
    }
    while offset < len
        invariant
            size > 0,
            len == buffer@.len(),
            len + size <= usize::MAX,
            offset == out@.len() * size,
            offset <= len + size,
            out@.len() >= 1 ==> (out@.len() - 1) * size < len,
            forall|i: int| 0 <= i < out@.len() ==> (#[trigger] out@[i]).offset == i * size,
            forall|i: int| 0 <= i < out@.len() ==> (#[trigger] out@[i]).offset < len,
            forall|i: int|
                0 <= i < out@.len() ==> (#[trigger] out@[i]).payload@ == spec_chunk_payload(
                    buffer@,
                    size as int,
                    i,
                ),
        decreases len + size - offset,
    {
        proof {
            let i = out@.len() as int;
            assert((i + 1) * size == i * size + size) by (nonlinear_arith);
            assert(i * size == (i + 1 - 1) * size);
        }
        let end: usize = if len - offset < size {
            len
        } else {
            offset + size
        };
        let mut payload: Vec<u8> = Vec::new();
        let mut k: usize = offset;
        while k < end
            invariant
                offset <= k <= end <= len,
                len == buffer@.len(),
                payload@ == buffer@.subrange(offset as int, k as int),
            decreases end - k,
        {
            payload.push(buffer[k]);
            proof {
                assert(payload@ =~= buffer@.subrange(offset as int, k + 1));
            }
            k = k + 1;
        }
        proof {
            let i = out@.len() as int;
            assert((i + 1) * size == i * size + size) by (nonlinear_arith);
            assert(end == if buffer@.len() < (i + 1) * size {
                buffer@.len() as int
            } else {
                (i + 1) * size
            });
            assert(payload@ == spec_chunk_payload(buffer@, size as int, i));
        }
        let c = Chunk { offset, payload };
        out.push(c);
        offset = offset + size;
    }
    proof {
        let n = out@.len() as int;
        if len == 0 {
            assert(n == 0);
            assert(spec_chunk_count(0, size as int) == (size - 1) / (size as int));
            assert((size - 1) / (size as int) == 0) by (nonlinear_arith)
                requires
                    size > 0,
            ;
        } else {
            assert(n >= 1);
            assert(n * size >= len);
            assert((n - 1) * size < len);
            assert(n == (len + size - 1) / (size as int)) by (nonlinear_arith)
                requires
                    size > 0,
                    len > 0,
                    n >= 1,
                    n * size >= len,
                    (n - 1) * size < len,
            ;
        }
    }
    out
}

/// The concatenation of a sequence of payloads, in order.
pub open spec fn spec_concat_payloads(chunks: Seq<Seq<u8>>) -> Seq<u8>
    decreases chunks.len(),
{
    if chunks.len() == 0 {
        Seq::empty()
    } else {
        spec_concat_payloads(chunks.drop_last()) + chunks.last()
    }
}

/// The first `k` chunk payloads concatenate to the buffer's prefix up to
/// the `k`-th chunk boundary.
proof fn lemma_chunk_prefix(buf: Seq<u8>, size: int, k: int)
    requires
        size > 0,
        0 <= k <= spec_chunk_count(buf.len() as int, size),
    ensures
        spec_concat_payloads(Seq::new(k as nat, |i: int| spec_chunk_payload(buf, size, i)))
            == buf.subrange(0, if buf.len() < k * size { buf.len() as int } else { k * size }),
    decreases k,
{
    let chunks = Seq::new(k as nat, |i: int| spec_chunk_payload(buf, size, i));
    let hi = if buf.len() < k * size { buf.len() as int } else { k * size };
    if k == 0 {
        assert(0int * size == 0) by (nonlinear_arith);
        assert(hi == 0);
        assert(spec_concat_payloads(chunks) =~= buf.subrange(0, 0));
    } else {
        let prev = Seq::new((k - 1) as nat, |i: int| spec_chunk_payload(buf, size, i));
        assert(chunks.drop_last() =~= prev);
        lemma_chunk_prefix(buf, size, k - 1);
        assert((k - 1) * size < buf.len()) by (nonlinear_arith)
            requires
                size > 0,
                1 <= k <= (buf.len() + size - 1) / size,
        ;
        assert((k - 1) * size <= hi <= buf.len()) by (nonlinear_arith)
            requires
                size > 0,
                k >= 1,
                hi == if buf.len() < k * size { buf.len() as int } else { k * size },
                (k - 1) * size < buf.len(),
        ;
        let prev_hi = if buf.len() < (k - 1) * size {
            buf.len() as int
        } else {
            (k - 1) * size
        };
        assert(prev_hi == (k - 1) * size);
        assert(spec_concat_payloads(prev) == buf.subrange(0, (k - 1) * size));
        assert(chunks.last() == buf.subrange((k - 1) * size, hi));
        assert(spec_concat_payloads(chunks) == spec_concat_payloads(chunks.drop_last())
            + chunks.last());
        assert(buf.subrange(0, (k - 1) * size) + buf.subrange((k - 1) * size, hi) =~= buf.subrange(
            0,
            hi,
        ));
        assert(spec_concat_payloads(chunks) == buf.subrange(0, hi));
    }
}

/// Chunking loses nothing and invents nothing: for any buffer and any
/// positive chunk size, concatenating the chunk payloads in yielded order
/// reconstructs the buffer exactly, and every chunk except possibly the
/// last has length exactly the chunk size.
pub proof fn lemma_chunks_reconstruct(chunks: Seq<Seq<u8>>, buf: Seq<u8>, size: int)
    requires
        size > 0,
        chunks.len() == spec_chunk_count(buf.len() as int, size),
        forall|i: int|
            0 <= i < chunks.len() ==> #[trigger] chunks[i] == spec_chunk_payload(buf, size, i),
    ensures
        spec_concat_payloads(chunks) == buf,
        forall|i: int| 0 <= i < chunks.len() - 1 ==> (#[trigger] chunks[i]).len() == size,
{
    let n = chunks.len() as int;
    assert(chunks =~= Seq::new(n as nat, |i: int| spec_chunk_payload(buf, size, i)));
    lemma_chunk_prefix(buf, size, n);
    assert(buf.len() <= n * size) by (nonlinear_arith)
        requires
            size > 0,
            n == (buf.len() + size - 1) / size,
    ;
    assert(spec_concat_payloads(chunks) =~= buf);
    assert forall|i: int| 0 <= i < n - 1 implies (#[trigger] chunks[i]).len() == size by {
        assert((i + 1) * size <= buf.len()) by (nonlinear_arith)
            requires
                size > 0,
                0 <= i < n - 1,
                n == (buf.len() + size - 1) / size,
        ;
        assert((i + 1) * size - i * size == size) by (nonlinear_arith);
        assert(chunks[i] == spec_chunk_payload(buf, size, i));
    }
}

} // verus!

verus! {

/// One chunk by index, without materializing the rest: the sequence of
/// chunks is finite and restartable, so a caller can resume a transfer at
/// any chunk. `None` exactly past the last chunk.
pub fn chunk_at(buffer: &Vec<u8>, size: usize, index: usize) -> (r: Option<Chunk>)
    requires
        size > 0,
        buffer@.len() + size <= usize::MAX,
    ensures
        match r {
            Some(c) => {
                &&& index < spec_chunk_count(buffer@.len() as int, size as int)
                &&& c.offset == index * size
                &&& c.payload@ == spec_chunk_payload(buffer@, size as int, index as int)
            },
            None => index >= spec_chunk_count(buffer@.len() as int, size as int),
        },
{
    let len: usize = buffer.len();
    if index > len / size {
        proof {
            assert(index >= (len + size - 1) / (size as int)) by (nonlinear_arith)
                requires
                    size > 0,
                    index > len as int / (size as int),
            ;
        }
        return None;
    }
    proof {
        assert(index * size <= len) by (nonlinear_arith)
            requires
                size > 0,
                index <= len as int / (size as int),
        ;
    }
    let offset: usize = index * size;
    if offset >= len {
        proof {
            assert(index >= (len + size - 1) / (size as int)) by (nonlinear_arith)
                requires
                    size > 0,
                    index * size >= len,
            ;
        }
        return None;
    }
    proof {
        assert(index < (len + size - 1) / (size as int)) by (nonlinear_arith)
            requires
                size > 0,
                index * size < len,
        ;
        assert((index + 1) * size == index * size + size) by (nonlinear_arith);
    }
    let end: usize = if len - offset < size {
        len
    } else {
        offset + size
    };
    let mut payload: Vec<u8> = Vec::new();
    let mut k: usize = offset;
    while k < end
        invariant
            offset <= k <= end <= len,
            len == buffer@.len(),
            payload@ == buffer@.subrange(offset as int, k as int),
        decreases end - k,
    {
        payload.push(buffer[k]);
        proof {
            assert(payload@ =~= buffer@.subrange(offset as int, k + 1));
        }
        k = k + 1;
    }
    proof {
        assert((index + 1) * size == index * size + size) by (nonlinear_arith);
        assert(payload@ == spec_chunk_payload(buffer@, size as int, index as int));
    }
    Some(Chunk { offset, payload })
}

} // verus!
