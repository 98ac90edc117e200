//! The chunked transfer protocol. A shard serializes a filtered result set to
//! one byte sequence; because a single message is bounded, the consumer
//! retrieves that sequence as fixed-size windows and concatenates them in
//! order. Windowing and reassembly are verified here; what the bytes encode
//! is the serializer's concern.

use vstd::arithmetic::div_mod::lemma_fundamental_div_mod;
use vstd::prelude::*;

verus! {

/// How many windows of size `max` cover `len` bytes: `len / max`, rounded up.
pub open spec fn total_chunks(len: int, max: int) -> int {
    (len - 1) / max + 1
}

/// The `chunk`-th window of `b` under window size `max`: up to `max` bytes
/// from offset `chunk * max`; empty past the end.
pub open spec fn chunk_window(b: Seq<u8>, chunk: int, max: int) -> Seq<u8> {
    let start = chunk * max;
    if start >= b.len() {
        Seq::empty()
    } else if start + max >= b.len() {
        b.skip(start)
    } else {
        b.subrange(start, start + max)
    }
}

/// `total_chunks` is the least window count that covers the bytes.
pub proof fn lemma_total_chunks_bounds(len: int, max: int)
    requires
        1 <= max,
        1 <= len,
    ensures
        len <= total_chunks(len, max) * max,
        (total_chunks(len, max) - 1) * max < len,
        1 <= total_chunks(len, max) <= len,
{
    let q = (len - 1) / max;
    let r = (len - 1) % max;
    lemma_fundamental_div_mod(len - 1, max);
    assert(len - 1 == q * max + r);
    assert(0 <= r < max) by {
        vstd::arithmetic::div_mod::lemma_mod_bound(len - 1, max);
    }
    assert((q + 1) * max == q * max + max) by (nonlinear_arith);
    assert(q * max == len - 1 - r);
    assert(q <= len - 1) by (nonlinear_arith)
        requires
            q * max == len - 1 - r,
            0 <= r,
            1 <= max,
            0 <= q,
    ;
    assert(0 <= q) by {
        vstd::arithmetic::div_mod::lemma_div_pos_is_pos(len - 1, max);
    }
}

/// The first `n` windows of `b`, concatenated in order.
pub open spec fn concat_windows(b: Seq<u8>, max: int, n: int) -> Seq<u8>
    decreases n,
{
    if n <= 0 {
        Seq::empty()
    } else {
        concat_windows(b, max, n - 1) + chunk_window(b, n - 1, max)
    }
}

/// The first `n` windows are exactly the first `min(n * max, len)` bytes.
proof fn lemma_concat_windows_prefix(b: Seq<u8>, max: int, n: int)
    requires
        1 <= max,
        0 <= n,
    ensures
        concat_windows(b, max, n) =~= b.take(if n * max <= b.len() {
            n * max
        } else {
            b.len() as int
        }),
    decreases n,
{
    if n <= 0 {
        assert(n == 0);
        assert(n * max == 0) by (nonlinear_arith)
            requires
                n == 0,
        ;
        assert(b.take(0) =~= Seq::empty());
    } else {
        lemma_concat_windows_prefix(b, max, n - 1);
        assert((n - 1) * max == n * max - max) by (nonlinear_arith);
        assert(n * max >= max) by (nonlinear_arith)
            requires
                n >= 1,
                max >= 1,
        ;
        let start = (n - 1) * max;
        let len = b.len() as int;
        let pre = concat_windows(b, max, n - 1);
        let w = chunk_window(b, n - 1, max);
        if start >= len {
            assert(pre =~= b.take(len));
            assert(pre + w =~= b.take(len));
        } else if start + max >= len {
            assert(pre =~= b.take(start));
            assert(w == b.skip(start));
            assert(pre + w =~= b.take(len));
        } else {
            assert(pre =~= b.take(start));
            assert(w == b.subrange(start, start + max));
            assert(pre + w =~= b.take(n * max));
        }
    }
}

/// Chunking round-trip: concatenating windows `0 .. total_chunks` of any byte
/// sequence under any window size of at least one reconstructs the sequence
/// exactly.
pub proof fn lemma_chunk_round_trip(b: Seq<u8>, max: int)
    requires
        1 <= max,
        1 <= b.len(),
    ensures
        concat_windows(b, max, total_chunks(b.len() as int, max)) =~= b,
{
    let total = total_chunks(b.len() as int, max);
    lemma_total_chunks_bounds(b.len() as int, max);
    lemma_concat_windows_prefix(b, max, total);
    assert(b.take(b.len() as int) =~= b);
}

/// The producer's reply to a window request: the requested window of the
/// serialized bytes, with the window index and the window count. A byte
/// sequence smaller than one window is returned whole, flagged `(0, 0)`.
pub fn get_chunk(bytes: &Vec<u8>, chunk: usize, max_bytes_per_chunk: usize) -> (r: (
    Vec<u8>,
    (usize, usize),
))
    requires
        max_bytes_per_chunk >= 1,
    ensures
        bytes@.len() < max_bytes_per_chunk ==> r.0@ == bytes@ && r.1.0 == 0 && r.1.1 == 0,
        bytes@.len() >= max_bytes_per_chunk ==> {
            &&& r.0@ == chunk_window(bytes@, chunk as int, max_bytes_per_chunk as int)
            &&& r.1.0 == chunk
            &&& r.1.1 == total_chunks(bytes@.len() as int, max_bytes_per_chunk as int)
        },
{
    let len = bytes.len();
    if len < max_bytes_per_chunk {
        return (copy_bytes_range(bytes, 0, len), (0, 0));
    }
    proof {
        lemma_total_chunks_bounds(len as int, max_bytes_per_chunk as int);
    }
    let total = (len - 1) / max_bytes_per_chunk + 1;
    let window = match chunk.checked_mul(max_bytes_per_chunk) {
        None => {
            proof {
                assert(chunk * max_bytes_per_chunk > usize::MAX >= bytes@.len());
            }
            Vec::new()
        },
        Some(start) => {
            if start >= len {
                Vec::new()
            } else if len - start > max_bytes_per_chunk {
                copy_bytes_range(bytes, start, start + max_bytes_per_chunk)
            } else {
                let w = copy_bytes_range(bytes, start, len);
                proof {
                    assert(bytes@.subrange(start as int, len as int) =~= bytes@.skip(start as int));
                }
                w
            }
        },
    };
    (window, (chunk, total))
}

/// The producer's reply on the export path, which only the registered parent
/// may use: any other caller receives an empty, zero-window reply rather than
/// an error, so the path leaks nothing.
pub fn chunked_response(
    authorized: bool,
    bytes: &Vec<u8>,
    chunk: usize,
    max_bytes_per_chunk: usize,
) -> (r: (Vec<u8>, (usize, usize)))
    requires
        max_bytes_per_chunk >= 1,
    ensures
        !authorized ==> r.0@ == Seq::<u8>::empty() && r.1.0 == 0 && r.1.1 == 0,
        authorized && bytes@.len() < max_bytes_per_chunk ==> r.0@ == bytes@ && r.1.0 == 0 && r.1.1
            == 0,
        authorized && bytes@.len() >= max_bytes_per_chunk ==> {
            &&& r.0@ == chunk_window(bytes@, chunk as int, max_bytes_per_chunk as int)
            &&& r.1.0 == chunk
            &&& r.1.1 == total_chunks(bytes@.len() as int, max_bytes_per_chunk as int)
        },
{
    if !authorized {
        (Vec::new(), (0, 0))
    } else {
        get_chunk(bytes, chunk, max_bytes_per_chunk)
    }
}

/// The concatenation, in order, of a list of byte sequences.
pub open spec fn concat_seqs(s: Seq<Seq<u8>>) -> Seq<u8>
    decreases s.len(),
{
    if s.len() == 0 {
        Seq::empty()
    } else {
        concat_seqs(s.drop_last()) + s.last()
    }
}

/// The consumer's reassembly: concatenates the fetched windows in fetch
/// order.
pub fn concat_fetched(chunks: &Vec<Vec<u8>>) -> (out: Vec<u8>)
    ensures
        out@ == concat_seqs(chunks@.map_values(|c: Vec<u8>| c@)),
{
    let ghost s = chunks@.map_values(|c: Vec<u8>| c@);
    let mut out: Vec<u8> = Vec::new();
    let mut i: usize = 0;
    while i < chunks.len()
        invariant
            i <= chunks.len(),
            s == chunks@.map_values(|c: Vec<u8>| c@),
            out@ == concat_seqs(s.take(i as int)),
        decreases chunks.len() - i,
    {
        let mut piece = copy_bytes_range(&chunks[i], 0, chunks[i].len());
        proof {
            assert(piece@ =~= s[i as int]);
        }
        out.append(&mut piece);
        proof {
            assert(s.take(i + 1).drop_last() =~= s.take(i as int));
            assert(s.take(i + 1).last() == s[i as int]);
        }
        i = i + 1;
    }
    proof {
        assert(s.take(chunks@.len() as int) =~= s);
    }
    out
}

/// If the fetched windows are exactly windows `0 .. n` of `b`, reassembly
/// yields the corresponding prefix concatenation of `b`.
pub proof fn lemma_concat_fetched_windows(ws: Seq<Seq<u8>>, b: Seq<u8>, max: int)
    requires
        forall|i: int| 0 <= i < ws.len() ==> ws[i] == chunk_window(b, i, max),
    ensures
        concat_seqs(ws) == concat_windows(b, max, ws.len() as int),
    decreases ws.len(),
{
    if ws.len() > 0 {
        lemma_concat_fetched_windows(ws.drop_last(), b, max);
    }
}

/// Chunking round-trip, as the consumer sees it: a fetch of every window in
/// order, reassembled with `concat_fetched`, reconstructs the producer's
/// byte sequence exactly.
pub proof fn lemma_fetched_round_trip(ws: Seq<Seq<u8>>, b: Seq<u8>, max: int)
    requires
        1 <= max,
        1 <= b.len(),
        ws.len() == total_chunks(b.len() as int, max),
        forall|i: int| 0 <= i < ws.len() ==> ws[i] == chunk_window(b, i, max),
    ensures
        concat_seqs(ws) =~= b,
{
    lemma_concat_fetched_windows(ws, b, max);
    lemma_chunk_round_trip(b, max);
}

/// Copies `bytes[start..end]` into a fresh vector.
fn copy_bytes_range(bytes: &Vec<u8>, start: usize, end: usize) -> (out: Vec<u8>)
    requires
        start <= end <= bytes@.len(),
    ensures
        out@ == bytes@.subrange(start as int, end as int),
{
    let mut out: Vec<u8> = Vec::new();
    let mut i: usize = start;
    while i < end
        invariant
            start <= i <= end <= bytes@.len(),
            out@ =~= bytes@.subrange(start as int, i as int),
        decreases end - i,
    {
        out.push(bytes[i]);
        proof {
            assert(out@ =~= bytes@.subrange(start as int, i + 1));
        }
        i = i + 1;
    }
    out
}

} // verus!
