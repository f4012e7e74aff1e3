//! Splitting a body into the bounded chunks in which it goes onto the
//! wire.
//!
//! A file is transmitted through a fixed-size intermediate buffer. The
//! split below is the accounting of that transmission: the chunks
//! concatenate back to exactly the bytes that the declared
//! Content-Length promised, none of them larger than the buffer.

use vstd::prelude::*;
use crate::scan::copy_range;

verus! {

/// The size of the intermediate buffer of a transmission.
pub const SEND_BUF_SIZE: usize = 1024;

/// The bytes that a sequence of chunks puts on the wire, in order.
pub open spec fn chunks_flat(chunks: Seq<Vec<u8>>) -> Seq<u8> {
    chunks.map_values(|c: Vec<u8>| c@).flatten()
}

/// Splits `data` into successive chunks of at most `SEND_BUF_SIZE`
/// bytes: together, and in order, the chunks are exactly `data`, and
/// none of them is empty.
pub fn split_chunks(data: &Vec<u8>) -> (r: Vec<Vec<u8>>)
    ensures
        chunks_flat(r@) == data@,
        forall|i: int| 0 <= i < r@.len() ==> 1 <= (#[trigger] r@[i])@.len() <= SEND_BUF_SIZE,
{
    let n: usize = data.len();
    let mut out: Vec<Vec<u8>> = Vec::new();
    let mut pos: usize = 0;
    proof {
        assert(out@.map_values(|c: Vec<u8>| c@) =~= Seq::<Seq<u8>>::empty());
        assert(chunks_flat(out@) =~= data@.take(0));
    }
    while pos < n
        invariant
            pos <= n,
            n == data@.len(),
            chunks_flat(out@) == data@.take(pos as int),
            forall|i: int| 0 <= i < out@.len() ==> 1 <= (#[trigger] out@[i])@.len()
                <= SEND_BUF_SIZE,
        decreases n - pos,
    {
        let end: usize = if n - pos < SEND_BUF_SIZE {
            n
        } else {
            pos + SEND_BUF_SIZE
        };
        let chunk = copy_range(data, pos, end);
        proof {
            let ghost prev = out@;
            broadcast use Seq::<Seq<u8>>::lemma_flatten_push;

            assert(prev.push(chunk).map_values(|c: Vec<u8>| c@) =~= prev.map_values(
                |c: Vec<u8>| c@,
            ).push(chunk@));
            assert(prev.map_values(|c: Vec<u8>| c@).push(chunk@).flatten() =~= chunks_flat(prev)
                + chunk@);
            assert(data@.take(pos as int) + data@.subrange(pos as int, end as int) =~= data@.take(
                end as int,
            ));
        }
        out.push(chunk);
        pos = end;
    }
    proof {
        assert(data@.take(n as int) =~= data@);
    }
    out
}

} // verus!
