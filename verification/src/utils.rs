//! Small helpers: combining seeds through the digest, splitting data
//! into chunks and recombining it, and seed validation.
use crate::crypto::{sha256_digest, sha256_of};
use crate::microcontroller::memory::copy_slice;
use crate::FskcError;
use vstd::prelude::*;
use vstd::slice::slice_subrange;

verus! {

/// The little-endian concatenation of a sequence of seeds.
pub open spec fn seeds_le_bytes(seeds: Seq<u64>) -> Seq<u8>
    decreases seeds.len(),
{
    if seeds.len() == 0 {
        Seq::empty()
    } else {
        seeds_le_bytes(seeds.drop_last()) + crate::pairlet::exchange::le8(seeds.last())
    }
}

/// The u64 read little-endian from the first eight bytes of a sequence.
pub open spec fn spec_u64_from_le(s: Seq<u8>) -> int {
    s[0] + s[1] * 0x100 + s[2] * 0x1_0000 + s[3] * 0x100_0000 + s[4] * 0x1_0000_0000 + s[5]
        * 0x100_0000_0000 + s[6] * 0x1_0000_0000_0000 + s[7] * 0x100_0000_0000_0000
}

/// Combine several seeds into one: the digest of their little-endian
/// bytes, read as a little-endian integer.
pub fn combine_seeds(seeds: &Vec<u64>) -> (r: u64)
    ensures
        r as int == spec_u64_from_le(sha256_of(seeds_le_bytes(seeds@))),
{
    let mut input: Vec<u8> = Vec::new();
    let mut i: usize = 0;
    while i < seeds.len()
        invariant
            i <= seeds@.len(),
            input@ == seeds_le_bytes(seeds@.take(i as int)),
        decreases seeds@.len() - i,
    {
        let mut bytes = crate::pairlet::exchange::u64_le_bytes(seeds[i]);
        input.append(&mut bytes);
        proof {
            assert(seeds@.take(i + 1).drop_last() =~= seeds@.take(i as int));
            assert(seeds@.take(i + 1).last() == seeds@[i as int]);
        }
        i = i + 1;
    }
    proof {
        assert(seeds@.take(seeds@.len() as int) =~= seeds@);
    }
    let digest = sha256_digest(input.as_slice());
    let b0 = digest[0] as u64;
    let b1 = digest[1] as u64;
    let b2 = digest[2] as u64;
    let b3 = digest[3] as u64;
    let b4 = digest[4] as u64;
    let b5 = digest[5] as u64;
    let b6 = digest[6] as u64;
    let b7 = digest[7] as u64;
    b0 + b1 * 0x100 + b2 * 0x1_0000 + b3 * 0x100_0000 + b4 * 0x1_0000_0000 + b5 * 0x100_0000_0000
        + b6 * 0x1_0000_0000_0000 + b7 * 0x100_0000_0000_0000
}

/// The views of a vector of chunks.
pub open spec fn chunk_views(s: Seq<Vec<u8>>) -> Seq<Seq<u8>> {
    s.map(|i: int, c: Vec<u8>| c@)
}

/// The chunks of a byte sequence, each of the given size except a
/// shorter final one.
pub open spec fn spec_chunks_concat(chunks: Seq<Seq<u8>>) -> Seq<u8>
    decreases chunks.len(),
{
    if chunks.len() == 0 {
        Seq::empty()
    } else {
        spec_chunks_concat(chunks.drop_last()) + chunks.last()
    }
}

/// Split data into chunks of the given size; the concatenation of the
/// chunks is the data, and every chunk except possibly the last has
/// exactly the given size.
pub fn split_into_chunks(data: &[u8], chunk_size: usize) -> (r: Vec<Vec<u8>>)
    requires
        chunk_size >= 1,
    ensures
        spec_chunks_concat(chunk_views(r@)) == data@,
        forall|i: int| 0 <= i < r@.len() ==> (#[trigger] r@[i])@.len() <= chunk_size,
{
    let mut out: Vec<Vec<u8>> = Vec::new();
    let mut pos: usize = 0;
    while pos < data.len()
        invariant
            pos <= data@.len(),
            chunk_size >= 1,
            spec_chunks_concat(chunk_views(out@)) == data@.take(pos as int),
            forall|i: int| 0 <= i < out@.len() ==> (#[trigger] out@[i])@.len() <= chunk_size,
        decreases data@.len() - pos,
    {
        let end: usize = if data.len() - pos < chunk_size {
            data.len()
        } else {
            pos + chunk_size
        };
        let chunk = copy_slice(slice_subrange(data, pos, end));
        let ghost pre = out@;
        out.push(chunk);
        proof {
            assert(out@.drop_last() =~= pre);
            assert(chunk_views(out@).drop_last() =~= chunk_views(pre));
            assert(chunk_views(out@).last() == chunk@);
            assert(spec_chunks_concat(chunk_views(out@)) == spec_chunks_concat(chunk_views(pre))
                + chunk@);
            assert(data@.take(pos as int) + data@.subrange(pos as int, end as int) =~= data@.take(
                end as int,
            ));
        }
        pos = end;
    }
    proof {
        assert(data@.take(data@.len() as int) =~= data@);
    }
    out
}

/// Combine chunks back into a single vector: their concatenation.
pub fn combine_chunks(chunks: &Vec<Vec<u8>>) -> (r: Vec<u8>)
    ensures
        r@ == spec_chunks_concat(chunk_views(chunks@)),
{
    let mut out: Vec<u8> = Vec::new();
    let mut i: usize = 0;
    while i < chunks.len()
        invariant
            i <= chunks@.len(),
            out@ == spec_chunks_concat(chunk_views(chunks@.take(i as int))),
        decreases chunks@.len() - i,
    {
        let mut piece = copy_slice(chunks[i].as_slice());
        out.append(&mut piece);
        proof {
            let mapped = chunk_views(chunks@.take(i + 1));
            assert(mapped.drop_last() =~= chunk_views(chunks@.take(i as int)));
            assert(mapped.last() == chunks@[i as int]@);
        }
        i = i + 1;
    }
    proof {
        assert(chunks@.take(chunks@.len() as int) =~= chunks@);
    }
    out
}

/// Accept a seed exactly when it is non-zero.
pub fn validate_seed(seed: u64) -> (r: Result<(), FskcError>)
    ensures
        r is Ok <==> seed != 0,
        r is Err ==> r->Err_0 is InvalidSeed,
{
    if seed == 0 {
        Err(FskcError::InvalidSeed)
    } else {
        Ok(())
    }
}

} // verus!
