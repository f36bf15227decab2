use vstd::prelude::*;

use crate::error::StreamError;

verus! {

// Samples travel as 32-bit IEEE-754 values, least significant byte first.
// The library handles a sample as the bit pattern of its `f32`, so the
// conversion to and from bytes is exact and involves no floating point.

/// The 32-bit word that bytes `b0` (least significant) to `b3` encode.
pub open spec fn word_of(b0: u8, b1: u8, b2: u8, b3: u8) -> int {
    b0 + 256 * b1 + 65536 * b2 + 16777216 * b3
}

/// Byte `k` (0 is the least significant) of the word `w`.
pub open spec fn byte_of(w: u32, k: int) -> u8 {
    if k == 0 {
        (w % 256) as u8
    } else if k == 1 {
        ((w / 256) % 256) as u8
    } else if k == 2 {
        ((w / 65536) % 256) as u8
    } else {
        (w / 16777216) as u8
    }
}

/// The samples that `bytes` carry, four bytes each.
pub open spec fn decoded(bytes: Seq<u8>) -> Seq<u32> {
    Seq::new(
        bytes.len() / 4,
        |i: int| word_of(bytes[4 * i], bytes[4 * i + 1], bytes[4 * i + 2], bytes[4 * i + 3]) as u32,
    )
}

/// The bytes that carry `samples`, four for each.
pub open spec fn encoded(samples: Seq<u32>) -> Seq<u8> {
    Seq::new(4 * samples.len(), |j: int| byte_of(samples[j / 4], j % 4))
}

/// Reads the samples out of bytes received from the network: each group of
/// four bytes is one sample's bit pattern, least significant byte first.
/// Bytes that end in part of a sample are refused whole.
pub fn u8_to_f32(bytes: &[u8]) -> (r: Result<Vec<u32>, StreamError>)
    ensures
        bytes@.len() % 4 != 0 ==> r == Err::<Vec<u32>, StreamError>(StreamError::PartialSample),
        bytes@.len() % 4 == 0 ==> r is Ok,
        r matches Ok(v) ==> v@ == decoded(bytes@),
{
    if bytes.len() % 4 != 0 {
        return Err(StreamError::PartialSample);
    }
    let n = bytes.len() / 4;
    assert(bytes@.len() <= usize::MAX);
    let mut out: Vec<u32> = Vec::with_capacity(n);
    let mut i: usize = 0;
    while i < n
        invariant
            n == bytes@.len() / 4,
            4 * n == bytes@.len(),
            bytes@.len() <= usize::MAX,
            i <= n,
            out@ == decoded(bytes@).take(i as int),
        decreases n - i,
    {
        let at = 4 * i;
        let w = bytes[at] as u32 + bytes[at + 1] as u32 * 256 + bytes[at + 2] as u32 * 65536
            + bytes[at + 3] as u32 * 16777216;
        out.push(w);
        i += 1;
        assert(out@ =~= decoded(bytes@).take(i as int));
    }
    assert(out@ =~= decoded(bytes@));
    Ok(out)
}

/// Lays samples out as bytes for the network: each sample's bit pattern,
/// least significant byte first.
pub fn f32_to_u8(samples: &[u32]) -> (r: Vec<u8>)
    requires
        samples@.len() <= usize::MAX / 4,
    ensures
        r@ == encoded(samples@),
{
    let n = samples.len();
    let mut out: Vec<u8> = Vec::with_capacity(4 * n);
    let mut i: usize = 0;
    while i < n
        invariant
            n == samples@.len(),
            n <= usize::MAX / 4,
            i <= n,
            out@ == encoded(samples@).take(4 * i),
        decreases n - i,
    {
        let w = samples[i];
        out.push((w % 256) as u8);
        out.push(((w / 256) % 256) as u8);
        out.push(((w / 65536) % 256) as u8);
        out.push((w / 16777216) as u8);
        i += 1;
        assert(out@ =~= encoded(samples@).take(4 * i));
    }
    assert(out@ =~= encoded(samples@));
    out
}

/// The four bytes of a word put back together give the word.
proof fn lemma_word_of_bytes(w: u32)
    ensures
        word_of(byte_of(w, 0), byte_of(w, 1), byte_of(w, 2), byte_of(w, 3)) == w,
{
    assert(w == w % 256 + 256 * ((w / 256) % 256) + 65536 * ((w / 65536) % 256) + 16777216 * (w / 16777216))
        by (nonlinear_arith);
}

/// Samples survive the trip through the wire: decoding the bytes that
/// encode them gives them back, in order.
pub proof fn lemma_wire_round_trip(samples: Seq<u32>)
    ensures
        decoded(encoded(samples)) == samples,
{
    let bytes = encoded(samples);
    assert forall|i: int| 0 <= i < samples.len() implies #[trigger] decoded(bytes)[i] == samples[i] by {
        assert((4 * i) / 4 == i && (4 * i) % 4 == 0);
        assert((4 * i + 1) / 4 == i && (4 * i + 1) % 4 == 1);
        assert((4 * i + 2) / 4 == i && (4 * i + 2) % 4 == 2);
        assert((4 * i + 3) / 4 == i && (4 * i + 3) % 4 == 3);
        lemma_word_of_bytes(samples[i]);
    }
    assert(decoded(bytes) =~= samples);
}

} // verus!
