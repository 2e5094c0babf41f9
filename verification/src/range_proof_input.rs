//! How arbitrary input bytes are cut into the pieces that a range-proof
//! decode and check is exercised with: the first byte picks how many
//! 32-byte commitments (0 to 7) to carve from the rest, as many of them as
//! there are bytes for, and whatever follows is the candidate proof encoding.

use vstd::prelude::*;

verus! {

/// The pieces cut from one input.
pub struct RangeProofInput {
    /// The 32-byte commitments, not necessarily valid point encodings.
    pub commitments: Vec<[u8; 32]>,
    /// The bytes left after the commitments: the candidate proof encoding.
    pub proof_bytes: Vec<u8>,
}

/// How many commitments the first byte of `data` asks for: 0 to 7.
pub open spec fn requested_commitments(data: Seq<u8>) -> nat {
    (data[0] % 8) as nat
}

/// How many commitments are carved from non-empty `data`: those asked for,
/// as far as the bytes after the first reach.
pub open spec fn commitment_count(data: Seq<u8>) -> nat {
    let available = ((data.len() - 1) / 32) as nat;
    if requested_commitments(data) <= available {
        requested_commitments(data)
    } else {
        available
    }
}

/// The `i`th commitment carved from `data`.
pub open spec fn commitment_at(data: Seq<u8>, i: int) -> Seq<u8> {
    data.subrange(1 + 32 * i, 1 + 32 * i + 32)
}

/// The proof bytes carved from `data`: all after the commitments.
pub open spec fn proof_bytes_of(data: Seq<u8>) -> Seq<u8> {
    data.subrange(1 + 32 * commitment_count(data) as int, data.len() as int)
}

/// The commitments, laid end to end.
pub open spec fn concat_commitments(cs: Seq<Seq<u8>>) -> Seq<u8>
    decreases cs.len(),
{
    if cs.len() == 0 {
        Seq::empty()
    } else {
        concat_commitments(cs.drop_last()) + cs.last()
    }
}

/// The first byte modulo 8 is how many commitments are carved, as long as
/// the bytes after the first hold that many 32-byte chunks; when they hold
/// fewer, every whole chunk there is carved. So at most seven are carved,
/// and they fit in the bytes after the first.
pub proof fn lemma_commitment_count_bounds(data: Seq<u8>)
    requires
        data.len() > 0,
    ensures
        commitment_count(data) <= 7,
        commitment_count(data) <= data[0] % 8,
        1 + 32 * (data[0] % 8) <= data.len() ==> commitment_count(data) == data[0] % 8,
        1 + 32 * commitment_count(data) <= data.len(),
        commitment_count(data) < data[0] % 8 ==> data.len() - 1 - 32 * commitment_count(data)
            < 32,
{
}

/// The first `n` commitments of `data`, laid end to end, are its bytes after
/// the first up to `1 + 32 * n`.
proof fn lemma_concat_prefix(data: Seq<u8>, n: nat)
    requires
        1 + 32 * n <= data.len(),
    ensures
        concat_commitments(Seq::new(n, |i: int| commitment_at(data, i))) == data.subrange(
            1,
            1 + 32 * n as int,
        ),
    decreases n,
{
    let cs = Seq::new(n, |i: int| commitment_at(data, i));
    if n > 0 {
        lemma_concat_prefix(data, (n - 1) as nat);
        assert(cs.drop_last() =~= Seq::new((n - 1) as nat, |i: int| commitment_at(data, i)));
        assert(data.subrange(1, 1 + 32 * n as int) =~= data.subrange(1, 1 + 32 * (n - 1))
            + commitment_at(data, n - 1));
    } else {
        assert(data.subrange(1, 1) =~= Seq::<u8>::empty());
    }
}

/// Nothing is lost or reordered: the commitments laid end to end, followed
/// by the proof bytes, are exactly the input after its first byte.
pub proof fn lemma_split_loses_nothing(data: Seq<u8>)
    requires
        data.len() > 0,
    ensures
        concat_commitments(
            Seq::new(commitment_count(data), |i: int| commitment_at(data, i)),
        ) + proof_bytes_of(data) == data.drop_first(),
{
    lemma_commitment_count_bounds(data);
    lemma_concat_prefix(data, commitment_count(data));
    assert(data.subrange(1, 1 + 32 * commitment_count(data) as int) + proof_bytes_of(data)
        =~= data.drop_first());
}

/// Copies the 32 bytes of `data` from `start` on into an array.
fn copy_32(data: &[u8], start: usize) -> (r: [u8; 32])
    requires
        start + 32 <= data@.len(),
    ensures
        r@ == data@.subrange(start as int, start + 32),
{
    let mut bytes = [0u8; 32];
    let n = data.len();
    let mut i: usize = 0;
    while i < 32
        invariant
            i <= 32,
            n == data@.len(),
            start + 32 <= data@.len(),
            forall|j: int| 0 <= j < i ==> bytes@[j] == data@[start + j],
        decreases 32 - i,
    {
        bytes[i] = data[start + i];
        i += 1;
    }
    assert(bytes@ =~= data@.subrange(start as int, start + 32));
    bytes
}

/// Copies `data` from `start` to its end into a vector.
fn copy_tail(data: &[u8], start: usize) -> (r: Vec<u8>)
    requires
        start <= data@.len(),
    ensures
        r@ == data@.subrange(start as int, data@.len() as int),
{
    let mut out: Vec<u8> = Vec::new();
    let mut i: usize = start;
    while i < data.len()
        invariant
            start <= i <= data@.len(),
            out@ == data@.subrange(start as int, i as int),
        decreases data@.len() - i,
    {
        out.push(data[i]);
        i += 1;
        assert(out@ =~= data@.subrange(start as int, i as int));
    }
    out
}

/// Cuts `data` into commitments and proof bytes; empty input gives `None`.
pub fn split_range_proof_input(data: &[u8]) -> (r: Option<RangeProofInput>)
    ensures
        r is None <==> data@.len() == 0,
        r matches Some(input) ==> {
            &&& input.commitments@.len() == commitment_count(data@)
            &&& forall|i: int|
                0 <= i < input.commitments@.len() ==> #[trigger] input.commitments@[i]@
                    == commitment_at(data@, i)
            &&& input.proof_bytes@ == proof_bytes_of(data@)
        },
{
    if data.len() == 0 {
        return None;
    }
    let num_commitments: usize = (data[0] % 8) as usize;
    let mut commitments: Vec<[u8; 32]> = Vec::new();
    let mut offset: usize = 0;
    let mut k: usize = 0;
    while k < num_commitments
        invariant
            data@.len() >= 1,
            num_commitments == requested_commitments(data@),
            k <= num_commitments,
            offset == 32 * k,
            commitments@.len() == k,
            1 + offset <= data@.len(),
            forall|i: int| 0 <= i < k ==> #[trigger] commitments@[i]@ == commitment_at(data@, i),
            k < num_commitments ==> k <= (data@.len() - 1) / 32,
        ensures
            commitments@.len() == commitment_count(data@),
            offset == 32 * commitment_count(data@),
            forall|i: int| 0 <= i < commitments@.len() ==> #[trigger] commitments@[i]@ == commitment_at(data@, i),
        decreases num_commitments - k,
    {
        if offset + 32 > data.len() - 1 {
            break;
        }
        let bytes = copy_32(data, 1 + offset);
        commitments.push(bytes);
        offset += 32;
        k += 1;
    }
    let proof_bytes = copy_tail(data, 1 + offset);
    Some(RangeProofInput { commitments, proof_bytes })
}

} // verus!
