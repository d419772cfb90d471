use vstd::prelude::*;

use crate::error::BenchError;
use polkadot_node_primitives::{AvailableData, BlockData, PoV};
use polkadot_primitives::{HeadData, PersistedValidationData};

verus! {

/// Largest validator count the erasure code supports (the order of GF(2^16)).
pub const MAX_VALIDATORS: usize = 65536;

/// The erasure code's own error, carried only as far as it is mapped to [`BenchError`].
#[verifier::external_type_specification]
#[verifier::external_body]
pub struct ExErasureError(polkadot_erasure_coding::Error);

/// The data that a candidate makes available: validation data and the block itself.
pub struct AvailableBlob {
    pub parent_head: Vec<u8>,
    pub relay_parent_number: u32,
    pub relay_parent_storage_root: [u8; 32],
    pub max_pov_size: u32,
    pub block_data: Vec<u8>,
}

/// One erasure-coded piece of a blob, with its place and its Merkle proof.
pub struct ErasureChunk {
    pub chunk: Vec<u8>,
    pub index: u32,
    pub proof: Vec<Vec<u8>>,
}

/// The chunks that the erasure code yields for `n` validators on the given blob.
pub uninterp spec fn erasure_chunks_of(
    n: nat,
    parent_head: Seq<u8>,
    relay_parent_number: u32,
    storage_root: Seq<u8>,
    max_pov_size: u32,
    block_data: Seq<u8>,
) -> Seq<Seq<u8>>;

/// The Merkle root over a sequence of chunks.
pub uninterp spec fn merkle_root_of(chunks: Seq<Seq<u8>>) -> Seq<u8>;

/// The Merkle proofs, in chunk order, for a sequence of chunks.
pub uninterp spec fn merkle_proofs_of(chunks: Seq<Seq<u8>>) -> Seq<Seq<Seq<u8>>>;

/// Validator counts for which the code yields chunks.
pub open spec fn valid_validator_count(n: nat) -> bool {
    2 <= n <= MAX_VALIDATORS
}

/// The chunks of a blob, through its fields.
pub open spec fn blob_chunks(n: nat, data: AvailableBlob) -> Seq<Seq<u8>> {
    erasure_chunks_of(
        n,
        data.parent_head@,
        data.relay_parent_number,
        data.relay_parent_storage_root@,
        data.max_pov_size,
        data.block_data@,
    )
}

/// Derivation succeeds when the code accepts the count and a proof exists for every chunk.
pub open spec fn derivation_ok(n: nat, data: AvailableBlob) -> bool {
    valid_validator_count(n) && merkle_proofs_of(blob_chunks(n, data)).len() == n
}

/// What chunk `i` of a derivation holds.
pub open spec fn chunk_matches(c: ErasureChunk, i: int, n: nat, data: AvailableBlob) -> bool {
    &&& c.index == i
    &&& c.chunk@ == blob_chunks(n, data)[i]
    &&& c.proof.deep_view() == merkle_proofs_of(blob_chunks(n, data))[i]
}

/// Relies on polkadot_erasure_coding::obtain_chunks_v1: it fails exactly when the validator
/// count is below 2 or above 65536, and otherwise yields one chunk per validator, which
/// depend on the count and the blob alone.
#[verifier::external_body]
fn obtain_chunks(n_validators: usize, data: &AvailableBlob) -> (r: Result<
    Vec<Vec<u8>>,
    polkadot_erasure_coding::Error,
>)
    ensures
        r.is_ok() <==> valid_validator_count(n_validators as nat),
        r matches Ok(c) ==> c.len() == n_validators && c.deep_view() == erasure_chunks_of(
            n_validators as nat,
            data.parent_head@,
            data.relay_parent_number,
            data.relay_parent_storage_root@,
            data.max_pov_size,
            data.block_data@,
        ),
{
    let validation_data = PersistedValidationData {
        parent_head: HeadData(data.parent_head.clone()),
        relay_parent_number: data.relay_parent_number,
        relay_parent_storage_root: polkadot_primitives::Hash::from(data.relay_parent_storage_root),
        max_pov_size: data.max_pov_size,
    };
    let pov = PoV { block_data: BlockData(data.block_data.clone()) };
    let available = AvailableData { pov: std::sync::Arc::new(pov), validation_data };
    polkadot_erasure_coding::obtain_chunks_v1(n_validators, &available)
}

/// Relies on polkadot_erasure_coding::branches: the trie root over the chunks, and the
/// proofs its iterator yields, which stop early only where a proof exceeds its bound.
#[verifier::external_body]
fn merkle_branches(chunks: &Vec<Vec<u8>>) -> (r: (Vec<u8>, Vec<Vec<Vec<u8>>>))
    ensures
        r.0@ == merkle_root_of(chunks.deep_view()),
        r.1.deep_view() == merkle_proofs_of(chunks.deep_view()),
        r.1.len() <= chunks.len(),
{
    let branches = polkadot_erasure_coding::branches(&chunks[..]);
    let root = branches.root().as_bytes().to_vec();
    let proofs = branches.map(|(proof, _)| proof.iter().map(|n| n.to_vec()).collect()).collect();
    (root, proofs)
}

/// Splits a blob into one chunk per validator, each with its index and its Merkle proof
/// against the single returned root.
pub fn derive_erasure_chunks_with_proofs_and_root(n_validators: usize, data: &AvailableBlob) -> (r:
    Result<(Vec<ErasureChunk>, Vec<u8>), BenchError>)
    ensures
        r.is_ok() <==> derivation_ok(n_validators as nat, *data),
        r is Err ==> r == Err::<(Vec<ErasureChunk>, Vec<u8>), BenchError>(BenchError::EncodingError),
        r matches Ok((chunks, root)) ==> {
            &&& chunks.len() == n_validators
            &&& root@ == merkle_root_of(blob_chunks(n_validators as nat, *data))
            &&& forall|i: int|
                0 <= i < chunks.len() ==> #[trigger] chunk_matches(
                    chunks[i],
                    i,
                    n_validators as nat,
                    *data,
                )
        },
{
    let mut pieces = match obtain_chunks(n_validators, data) {
        Ok(c) => c,
        Err(_) => {
            return Err(BenchError::EncodingError);
        },
    };
    let (root, mut proofs) = merkle_branches(&pieces);
    if proofs.len() != pieces.len() {
        return Err(BenchError::EncodingError);
    }
    let ghost all_pieces = pieces.deep_view();
    let ghost all_proofs = proofs.deep_view();
    let mut out: Vec<ErasureChunk> = Vec::new();
    while pieces.len() > 0
        invariant
            pieces.len() == proofs.len(),
            pieces.len() + out.len() == n_validators,
            n_validators <= MAX_VALIDATORS,
            all_pieces.len() == n_validators,
            all_proofs.len() == n_validators,
            forall|j: int| 0 <= j < pieces.len() ==> #[trigger] pieces@[j]@ == all_pieces[j],
            forall|j: int| 0 <= j < proofs.len() ==> #[trigger] proofs@[j].deep_view() == all_proofs[j],
            forall|j: int|
                0 <= j < out.len() ==> {
                    let k = j + pieces.len();
                    &&& (#[trigger] out@[j]).index == k
                    &&& out@[j].chunk@ == all_pieces[k]
                    &&& out@[j].proof.deep_view() == all_proofs[k]
                },
        decreases pieces.len(),
    {
        let chunk = pieces.pop().unwrap();
        let proof = proofs.pop().unwrap();
        let index = pieces.len() as u32;
        out.insert(0, ErasureChunk { chunk, index, proof });
    }
    Ok((out, root))
}

/// Derivation is deterministic: blobs that hold the same values, split for the same count,
/// give the same chunks, the same root and the same proofs, and succeed or fail alike.
pub proof fn lemma_derivation_deterministic(n: nat, a: AvailableBlob, b: AvailableBlob)
    requires
        a.parent_head@ == b.parent_head@,
        a.relay_parent_number == b.relay_parent_number,
        a.relay_parent_storage_root@ == b.relay_parent_storage_root@,
        a.max_pov_size == b.max_pov_size,
        a.block_data@ == b.block_data@,
    ensures
        blob_chunks(n, a) == blob_chunks(n, b),
        merkle_root_of(blob_chunks(n, a)) == merkle_root_of(blob_chunks(n, b)),
        merkle_proofs_of(blob_chunks(n, a)) == merkle_proofs_of(blob_chunks(n, b)),
        derivation_ok(n, a) == derivation_ok(n, b),
{
}

} // verus!
