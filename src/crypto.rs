//! The hash functions and signature scheme this library relies on.

use vstd::prelude::*;

verus! {

/// Blake2b-256 digest of a byte string.
pub uninterp spec fn blake2b_of(data: Seq<u8>) -> Seq<u8>;

/// SHA-256 digest of a byte string.
pub uninterp spec fn sha256_of(data: Seq<u8>) -> Seq<u8>;

/// SHA-512 digest of a byte string.
pub uninterp spec fn sha512_of(data: Seq<u8>) -> Seq<u8>;

/// Whether `sig` is a valid Ed25519 signature of `msg` under the public key `key`.
pub uninterp spec fn ed25519_valid(key: Seq<u8>, sig: Seq<u8>, msg: Seq<u8>) -> bool;

/// Relies on nimiq_hash::Blake2bHasher::digest: the 32-byte Blake2b digest of `data`.
#[verifier::external_body]
pub(crate) fn blake2b(data: &[u8]) -> (r: Vec<u8>)
    ensures
        r@ == blake2b_of(data@),
        r@.len() == 32,
{
    let h: nimiq_hash::Blake2bHash = nimiq_hash::Hasher::digest(nimiq_hash::Blake2bHasher::default(), data);
    h.0.to_vec()
}

/// Relies on nimiq_hash::Sha256Hasher::digest: the 32-byte SHA-256 digest of `data`.
#[verifier::external_body]
pub(crate) fn sha256(data: &[u8]) -> (r: Vec<u8>)
    ensures
        r@ == sha256_of(data@),
        r@.len() == 32,
{
    let h: nimiq_hash::Sha256Hash = nimiq_hash::Hasher::digest(nimiq_hash::Sha256Hasher::default(), data);
    h.0.to_vec()
}

/// Relies on nimiq_hash::sha512::Sha512Hasher::digest: the 64-byte SHA-512 digest of `data`.
#[verifier::external_body]
pub(crate) fn sha512(data: &[u8]) -> (r: Vec<u8>)
    ensures
        r@ == sha512_of(data@),
        r@.len() == 64,
{
    let h: nimiq_hash::sha512::Sha512Hash =
        nimiq_hash::Hasher::digest(nimiq_hash::sha512::Sha512Hasher::default(), data);
    <[u8; 64]>::from(h).to_vec()
}

/// Relies on nimiq_keys::Ed25519PublicKey::verify: whether `sig` signs `msg` under `key`.
/// A key or signature whose bytes do not decode verifies nothing.
#[verifier::external_body]
pub(crate) fn ed25519_verify(key: &[u8], sig: &[u8], msg: &[u8]) -> (r: bool)
    ensures
        r == ed25519_valid(key@, sig@, msg@),
{
    match (nimiq_keys::Ed25519PublicKey::from_bytes(key), nimiq_keys::Ed25519Signature::from_bytes(sig)) {
        (Ok(k), Ok(s)) => k.verify(&s, msg),
        _ => false,
    }
}

/// Blake2b Merkle root over a list of leaf hashes.
pub uninterp spec fn merkle_root_of(leaves: Seq<Seq<u8>>) -> Seq<u8>;

/// Relies on nimiq_utils::merkle::compute_root_from_hashes: the Blake2b Merkle root over the
/// 32-byte leaf hashes `leaves`, in order.
#[verifier::external_body]
pub(crate) fn merkle_root(leaves: &Vec<Vec<u8>>) -> (r: Vec<u8>)
    requires
        forall|i: int| 0 <= i < leaves@.len() ==> #[trigger] leaves@[i]@.len() == 32,
    ensures
        r@ == merkle_root_of(leaves@.map_values(|l: Vec<u8>| l@)),
        r@.len() == 32,
{
    let hashes: Vec<nimiq_hash::Blake2bHash> =
        leaves.iter().map(|l| nimiq_hash::Blake2bHash::from(l.as_slice())).collect();
    nimiq_utils::merkle::compute_root_from_hashes::<nimiq_hash::Blake2bHash>(&hashes).into_owned().0.to_vec()
}

/// The root that an encoded Blake2b Merkle multi-proof yields over the given leaf hashes, or
/// `None` when the proof does not decode or does not fit the leaves.
pub uninterp spec fn merkle_proof_root_of(proof: Seq<u8>, leaves: Seq<Seq<u8>>) -> Option<Seq<u8>>;

/// Relies on nimiq_utils::merkle::MerkleProof::compute_root (with the proof decoded by
/// nimiq_serde::Deserialize::deserialize_from_vec): the root that the proof `proof` yields over
/// the 32-byte leaf hashes `leaves`, in order; `None` when decoding or computing fails.
#[verifier::external_body]
pub(crate) fn merkle_proof_root(proof: &[u8], leaves: &Vec<Vec<u8>>) -> (r: Option<Vec<u8>>)
    requires
        forall|i: int| 0 <= i < leaves@.len() ==> #[trigger] leaves@[i]@.len() == 32,
    ensures
        match r {
            Some(v) => merkle_proof_root_of(proof@, leaves@.map_values(|l: Vec<u8>| l@)) == Some(v@),
            None => merkle_proof_root_of(proof@, leaves@.map_values(|l: Vec<u8>| l@)) is None,
        },
{
    let hashes: Vec<nimiq_hash::Blake2bHash> =
        leaves.iter().map(|l| nimiq_hash::Blake2bHash::from(l.as_slice())).collect();
    let decoded: Result<nimiq_utils::merkle::Blake2bMerkleProof, _> =
        nimiq_serde::Deserialize::deserialize_from_vec(proof);
    match decoded {
        Ok(p) => p.compute_root(hashes).ok().map(|root| root.0.to_vec()),
        Err(_) => None,
    }
}

} // verus!
