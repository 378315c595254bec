//! Hash-time-locked contracts: creation data, the three outgoing proof shapes, and the checks a
//! transaction into or out of such a contract must pass.

use vstd::prelude::*;
use crate::bytes::{
    append_bytes, be_bytes, be_value, bytes_eq, copy_range, lemma_be_round_trip, lemma_pow256_8, push_be, read_be,
};
use crate::crypto::{blake2b, blake2b_of, sha256, sha256_of, sha512, sha512_of};
use crate::hashes::{
    AnyHash, PreImage, TAG_BLAKE2B, TAG_SHA256, digest_size, is_hash_tag,
    lemma_any_hash_view_round_trip, lemma_decode_any_hash_prefix, lemma_decode_pre_image_prefix,
    lemma_pre_image_view_round_trip, spec_decode_any_hash, spec_decode_pre_image,
};
use crate::transaction::{
    AccountType, FLAG_CONTRACT_CREATION, FLAG_SIGNALING, SignatureProof, SignatureProofView,
    Transaction, TransactionError, lemma_decode_signature_proof_prefix,
    lemma_signature_proof_round_trip, signature_proof_signs, signature_proof_view_wf,
    spec_decode_signature_proof, spec_encode_signature_proof,
};

verus! {

/// Length of creation data whose hash root is a 32-byte digest.
pub const CREATION_DATA_LEN_32: usize = 82;

/// Length of creation data whose hash root is a 64-byte digest.
pub const CREATION_DATA_LEN_64: usize = 114;

/// Digest of `data` under the algorithm of compact tag `tag`.
pub open spec fn hash_with(tag: u8, data: Seq<u8>) -> Seq<u8> {
    if tag == TAG_BLAKE2B {
        blake2b_of(data)
    } else if tag == TAG_SHA256 {
        sha256_of(data)
    } else {
        sha512_of(data)
    }
}

/// `start` hashed `depth` times under the algorithm of tag `tag`.
pub open spec fn hash_chain(tag: u8, start: Seq<u8>, depth: nat) -> Seq<u8>
    decreases depth,
{
    if depth == 0 {
        start
    } else {
        hash_with(tag, hash_chain(tag, start, (depth - 1) as nat))
    }
}

/// One step of the hash chain: the digest of `pre_image` under the algorithm of `root`.
fn hash_step(root: &AnyHash, pre_image: &PreImage) -> (r: PreImage)
    ensures
        r.wf(),
        r@ == hash_with(root@.0, pre_image@),
{
    match root {
        AnyHash::Blake2b(_) => PreImage::from_bytes(blake2b(pre_image.as_bytes())),
        AnyHash::Sha256(_) => PreImage::from_bytes(sha256(pre_image.as_bytes())),
        AnyHash::Sha512(_) => PreImage::from_bytes(sha512(pre_image.as_bytes())),
    }
}

/// Sender, recipient, hash root, hash count and timeout, as decoded creation data holds them.
pub type CreationDataView = (Seq<u8>, Seq<u8>, (u8, Seq<u8>), u8, nat);

/// Decoding of creation data at the front of `b`: sender (20 bytes), recipient (20 bytes), hash
/// root (tag and digest), hash count (1 byte) and timeout (8 bytes, big-endian). Bytes after
/// these are ignored.
pub open spec fn spec_decode_creation_data(b: Seq<u8>) -> Option<CreationDataView> {
    if b.len() < 40 {
        None
    } else {
        match spec_decode_any_hash(b.subrange(40, b.len() as int)) {
            None => None,
            Some((root, n)) => {
                let at: int = 40 + n as int;
                if b.len() < at + 9 {
                    None
                } else {
                    Some(
                        (
                            b.subrange(0, 20),
                            b.subrange(20, 40),
                            root,
                            b[at],
                            be_value(b.subrange(at + 1, at + 9)),
                        ),
                    )
                }
            },
        }
    }
}

/// Twenty-byte addresses, a well-formed hash root and a timeout that fits eight bytes.
pub open spec fn creation_view_wf(v: CreationDataView) -> bool {
    &&& v.0.len() == 20
    &&& v.1.len() == 20
    &&& is_hash_tag(v.2.0)
    &&& v.2.1.len() == digest_size(v.2.0)
    &&& v.4 < 0x1_0000_0000_0000_0000
}

/// Encoding of creation data.
pub open spec fn spec_encode_creation_data(v: CreationDataView) -> Seq<u8> {
    v.0 + v.1 + (seq![v.2.0] + v.2.1) + seq![v.3] + be_bytes(v.4, 8)
}

/// Well-formed creation data decodes back from its encoding.
pub proof fn lemma_creation_data_round_trip(v: CreationDataView)
    requires
        creation_view_wf(v),
    ensures
        spec_decode_creation_data(spec_encode_creation_data(v)) == Some(v),
{
    let e = spec_encode_creation_data(v);
    let root = seq![v.2.0] + v.2.1;
    let n = root.len() as int;
    lemma_pow256_8();
    lemma_be_round_trip(v.4, 8);
    let tail = seq![v.3] + be_bytes(v.4, 8);
    assert(e.subrange(40, e.len() as int) =~= root + tail);
    lemma_any_hash_view_round_trip(v.2);
    lemma_decode_any_hash_prefix(root, tail);
    assert(e.subrange(0, 20) =~= v.0);
    assert(e.subrange(20, 40) =~= v.1);
    assert(e[40 + n] == v.3);
    assert(e.subrange(40 + n + 1, 40 + n + 9) =~= be_bytes(v.4, 8));
}

/// What a transaction creating a hash-time-locked contract carries in its data.
#[derive(Debug, Clone)]
pub struct CreationTransactionData {
    pub sender: Vec<u8>,
    pub recipient: Vec<u8>,
    pub hash_root: AnyHash,
    pub hash_count: u8,
    pub timeout: u64,
}

impl View for CreationTransactionData {
    type V = CreationDataView;

    open spec fn view(&self) -> CreationDataView {
        (self.sender@, self.recipient@, self.hash_root@, self.hash_count, self.timeout as nat)
    }
}

impl CreationTransactionData {
    /// Decodes the creation data carried by `transaction`.
    pub fn parse(transaction: &Transaction) -> (r: Result<CreationTransactionData, TransactionError>)
        ensures
            match spec_decode_creation_data(transaction.data@) {
                Some(v) => r matches Ok(c) && c@ == v,
                None => r == Err::<CreationTransactionData, TransactionError>(
                    TransactionError::InvalidSerialization,
                ),
            },
    {
        let data = transaction.data.as_slice();
        let len = data.len();
        if len < 40 {
            return Err(TransactionError::InvalidSerialization);
        }
        let rest = &data[40..len];
        assert(rest@ == data@.subrange(40, len as int));
        match AnyHash::decode(rest) {
            None => Err(TransactionError::InvalidSerialization),
            Some((hash_root, n)) => {
                let at = 40 + n;
                if len - at < 9 {
                    return Err(TransactionError::InvalidSerialization);
                }
                let sender = copy_range(data, 0, 20);
                let recipient = copy_range(data, 20, 40);
                let hash_count = data[at];
                let timeout = read_be(data, at + 1, 8);
                Ok(CreationTransactionData { sender, recipient, hash_root, hash_count, timeout })
            },
        }
    }

    /// Encoding: sender, recipient, hash root (compact), hash count, timeout (big-endian).
    pub fn encode(&self) -> (r: Vec<u8>)
        requires
            creation_view_wf(self@),
        ensures
            r@ == spec_encode_creation_data(self@),
    {
        let mut r: Vec<u8> = Vec::new();
        append_bytes(&mut r, self.sender.as_slice());
        append_bytes(&mut r, self.recipient.as_slice());
        let root = self.hash_root.encode();
        append_bytes(&mut r, root.as_slice());
        r.push(self.hash_count);
        push_be(&mut r, self.timeout, 8);
        assert(r@ =~= spec_encode_creation_data(self@));
        r
    }

    /// Creation data is valid when its hash count is not zero.
    pub fn verify(&self) -> (r: Result<(), TransactionError>)
        ensures
            r == (if self.hash_count == 0 {
                Err::<(), TransactionError>(TransactionError::InvalidData)
            } else {
                Ok(())
            }),
    {
        if self.hash_count == 0 {
            return Err(TransactionError::InvalidData);
        }
        Ok(())
    }
}

/// An outgoing proof as a decoded proof holds it.
pub enum ProofView {
    RegularTransfer {
        hash_depth: u8,
        hash_root: (u8, Seq<u8>),
        pre_image: Seq<u8>,
        signature_proof: SignatureProofView,
    },
    EarlyResolve { signature_proof_recipient: SignatureProofView, signature_proof_sender: SignatureProofView },
    TimeoutResolve { signature_proof_sender: SignatureProofView },
}

/// Wire tag of a regular transfer proof.
pub const PROOF_REGULAR_TRANSFER: u8 = 0;

/// Wire tag of an early resolve proof.
pub const PROOF_EARLY_RESOLVE: u8 = 1;

/// Wire tag of a timeout resolve proof.
pub const PROOF_TIMEOUT_RESOLVE: u8 = 2;

/// Decoding of an outgoing proof at the front of `b`: a variant tag, then the variant's fields
/// in order. Gives the proof and the number of bytes taken.
pub open spec fn spec_decode_proof(b: Seq<u8>) -> Option<(ProofView, nat)> {
    if b.len() == 0 {
        None
    } else if b[0] == PROOF_REGULAR_TRANSFER {
        if b.len() < 2 {
            None
        } else {
            match spec_decode_any_hash(b.subrange(2, b.len() as int)) {
                None => None,
                Some((root, n1)) => match spec_decode_pre_image(
                    b.subrange(2 + n1 as int, b.len() as int),
                ) {
                    None => None,
                    Some((pre, n2)) => match spec_decode_signature_proof(
                        b.subrange(2 + n1 + n2 as int, b.len() as int),
                    ) {
                        None => None,
                        Some((sig, n3)) => Some(
                            (
                                ProofView::RegularTransfer {
                                    hash_depth: b[1],
                                    hash_root: root,
                                    pre_image: pre,
                                    signature_proof: sig,
                                },
                                2 + n1 + n2 + n3,
                            ),
                        ),
                    },
                },
            }
        }
    } else if b[0] == PROOF_EARLY_RESOLVE {
        match spec_decode_signature_proof(b.subrange(1, b.len() as int)) {
            None => None,
            Some((recipient, n1)) => match spec_decode_signature_proof(
                b.subrange(1 + n1 as int, b.len() as int),
            ) {
                None => None,
                Some((sender, n2)) => Some(
                    (
                        ProofView::EarlyResolve {
                            signature_proof_recipient: recipient,
                            signature_proof_sender: sender,
                        },
                        1 + n1 + n2,
                    ),
                ),
            },
        }
    } else if b[0] == PROOF_TIMEOUT_RESOLVE {
        match spec_decode_signature_proof(b.subrange(1, b.len() as int)) {
            None => None,
            Some((sender, n1)) => Some(
                (ProofView::TimeoutResolve { signature_proof_sender: sender }, 1 + n1),
            ),
        }
    } else {
        None
    }
}

/// Every part of a proof is well formed.
pub open spec fn proof_view_wf(p: ProofView) -> bool {
    match p {
        ProofView::RegularTransfer { hash_depth, hash_root, pre_image, signature_proof } => {
            &&& is_hash_tag(hash_root.0)
            &&& hash_root.1.len() == digest_size(hash_root.0)
            &&& (pre_image.len() == 32 || pre_image.len() == 64)
            &&& signature_proof_view_wf(signature_proof)
        },
        ProofView::EarlyResolve { signature_proof_recipient, signature_proof_sender } => {
            signature_proof_view_wf(signature_proof_recipient) && signature_proof_view_wf(
                signature_proof_sender,
            )
        },
        ProofView::TimeoutResolve { signature_proof_sender } => signature_proof_view_wf(
            signature_proof_sender,
        ),
    }
}

/// Encoding of an outgoing proof: the variant tag, then its fields in order.
pub open spec fn spec_encode_proof(p: ProofView) -> Seq<u8> {
    match p {
        ProofView::RegularTransfer { hash_depth, hash_root, pre_image, signature_proof } => seq![
            PROOF_REGULAR_TRANSFER,
            hash_depth,
        ] + (seq![hash_root.0] + hash_root.1) + (seq![pre_image.len() as u8] + pre_image)
            + spec_encode_signature_proof(signature_proof),
        ProofView::EarlyResolve { signature_proof_recipient, signature_proof_sender } => seq![
            PROOF_EARLY_RESOLVE,
        ] + spec_encode_signature_proof(signature_proof_recipient) + spec_encode_signature_proof(
            signature_proof_sender,
        ),
        ProofView::TimeoutResolve { signature_proof_sender } => seq![PROOF_TIMEOUT_RESOLVE]
            + spec_encode_signature_proof(signature_proof_sender),
    }
}

/// A well-formed proof decodes back from its encoding, taking all of it.
pub proof fn lemma_proof_round_trip(p: ProofView)
    requires
        proof_view_wf(p),
    ensures
        spec_decode_proof(spec_encode_proof(p)) == Some((p, spec_encode_proof(p).len())),
{
    let e = spec_encode_proof(p);
    let len = e.len() as int;
    match p {
        ProofView::RegularTransfer { hash_depth, hash_root, pre_image, signature_proof } => {
            let a = seq![hash_root.0] + hash_root.1;
            let b = seq![pre_image.len() as u8] + pre_image;
            let c = spec_encode_signature_proof(signature_proof);
            assert(e.subrange(2, len) =~= a + (b + c));
            lemma_any_hash_view_round_trip(hash_root);
            lemma_decode_any_hash_prefix(a, b + c);
            let n1 = a.len() as int;
            assert(e.subrange(2 + n1, len) =~= b + c);
            lemma_pre_image_view_round_trip(pre_image);
            lemma_decode_pre_image_prefix(b, c);
            let n2 = b.len() as int;
            assert(e.subrange(2 + n1 + n2, len) =~= c);
            lemma_signature_proof_round_trip(signature_proof);
        },
        ProofView::EarlyResolve { signature_proof_recipient, signature_proof_sender } => {
            let a = spec_encode_signature_proof(signature_proof_recipient);
            let b = spec_encode_signature_proof(signature_proof_sender);
            assert(e.subrange(1, len) =~= a + b);
            lemma_signature_proof_round_trip(signature_proof_recipient);
            lemma_decode_signature_proof_prefix(a, b);
            assert(e.subrange(1 + a.len() as int, len) =~= b);
            lemma_signature_proof_round_trip(signature_proof_sender);
        },
        ProofView::TimeoutResolve { signature_proof_sender } => {
            assert(e.subrange(1, len) =~= spec_encode_signature_proof(signature_proof_sender));
            lemma_signature_proof_round_trip(signature_proof_sender);
        },
    }
}

/// Whether a proof unlocks the contract for a transaction whose signed content is `msg`.
pub open spec fn proof_accepts(p: ProofView, msg: Seq<u8>) -> bool {
    match p {
        ProofView::RegularTransfer { hash_depth, hash_root, pre_image, signature_proof } => {
            &&& hash_chain(hash_root.0, pre_image, hash_depth as nat) == hash_root.1
            &&& signature_proof_signs(signature_proof, msg)
        },
        ProofView::EarlyResolve { signature_proof_recipient, signature_proof_sender } => {
            &&& signature_proof_signs(signature_proof_recipient, msg)
            &&& signature_proof_signs(signature_proof_sender, msg)
        },
        ProofView::TimeoutResolve { signature_proof_sender } => signature_proof_signs(
            signature_proof_sender,
            msg,
        ),
    }
}

/// The proofs that unlock a hash-time-locked contract.
///
/// 1. `RegularTransfer`: before the timeout, the recipient presents a pre-image that hashes to
///    the contract's hash root after `hash_depth` rounds, and signs the transaction.
/// 2. `EarlyResolve`: sender and recipient both sign; valid at any time.
/// 3. `TimeoutResolve`: after the timeout, the sender signs alone.
#[derive(Debug, Clone)]
pub enum OutgoingHTLCTransactionProof {
    RegularTransfer {
        hash_depth: u8,
        hash_root: AnyHash,
        pre_image: PreImage,
        signature_proof: SignatureProof,
    },
    EarlyResolve { signature_proof_recipient: SignatureProof, signature_proof_sender: SignatureProof },
    TimeoutResolve { signature_proof_sender: SignatureProof },
}

impl View for OutgoingHTLCTransactionProof {
    type V = ProofView;

    open spec fn view(&self) -> ProofView {
        match self {
            OutgoingHTLCTransactionProof::RegularTransfer {
                hash_depth,
                hash_root,
                pre_image,
                signature_proof,
            } => ProofView::RegularTransfer {
                hash_depth: *hash_depth,
                hash_root: hash_root@,
                pre_image: pre_image@,
                signature_proof: signature_proof@,
            },
            OutgoingHTLCTransactionProof::EarlyResolve {
                signature_proof_recipient,
                signature_proof_sender,
            } => ProofView::EarlyResolve {
                signature_proof_recipient: signature_proof_recipient@,
                signature_proof_sender: signature_proof_sender@,
            },
            OutgoingHTLCTransactionProof::TimeoutResolve { signature_proof_sender } =>
                ProofView::TimeoutResolve { signature_proof_sender: signature_proof_sender@ },
        }
    }
}

impl OutgoingHTLCTransactionProof {
    /// Decodes a proof from the front of `bytes`, returning it and the number of bytes it took.
    pub fn decode(bytes: &[u8]) -> (r: Option<(OutgoingHTLCTransactionProof, usize)>)
        ensures
            match spec_decode_proof(bytes@) {
                Some((v, n)) => r matches Some((p, m)) && p@ == v && m == n,
                None => r is None,
            },
    {
        let len = bytes.len();
        if len == 0 {
            return None;
        }
        let tag = bytes[0];
        if tag == PROOF_REGULAR_TRANSFER {
            if len < 2 {
                return None;
            }
            let hash_depth = bytes[1];
            let (hash_root, n1) = match AnyHash::decode(&bytes[2..len]) {
                Some(x) => x,
                None => return None,
            };
            let (pre_image, n2) = match PreImage::decode(&bytes[2 + n1..len]) {
                Some(x) => x,
                None => return None,
            };
            let (signature_proof, n3) = match SignatureProof::decode(&bytes[2 + n1 + n2..len]) {
                Some(x) => x,
                None => return None,
            };
            Some(
                (
                    OutgoingHTLCTransactionProof::RegularTransfer {
                        hash_depth,
                        hash_root,
                        pre_image,
                        signature_proof,
                    },
                    2 + n1 + n2 + n3,
                ),
            )
        } else if tag == PROOF_EARLY_RESOLVE {
            let (signature_proof_recipient, n1) = match SignatureProof::decode(&bytes[1..len]) {
                Some(x) => x,
                None => return None,
            };
            let (signature_proof_sender, n2) = match SignatureProof::decode(&bytes[1 + n1..len]) {
                Some(x) => x,
                None => return None,
            };
            Some(
                (
                    OutgoingHTLCTransactionProof::EarlyResolve {
                        signature_proof_recipient,
                        signature_proof_sender,
                    },
                    1 + n1 + n2,
                ),
            )
        } else if tag == PROOF_TIMEOUT_RESOLVE {
            let (signature_proof_sender, n1) = match SignatureProof::decode(&bytes[1..len]) {
                Some(x) => x,
                None => return None,
            };
            Some((OutgoingHTLCTransactionProof::TimeoutResolve { signature_proof_sender }, 1 + n1))
        } else {
            None
        }
    }

    /// Encoding: the variant tag, then the variant's fields in order.
    pub fn encode(&self) -> (r: Vec<u8>)
        requires
            proof_view_wf(self@),
            self matches OutgoingHTLCTransactionProof::RegularTransfer { pre_image, .. } ==> pre_image.wf(),
        ensures
            r@ == spec_encode_proof(self@),
    {
        let mut r: Vec<u8> = Vec::new();
        match self {
            OutgoingHTLCTransactionProof::RegularTransfer {
                hash_depth,
                hash_root,
                pre_image,
                signature_proof,
            } => {
                r.push(PROOF_REGULAR_TRANSFER);
                r.push(*hash_depth);
                append_bytes(&mut r, hash_root.encode().as_slice());
                append_bytes(&mut r, pre_image.encode().as_slice());
                append_bytes(&mut r, signature_proof.encode().as_slice());
                assert(r@ =~= spec_encode_proof(self@));
            },
            OutgoingHTLCTransactionProof::EarlyResolve {
                signature_proof_recipient,
                signature_proof_sender,
            } => {
                r.push(PROOF_EARLY_RESOLVE);
                append_bytes(&mut r, signature_proof_recipient.encode().as_slice());
                append_bytes(&mut r, signature_proof_sender.encode().as_slice());
                assert(r@ =~= spec_encode_proof(self@));
            },
            OutgoingHTLCTransactionProof::TimeoutResolve { signature_proof_sender } => {
                r.push(PROOF_TIMEOUT_RESOLVE);
                append_bytes(&mut r, signature_proof_sender.encode().as_slice());
                assert(r@ =~= spec_encode_proof(self@));
            },
        }
        assert(r@ =~= spec_encode_proof(self@));
        r
    }

    /// Decodes the proof carried by `transaction`, which must take all of the proof bytes.
    pub fn parse(transaction: &Transaction) -> (r: Result<OutgoingHTLCTransactionProof, TransactionError>)
        ensures
            match spec_decode_proof(transaction.proof@) {
                None => r == Err::<OutgoingHTLCTransactionProof, TransactionError>(
                    TransactionError::InvalidSerialization,
                ),
                Some((v, n)) => if n == transaction.proof@.len() {
                    r matches Ok(p) && p@ == v
                } else {
                    r == Err::<OutgoingHTLCTransactionProof, TransactionError>(
                        TransactionError::InvalidProof,
                    )
                },
            },
    {
        match OutgoingHTLCTransactionProof::decode(transaction.proof.as_slice()) {
            None => Err(TransactionError::InvalidSerialization),
            Some((proof, n)) => {
                if n != transaction.proof.len() {
                    return Err(TransactionError::InvalidProof);
                }
                Ok(proof)
            },
        }
    }

    /// Checks the proof against the signed content `msg` of the spending transaction.
    pub fn verify_content(&self, msg: &[u8]) -> (r: Result<(), TransactionError>)
        ensures
            r == (if proof_accepts(self@, msg@) {
                Ok::<(), TransactionError>(())
            } else {
                Err(TransactionError::InvalidProof)
            }),
    {
        match self {
            OutgoingHTLCTransactionProof::RegularTransfer {
                hash_depth,
                hash_root,
                pre_image,
                signature_proof,
            } => {
                let mut tmp_hash = pre_image.clone_image();
                let mut i: u8 = 0;
                while i < *hash_depth
                    invariant
                        i <= *hash_depth,
                        tmp_hash@ == hash_chain(hash_root@.0, pre_image@, i as nat),
                    decreases *hash_depth - i,
                {
                    tmp_hash = hash_step(hash_root, &tmp_hash);
                    i = i + 1;
                }
                if !bytes_eq(hash_root.as_bytes(), tmp_hash.as_bytes()) {
                    return Err(TransactionError::InvalidProof);
                }
                if !signature_proof.verify(msg) {
                    return Err(TransactionError::InvalidProof);
                }
            },
            OutgoingHTLCTransactionProof::EarlyResolve {
                signature_proof_recipient,
                signature_proof_sender,
            } => {
                if !signature_proof_recipient.verify(msg) || !signature_proof_sender.verify(msg) {
                    return Err(TransactionError::InvalidProof);
                }
            },
            OutgoingHTLCTransactionProof::TimeoutResolve { signature_proof_sender } => {
                if !signature_proof_sender.verify(msg) {
                    return Err(TransactionError::InvalidProof);
                }
            },
        }
        Ok(())
    }

    /// Checks the proof against the transaction that spends the contract.
    pub fn verify(&self, transaction: &Transaction) -> (r: Result<(), TransactionError>)
        requires
            transaction.wf(),
        ensures
            r == (if proof_accepts(self@, transaction.spec_content()) {
                Ok::<(), TransactionError>(())
            } else {
                Err(TransactionError::InvalidProof)
            }),
    {
        let tx_content = transaction.serialize_content();
        self.verify_content(tx_content.as_slice())
    }
}

impl PreImage {
    /// A copy of the pre-image.
    pub fn clone_image(&self) -> (r: PreImage)
        ensures
            r@ == self@,
            r.spec_tag() == self.spec_tag(),
    {
        match self {
            PreImage::PreImage32(h) => PreImage::PreImage32(copy_range(h.as_slice(), 0, h.len())),
            PreImage::PreImage64(h) => PreImage::PreImage64(copy_range(h.as_slice(), 0, h.len())),
        }
    }
}

/// The verdict on a transaction into a hash-time-locked contract.
pub open spec fn incoming_verdict(tx: Transaction) -> Result<(), TransactionError> {
    if !tx.spec_has_flag(FLAG_CONTRACT_CREATION) {
        Err(TransactionError::InvalidForRecipient)
    } else if tx.spec_has_flag(FLAG_SIGNALING) {
        Err(TransactionError::InvalidForRecipient)
    } else if tx.recipient@ != tx.spec_creation_address() {
        Err(TransactionError::InvalidForRecipient)
    } else if tx.data@.len() != CREATION_DATA_LEN_32 && tx.data@.len() != CREATION_DATA_LEN_64 {
        Err(TransactionError::InvalidData)
    } else {
        match spec_decode_creation_data(tx.data@) {
            None => Err(TransactionError::InvalidSerialization),
            Some(v) => if v.3 == 0 {
                Err(TransactionError::InvalidData)
            } else {
                Ok(())
            },
        }
    }
}

/// The verdict on a transaction out of a hash-time-locked contract.
pub open spec fn outgoing_verdict(tx: Transaction) -> Result<(), TransactionError> {
    match spec_decode_proof(tx.proof@) {
        None => Err(TransactionError::InvalidSerialization),
        Some((p, n)) => if n != tx.proof@.len() {
            Err(TransactionError::InvalidProof)
        } else if proof_accepts(p, tx.spec_content()) {
            Ok(())
        } else {
            Err(TransactionError::InvalidProof)
        },
    }
}

/// Checks transactions into and out of hash-time-locked contracts, from the transaction alone.
pub struct HashedTimeLockedContractVerifier {}

impl HashedTimeLockedContractVerifier {
    /// A transaction into a contract must create it: contract-creation flag set, signaling flag
    /// clear, recipient equal to the derived contract address, and well-formed creation data of
    /// 82 or 114 bytes with a non-zero hash count.
    pub fn verify_incoming_transaction(transaction: &Transaction) -> (r: Result<(), TransactionError>)
        requires
            transaction.recipient_type == AccountType::HTLC,
            transaction.wf(),
        ensures
            r == incoming_verdict(*transaction),
    {
        if !transaction.has_flag(FLAG_CONTRACT_CREATION) {
            return Err(TransactionError::InvalidForRecipient);
        }
        if transaction.has_flag(FLAG_SIGNALING) {
            return Err(TransactionError::InvalidForRecipient);
        }
        let address = transaction.contract_creation_address();
        if !bytes_eq(transaction.recipient.as_slice(), address.as_slice()) {
            return Err(TransactionError::InvalidForRecipient);
        }
        if transaction.data.len() != CREATION_DATA_LEN_32 && transaction.data.len()
            != CREATION_DATA_LEN_64 {
            return Err(TransactionError::InvalidData);
        }
        let data = CreationTransactionData::parse(transaction)?;
        data.verify()
    }

    /// A transaction out of a contract must carry exactly one decodable proof, and the proof
    /// must unlock the contract for the transaction's signed content.
    pub fn verify_outgoing_transaction(transaction: &Transaction) -> (r: Result<(), TransactionError>)
        requires
            transaction.sender_type == AccountType::HTLC,
            transaction.wf(),
        ensures
            r == outgoing_verdict(*transaction),
    {
        let proof = OutgoingHTLCTransactionProof::parse(transaction)?;
        proof.verify(transaction)
    }
}


/// Bytes after an outgoing proof do not change how it decodes.
pub proof fn lemma_decode_proof_prefix(b: Seq<u8>, extra: Seq<u8>)
    requires
        spec_decode_proof(b) is Some,
    ensures
        spec_decode_proof(b + extra) == spec_decode_proof(b),
{
    let c = b + extra;
    let len = b.len() as int;
    let clen = c.len() as int;
    assert(c[0] == b[0]);
    if b[0] == PROOF_REGULAR_TRANSFER {
        assert(c[1] == b[1]);
        assert(c.subrange(2, clen) =~= b.subrange(2, len) + extra);
        lemma_decode_any_hash_prefix(b.subrange(2, len), extra);
        let (root, n1) = spec_decode_any_hash(b.subrange(2, len)).unwrap();
        assert(c.subrange(2 + n1 as int, clen) =~= b.subrange(2 + n1 as int, len) + extra);
        lemma_decode_pre_image_prefix(b.subrange(2 + n1 as int, len), extra);
        let (pre, n2) = spec_decode_pre_image(b.subrange(2 + n1 as int, len)).unwrap();
        assert(c.subrange(2 + n1 + n2 as int, clen) =~= b.subrange(2 + n1 + n2 as int, len) + extra);
        lemma_decode_signature_proof_prefix(b.subrange(2 + n1 + n2 as int, len), extra);
    } else if b[0] == PROOF_EARLY_RESOLVE {
        assert(c.subrange(1, clen) =~= b.subrange(1, len) + extra);
        lemma_decode_signature_proof_prefix(b.subrange(1, len), extra);
        let (r, n1) = spec_decode_signature_proof(b.subrange(1, len)).unwrap();
        assert(c.subrange(1 + n1 as int, clen) =~= b.subrange(1 + n1 as int, len) + extra);
        lemma_decode_signature_proof_prefix(b.subrange(1 + n1 as int, len), extra);
    } else {
        assert(c.subrange(1, clen) =~= b.subrange(1, len) + extra);
        lemma_decode_signature_proof_prefix(b.subrange(1, len), extra);
    }
}

/// Appending any bytes to a complete outgoing proof makes the spending transaction fail with
/// `InvalidProof`.
pub proof fn lemma_trailing_bytes_rejected(tx: Transaction, extra: Seq<u8>)
    requires
        spec_decode_proof(tx.proof@) matches Some((p, n)) && n == tx.proof@.len(),
        extra.len() > 0,
    ensures
        forall|t: Transaction|
            t.proof@ == tx.proof@ + extra ==> #[trigger] outgoing_verdict(t) == Err::<
                (),
                TransactionError,
            >(TransactionError::InvalidProof),
{
    lemma_decode_proof_prefix(tx.proof@, extra);
}

/// Creation data that decodes, carried by a transaction that passes the flag and address
/// checks, is accepted exactly when it is 82 or 114 bytes long and its hash count is not zero.
pub proof fn lemma_creation_data_acceptance(tx: Transaction)
    requires
        tx.spec_has_flag(FLAG_CONTRACT_CREATION),
        !tx.spec_has_flag(FLAG_SIGNALING),
        tx.recipient@ == tx.spec_creation_address(),
        spec_decode_creation_data(tx.data@) is Some,
    ensures
        incoming_verdict(tx) is Ok <==> ((tx.data@.len() == 82 || tx.data@.len() == 114)
            && spec_decode_creation_data(tx.data@).unwrap().3 != 0),
{
}

/// A regular transfer unlocks the contract exactly when hashing the pre-image `hash_depth`
/// times with the hash root's algorithm gives the hash root, and its signature signs the
/// content.
pub proof fn lemma_regular_transfer_accepts(
    hash_depth: u8,
    hash_root: (u8, Seq<u8>),
    pre_image: Seq<u8>,
    signature_proof: SignatureProofView,
    msg: Seq<u8>,
)
    ensures
        proof_accepts(
            ProofView::RegularTransfer { hash_depth, hash_root, pre_image, signature_proof },
            msg,
        ) <==> (hash_chain(hash_root.0, pre_image, hash_depth as nat) == hash_root.1
            && signature_proof_signs(signature_proof, msg)),
{
}

/// An early resolve unlocks the contract only when both signatures sign the content; without
/// either, the spending transaction fails with `InvalidProof`.
pub proof fn lemma_early_resolve_needs_both(
    recipient: SignatureProofView,
    sender: SignatureProofView,
    msg: Seq<u8>,
)
    ensures
        proof_accepts(
            ProofView::EarlyResolve {
                signature_proof_recipient: recipient,
                signature_proof_sender: sender,
            },
            msg,
        ) <==> (signature_proof_signs(recipient, msg) && signature_proof_signs(sender, msg)),
{
}

/// A timeout resolve unlocks the contract exactly when the sender's signature signs the
/// content.
pub proof fn lemma_timeout_resolve_needs_sender(sender: SignatureProofView, msg: Seq<u8>)
    ensures
        proof_accepts(ProofView::TimeoutResolve { signature_proof_sender: sender }, msg)
            <==> signature_proof_signs(sender, msg),
{
}

} // verus!
