use nimiq_core::hashes::{AnyHash, PreImage};
use nimiq_core::htlc::{
    CreationTransactionData, HashedTimeLockedContractVerifier, OutgoingHTLCTransactionProof,
};
use nimiq_core::transaction::{
    AccountType, SignatureProof, Transaction, TransactionError, FLAG_CONTRACT_CREATION,
    FLAG_SIGNALING,
};
use nimiq_hash::Hasher;

fn blake2b(data: &[u8]) -> Vec<u8> {
    nimiq_hash::Blake2bHasher::default().digest(data).0.to_vec()
}

fn sha256(data: &[u8]) -> Vec<u8> {
    nimiq_hash::Sha256Hasher::default().digest(data).0.to_vec()
}

fn sha512(data: &[u8]) -> Vec<u8> {
    let h = nimiq_hash::sha512::Sha512Hasher::default().digest(data);
    <[u8; 64]>::from(h).to_vec()
}

fn key_pair(seed: u8) -> nimiq_keys::KeyPair {
    nimiq_keys::KeyPair::from(nimiq_keys::PrivateKey::from([seed; 32]))
}

fn signature_proof(kp: &nimiq_keys::KeyPair, msg: &[u8]) -> SignatureProof {
    SignatureProof {
        public_key: kp.public.as_bytes().to_vec(),
        merkle_path: vec![],
        signature: kp.sign(msg).to_bytes().to_vec(),
    }
}

fn encode_signature_proof(p: &SignatureProof) -> Vec<u8> {
    let mut out = p.public_key.clone();
    out.push((p.merkle_path.len() / 33) as u8);
    out.extend_from_slice(&p.merkle_path);
    out.extend_from_slice(&p.signature);
    out
}

fn spending_tx() -> Transaction {
    Transaction {
        data: vec![],
        sender: vec![1; 20],
        sender_type: AccountType::HTLC,
        recipient: vec![2; 20],
        recipient_type: AccountType::Basic,
        value: 1000,
        fee: 10,
        validity_start_height: 5,
        network_id: 24,
        flags: 0,
        proof: vec![],
    }
}

fn regular_transfer_bytes(depth: u8, root: &AnyHash, pre: &PreImage, sig: &SignatureProof) -> Vec<u8> {
    let mut out = vec![0u8, depth];
    out.extend_from_slice(&root.encode());
    out.extend_from_slice(&pre.encode());
    out.extend_from_slice(&encode_signature_proof(sig));
    out
}

#[test]
fn serialize_content_layout() {
    let mut tx = spending_tx();
    tx.data = vec![9, 8, 7];
    let c = tx.serialize_content();
    let mut expected = vec![0, 3, 9, 8, 7];
    expected.extend_from_slice(&[1; 20]);
    expected.push(2);
    expected.extend_from_slice(&[2; 20]);
    expected.push(0);
    expected.extend_from_slice(&1000u64.to_be_bytes());
    expected.extend_from_slice(&10u64.to_be_bytes());
    expected.extend_from_slice(&5u32.to_be_bytes());
    expected.push(24);
    expected.push(0);
    assert_eq!(c, expected);
}

#[test]
fn regular_transfer_blake2b_depth_three() {
    let x = vec![0x42u8; 32];
    let root = AnyHash::Blake2b(blake2b(&blake2b(&blake2b(&x))));
    let pre = PreImage::PreImage32(x.clone());
    let kp = key_pair(3);
    let mut tx = spending_tx();
    let msg = tx.serialize_content();
    let sig = signature_proof(&kp, &msg);
    tx.proof = regular_transfer_bytes(3, &root, &pre, &sig);
    assert_eq!(HashedTimeLockedContractVerifier::verify_outgoing_transaction(&tx), Ok(()));

    tx.proof = regular_transfer_bytes(2, &root, &pre, &sig);
    assert_eq!(
        HashedTimeLockedContractVerifier::verify_outgoing_transaction(&tx),
        Err(TransactionError::InvalidProof)
    );
}

#[test]
fn regular_transfer_sha256_and_sha512() {
    let kp = key_pair(4);
    let mut tx = spending_tx();
    let msg = tx.serialize_content();
    let sig = signature_proof(&kp, &msg);

    let x = vec![7u8; 32];
    let root = AnyHash::Sha256(sha256(&sha256(&x)));
    tx.proof = regular_transfer_bytes(2, &root, &PreImage::PreImage32(x.clone()), &sig);
    assert_eq!(HashedTimeLockedContractVerifier::verify_outgoing_transaction(&tx), Ok(()));

    let y = vec![9u8; 64];
    let root = AnyHash::Sha512(sha512(&y));
    tx.proof = regular_transfer_bytes(1, &root, &PreImage::PreImage64(y.clone()), &sig);
    assert_eq!(HashedTimeLockedContractVerifier::verify_outgoing_transaction(&tx), Ok(()));

    // The pre-image itself is not the root.
    let root = AnyHash::Sha512(y.clone());
    tx.proof = regular_transfer_bytes(1, &root, &PreImage::PreImage64(y), &sig);
    assert_eq!(
        HashedTimeLockedContractVerifier::verify_outgoing_transaction(&tx),
        Err(TransactionError::InvalidProof)
    );
}

#[test]
fn regular_transfer_depth_zero_compares_pre_image() {
    let x = vec![5u8; 32];
    let kp = key_pair(5);
    let mut tx = spending_tx();
    let sig = signature_proof(&kp, &tx.serialize_content());
    tx.proof = regular_transfer_bytes(0, &AnyHash::Blake2b(x.clone()), &PreImage::PreImage32(x), &sig);
    assert_eq!(HashedTimeLockedContractVerifier::verify_outgoing_transaction(&tx), Ok(()));
}

#[test]
fn regular_transfer_bad_signature() {
    let x = vec![0x42u8; 32];
    let root = AnyHash::Blake2b(blake2b(&x));
    let kp = key_pair(6);
    let mut tx = spending_tx();
    let sig = signature_proof(&kp, b"something else");
    tx.proof = regular_transfer_bytes(1, &root, &PreImage::PreImage32(x), &sig);
    assert_eq!(
        HashedTimeLockedContractVerifier::verify_outgoing_transaction(&tx),
        Err(TransactionError::InvalidProof)
    );
}

#[test]
fn early_resolve_needs_both_signatures() {
    let recipient = key_pair(11);
    let sender = key_pair(12);
    let mut tx = spending_tx();
    let msg = tx.serialize_content();
    let good_r = signature_proof(&recipient, &msg);
    let good_s = signature_proof(&sender, &msg);
    let bad_r = signature_proof(&recipient, b"other");
    let bad_s = signature_proof(&sender, b"other");
    let make = |r: &SignatureProof, s: &SignatureProof| {
        let mut out = vec![1u8];
        out.extend_from_slice(&encode_signature_proof(r));
        out.extend_from_slice(&encode_signature_proof(s));
        out
    };
    tx.proof = make(&good_r, &good_s);
    assert_eq!(HashedTimeLockedContractVerifier::verify_outgoing_transaction(&tx), Ok(()));
    tx.proof = make(&bad_r, &good_s);
    assert_eq!(
        HashedTimeLockedContractVerifier::verify_outgoing_transaction(&tx),
        Err(TransactionError::InvalidProof)
    );
    tx.proof = make(&good_r, &bad_s);
    assert_eq!(
        HashedTimeLockedContractVerifier::verify_outgoing_transaction(&tx),
        Err(TransactionError::InvalidProof)
    );
}

#[test]
fn timeout_resolve_needs_sender_signature() {
    let sender = key_pair(13);
    let mut tx = spending_tx();
    let msg = tx.serialize_content();
    let mut proof = vec![2u8];
    proof.extend_from_slice(&encode_signature_proof(&signature_proof(&sender, &msg)));
    tx.proof = proof;
    assert_eq!(HashedTimeLockedContractVerifier::verify_outgoing_transaction(&tx), Ok(()));

    let mut proof = vec![2u8];
    proof.extend_from_slice(&encode_signature_proof(&signature_proof(&sender, b"x")));
    tx.proof = proof;
    assert_eq!(
        HashedTimeLockedContractVerifier::verify_outgoing_transaction(&tx),
        Err(TransactionError::InvalidProof)
    );
}

#[test]
fn trailing_byte_after_proof_is_invalid_proof() {
    let sender = key_pair(14);
    let mut tx = spending_tx();
    let msg = tx.serialize_content();
    let mut proof = vec![2u8];
    proof.extend_from_slice(&encode_signature_proof(&signature_proof(&sender, &msg)));
    proof.push(0);
    tx.proof = proof;
    assert_eq!(
        OutgoingHTLCTransactionProof::parse(&tx).err(),
        Some(TransactionError::InvalidProof)
    );
    assert_eq!(
        HashedTimeLockedContractVerifier::verify_outgoing_transaction(&tx),
        Err(TransactionError::InvalidProof)
    );
}

#[test]
fn undecodable_proof_is_invalid_serialization() {
    let mut tx = spending_tx();
    tx.proof = vec![3, 0, 0];
    assert_eq!(
        HashedTimeLockedContractVerifier::verify_outgoing_transaction(&tx),
        Err(TransactionError::InvalidSerialization)
    );
    tx.proof = vec![];
    assert_eq!(
        HashedTimeLockedContractVerifier::verify_outgoing_transaction(&tx),
        Err(TransactionError::InvalidSerialization)
    );
}

fn creation_data(root: &AnyHash, hash_count: u8, timeout: u64) -> Vec<u8> {
    let mut data = vec![3u8; 20];
    data.extend_from_slice(&[4u8; 20]);
    data.extend_from_slice(&root.encode());
    data.push(hash_count);
    data.extend_from_slice(&timeout.to_be_bytes());
    data
}

fn creation_tx(data: Vec<u8>, flags: u8) -> Transaction {
    let mut tx = Transaction {
        data,
        sender: vec![1; 20],
        sender_type: AccountType::Basic,
        recipient: vec![0; 20],
        recipient_type: AccountType::HTLC,
        value: 500,
        fee: 1,
        validity_start_height: 1,
        network_id: 24,
        flags,
        proof: vec![],
    };
    tx.recipient = tx.contract_creation_address();
    tx
}

#[test]
fn contract_creation_address_hashes_content_with_zero_recipient() {
    let tx = creation_tx(vec![1, 2, 3], FLAG_CONTRACT_CREATION);
    let mut zeroed = tx.clone();
    zeroed.recipient = vec![0; 20];
    let expected = blake2b(&zeroed.serialize_content())[..20].to_vec();
    assert_eq!(tx.contract_creation_address(), expected);
    assert_eq!(tx.recipient, expected);
}

#[test]
fn creation_accepts_82_and_114_bytes() {
    let data = creation_data(&AnyHash::Blake2b(vec![1; 32]), 2, 1000);
    assert_eq!(data.len(), 82);
    let tx = creation_tx(data, FLAG_CONTRACT_CREATION);
    assert_eq!(HashedTimeLockedContractVerifier::verify_incoming_transaction(&tx), Ok(()));

    let data = creation_data(&AnyHash::Sha512(vec![1; 64]), 1, 7);
    assert_eq!(data.len(), 114);
    let tx = creation_tx(data, FLAG_CONTRACT_CREATION);
    assert_eq!(HashedTimeLockedContractVerifier::verify_incoming_transaction(&tx), Ok(()));
}

#[test]
fn creation_rejects_zero_hash_count() {
    let tx = creation_tx(creation_data(&AnyHash::Sha256(vec![1; 32]), 0, 9), FLAG_CONTRACT_CREATION);
    assert_eq!(
        HashedTimeLockedContractVerifier::verify_incoming_transaction(&tx),
        Err(TransactionError::InvalidData)
    );
}

#[test]
fn creation_rejects_other_lengths() {
    let mut data = creation_data(&AnyHash::Blake2b(vec![1; 32]), 2, 1000);
    data.push(0);
    let tx = creation_tx(data, FLAG_CONTRACT_CREATION);
    assert_eq!(
        HashedTimeLockedContractVerifier::verify_incoming_transaction(&tx),
        Err(TransactionError::InvalidData)
    );
}

#[test]
fn creation_with_mismatched_tag_does_not_decode() {
    // 82 bytes, but the tag announces a 64-byte digest.
    let mut data = creation_data(&AnyHash::Blake2b(vec![1; 32]), 2, 1000);
    data[40] = 4;
    let tx = creation_tx(data, FLAG_CONTRACT_CREATION);
    assert_eq!(
        HashedTimeLockedContractVerifier::verify_incoming_transaction(&tx),
        Err(TransactionError::InvalidSerialization)
    );
}

#[test]
fn creation_flags_and_address() {
    let data = creation_data(&AnyHash::Blake2b(vec![1; 32]), 2, 1000);
    let tx = creation_tx(data.clone(), 0);
    assert_eq!(
        HashedTimeLockedContractVerifier::verify_incoming_transaction(&tx),
        Err(TransactionError::InvalidForRecipient)
    );
    let tx = creation_tx(data.clone(), FLAG_CONTRACT_CREATION | FLAG_SIGNALING);
    assert_eq!(
        HashedTimeLockedContractVerifier::verify_incoming_transaction(&tx),
        Err(TransactionError::InvalidForRecipient)
    );
    let mut tx = creation_tx(data, FLAG_CONTRACT_CREATION);
    tx.recipient = vec![9; 20];
    assert_eq!(
        HashedTimeLockedContractVerifier::verify_incoming_transaction(&tx),
        Err(TransactionError::InvalidForRecipient)
    );
}

#[test]
fn creation_data_parse_fields() {
    let data = creation_data(&AnyHash::Sha256(vec![6; 32]), 5, 0x0102030405060708);
    let tx = creation_tx(data, FLAG_CONTRACT_CREATION);
    let c = CreationTransactionData::parse(&tx).unwrap();
    assert_eq!(c.sender, vec![3; 20]);
    assert_eq!(c.recipient, vec![4; 20]);
    assert_eq!(c.hash_root, AnyHash::Sha256(vec![6; 32]));
    assert_eq!(c.hash_count, 5);
    assert_eq!(c.timeout, 0x0102030405060708);
    assert_eq!(c.verify(), Ok(()));
}

#[test]
fn outgoing_proof_encode_round_trip() {
    let kp = key_pair(15);
    let mut tx = spending_tx();
    let sig = signature_proof(&kp, &tx.serialize_content());
    let proof = OutgoingHTLCTransactionProof::RegularTransfer {
        hash_depth: 4,
        hash_root: AnyHash::Sha512(vec![3; 64]),
        pre_image: PreImage::PreImage64(vec![4; 64]),
        signature_proof: sig.clone(),
    };
    let bytes = proof.encode();
    assert_eq!(bytes, regular_transfer_bytes(4, &AnyHash::Sha512(vec![3; 64]), &PreImage::PreImage64(vec![4; 64]), &sig));
    tx.proof = bytes.clone();
    let parsed = OutgoingHTLCTransactionProof::parse(&tx).unwrap();
    assert_eq!(parsed.encode(), bytes);

    let early = OutgoingHTLCTransactionProof::EarlyResolve {
        signature_proof_recipient: sig.clone(),
        signature_proof_sender: sig.clone(),
    };
    tx.proof = early.encode();
    assert_eq!(tx.proof.len(), 1 + 2 * 97);
    assert_eq!(OutgoingHTLCTransactionProof::parse(&tx).unwrap().encode(), tx.proof);
}

#[test]
fn creation_data_encode_round_trip() {
    let c = CreationTransactionData {
        sender: vec![3; 20],
        recipient: vec![4; 20],
        hash_root: AnyHash::Blake2b(vec![5; 32]),
        hash_count: 9,
        timeout: 77,
    };
    let data = c.encode();
    assert_eq!(data, creation_data(&AnyHash::Blake2b(vec![5; 32]), 9, 77));
    let tx = creation_tx(data, FLAG_CONTRACT_CREATION);
    let back = CreationTransactionData::parse(&tx).unwrap();
    assert_eq!(back.timeout, 77);
    assert_eq!(back.hash_count, 9);
    assert_eq!(back.hash_root, c.hash_root);
}
