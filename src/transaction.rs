//! Transactions, their signed content, and single-signature proofs.

use vstd::prelude::*;
use crate::bytes::{append_bytes, be_bytes, copy_range, push_be};
use crate::crypto::{blake2b, blake2b_of, ed25519_valid, ed25519_verify};
use crate::policy::TRANSACTION_VALIDITY_WINDOW;

verus! {

/// Size of an account address in bytes.
pub const ADDRESS_SIZE: usize = 20;

/// Flag bit: the transaction creates the contract it is sent to.
pub const FLAG_CONTRACT_CREATION: u8 = 0b01;

/// Flag bit: the transaction only signals and moves no funds.
pub const FLAG_SIGNALING: u8 = 0b10;

/// Size of an Ed25519 public key in bytes.
pub const PUBLIC_KEY_SIZE: usize = 32;

/// Size of an Ed25519 signature in bytes.
pub const SIGNATURE_SIZE: usize = 64;

/// Size of one merkle path node in bytes: a side flag and a Blake2b hash.
pub const MERKLE_NODE_SIZE: usize = 33;

/// The kinds of account a transaction can come from or go to.
#[derive(Debug, Clone, Copy, PartialEq, Eq, Structural)]
pub enum AccountType {
    Basic,
    Vesting,
    HTLC,
    Staking,
}

impl AccountType {
    /// Wire byte of the account type.
    pub open spec fn spec_byte(self) -> u8 {
        match self {
            AccountType::Basic => 0,
            AccountType::Vesting => 1,
            AccountType::HTLC => 2,
            AccountType::Staking => 3,
        }
    }

    pub fn to_byte(self) -> (r: u8)
        ensures
            r == self.spec_byte(),
    {
        match self {
            AccountType::Basic => 0,
            AccountType::Vesting => 1,
            AccountType::HTLC => 2,
            AccountType::Staking => 3,
        }
    }
}

/// Errors of transaction verification.
#[derive(Debug, Clone, Copy, PartialEq, Eq, Structural)]
pub enum TransactionError {
    InvalidForRecipient,
    InvalidForSender,
    InvalidProof,
    InvalidData,
    InvalidSerialization,
}

/// A transaction between two accounts.
#[derive(Debug, Clone)]
pub struct Transaction {
    pub data: Vec<u8>,
    pub sender: Vec<u8>,
    pub sender_type: AccountType,
    pub recipient: Vec<u8>,
    pub recipient_type: AccountType,
    pub value: u64,
    pub fee: u64,
    pub validity_start_height: u32,
    pub network_id: u8,
    pub flags: u8,
    pub proof: Vec<u8>,
}

/// The twenty zero bytes put in place of the recipient when deriving a contract address.
pub open spec fn zero_address() -> Seq<u8> {
    Seq::new(20, |i: int| 0u8)
}

impl Transaction {
    /// Addresses have their size and the data length fits its two-byte prefix.
    pub open spec fn wf(&self) -> bool {
        &&& self.sender@.len() == ADDRESS_SIZE
        &&& self.recipient@.len() == ADDRESS_SIZE
        &&& self.data@.len() <= 0xffff
    }

    /// The signed content with `recipient` in the recipient's place: data (with a two-byte
    /// length), sender, sender type, recipient, recipient type, value, fee, validity start
    /// height, network id and flags, integers big-endian.
    pub open spec fn spec_content_with(&self, recipient: Seq<u8>) -> Seq<u8> {
        be_bytes(self.data@.len(), 2) + self.data@ + self.sender@ + seq![self.sender_type.spec_byte()]
            + recipient + seq![self.recipient_type.spec_byte()] + be_bytes(self.value as nat, 8)
            + be_bytes(self.fee as nat, 8) + be_bytes(self.validity_start_height as nat, 4)
            + seq![self.network_id, self.flags]
    }

    /// The content that signatures over this transaction sign.
    pub open spec fn spec_content(&self) -> Seq<u8> {
        self.spec_content_with(self.recipient@)
    }

    /// The address of the contract this transaction creates: the first twenty bytes of the
    /// Blake2b hash of its content with a zero recipient.
    pub open spec fn spec_creation_address(&self) -> Seq<u8> {
        blake2b_of(self.spec_content_with(zero_address())).subrange(0, 20)
    }

    pub open spec fn spec_is_valid_at(&self, block_height: u32) -> bool {
        self.validity_start_height <= block_height < self.validity_start_height
            + TRANSACTION_VALIDITY_WINDOW
    }

    pub open spec fn spec_has_flag(&self, flag: u8) -> bool {
        self.flags & flag != 0
    }

    /// Whether addresses have their size and the data fits its length prefix.
    pub fn is_wf(&self) -> (r: bool)
        ensures
            r == self.wf(),
    {
        self.sender.len() == ADDRESS_SIZE && self.recipient.len() == ADDRESS_SIZE
            && self.data.len() <= 0xffff
    }

    pub fn has_flag(&self, flag: u8) -> (r: bool)
        ensures
            r == self.spec_has_flag(flag),
    {
        self.flags & flag != 0
    }

    fn content_with(&self, recipient: &[u8]) -> (r: Vec<u8>)
        requires
            self.wf(),
        ensures
            r@ == self.spec_content_with(recipient@),
    {
        let mut r: Vec<u8> = Vec::new();
        push_be(&mut r, self.data.len() as u64, 2);
        append_bytes(&mut r, self.data.as_slice());
        append_bytes(&mut r, self.sender.as_slice());
        r.push(self.sender_type.to_byte());
        append_bytes(&mut r, recipient);
        r.push(self.recipient_type.to_byte());
        push_be(&mut r, self.value, 8);
        push_be(&mut r, self.fee, 8);
        push_be(&mut r, self.validity_start_height as u64, 4);
        r.push(self.network_id);
        r.push(self.flags);
        assert(r@ =~= self.spec_content_with(recipient@));
        r
    }

    /// The content that signatures over this transaction sign.
    pub fn serialize_content(&self) -> (r: Vec<u8>)
        requires
            self.wf(),
        ensures
            r@ == self.spec_content(),
    {
        self.content_with(self.recipient.as_slice())
    }

    /// The address of the contract this transaction creates.
    pub fn contract_creation_address(&self) -> (r: Vec<u8>)
        requires
            self.wf(),
        ensures
            r@ == self.spec_creation_address(),
    {
        let zero: Vec<u8> = vec![0u8; 20];
        assert(zero@ =~= zero_address());
        let content = self.content_with(zero.as_slice());
        let hash = blake2b(content.as_slice());
        copy_range(hash.as_slice(), 0, 20)
    }

    /// Whether a block at `block_height` may include this transaction.
    pub fn is_valid_at(&self, block_height: u32) -> (r: bool)
        ensures
            r == self.spec_is_valid_at(block_height),
    {
        block_height >= self.validity_start_height && (block_height as u64) < (
        self.validity_start_height as u64) + (TRANSACTION_VALIDITY_WINDOW as u64)
    }
}

/// Public key, merkle path bytes and signature, as a decoded signature proof holds them.
pub type SignatureProofView = (Seq<u8>, Seq<u8>, Seq<u8>);

/// Decoding of a signature proof at the front of `b`: a 32-byte public key, a node count `k`,
/// `k` merkle path nodes of 33 bytes, and a 64-byte signature. Gives the parts and the number of
/// bytes taken.
pub open spec fn spec_decode_signature_proof(b: Seq<u8>) -> Option<(SignatureProofView, nat)> {
    if b.len() >= 33 && b.len() >= 97 + 33 * b[32] {
        let k = b[32] as int;
        Some(
            (
                (b.subrange(0, 32), b.subrange(33, 33 + 33 * k), b.subrange(
                    33 + 33 * k,
                    97 + 33 * k,
                )),
                (97 + 33 * k) as nat,
            ),
        )
    } else {
        None
    }
}

/// A signature together with the key that made it and the merkle path of that key.
#[derive(Debug, Clone)]
pub struct SignatureProof {
    pub public_key: Vec<u8>,
    pub merkle_path: Vec<u8>,
    pub signature: Vec<u8>,
}

impl View for SignatureProof {
    type V = SignatureProofView;

    open spec fn view(&self) -> SignatureProofView {
        (self.public_key@, self.merkle_path@, self.signature@)
    }
}

/// A 32-byte key, a merkle path of fewer than 256 nodes of 33 bytes, and a 64-byte signature.
pub open spec fn signature_proof_view_wf(v: SignatureProofView) -> bool {
    &&& v.0.len() == 32
    &&& v.1.len() % 33 == 0
    &&& v.1.len() < 33 * 256
    &&& v.2.len() == 64
}

/// Encoding of a signature proof: key, node count, path, signature.
pub open spec fn spec_encode_signature_proof(v: SignatureProofView) -> Seq<u8> {
    v.0 + seq![(v.1.len() / 33) as u8] + v.1 + v.2
}

/// A well-formed signature proof decodes back from its encoding, taking all of it.
pub proof fn lemma_signature_proof_round_trip(v: SignatureProofView)
    requires
        signature_proof_view_wf(v),
    ensures
        spec_decode_signature_proof(spec_encode_signature_proof(v)) == Some(
            (v, spec_encode_signature_proof(v).len()),
        ),
{
    let e = spec_encode_signature_proof(v);
    let k: int = v.1.len() as int / 33;
    assert(33 * k == v.1.len()) by (nonlinear_arith)
        requires
            v.1.len() % 33 == 0,
            k == v.1.len() / 33,
    ;
    assert(k < 256);
    assert(e[32] == k as u8);
    assert(e.subrange(0, 32) =~= v.0);
    assert(e.subrange(33, 33 + 33 * k) =~= v.1);
    assert(e.subrange(33 + 33 * k, 97 + 33 * k) =~= v.2);
}

/// Whether a signature proof signs `msg`.
pub open spec fn signature_proof_signs(p: SignatureProofView, msg: Seq<u8>) -> bool {
    ed25519_valid(p.0, p.2, msg)
}

impl SignatureProof {
    /// Whether the proof's signature signs `msg` under its public key.
    pub fn verify(&self, msg: &[u8]) -> (r: bool)
        ensures
            r == signature_proof_signs(self@, msg@),
    {
        ed25519_verify(self.public_key.as_slice(), self.signature.as_slice(), msg)
    }

    /// Encoding: key, node count, merkle path, signature.
    pub fn encode(&self) -> (r: Vec<u8>)
        requires
            signature_proof_view_wf(self@),
        ensures
            r@ == spec_encode_signature_proof(self@),
    {
        let mut r: Vec<u8> = Vec::new();
        append_bytes(&mut r, self.public_key.as_slice());
        r.push((self.merkle_path.len() / 33) as u8);
        append_bytes(&mut r, self.merkle_path.as_slice());
        append_bytes(&mut r, self.signature.as_slice());
        assert(r@ =~= spec_encode_signature_proof(self@));
        r
    }

    /// Decodes a signature proof from the front of `bytes`.
    pub fn decode(bytes: &[u8]) -> (r: Option<(SignatureProof, usize)>)
        ensures
            match spec_decode_signature_proof(bytes@) {
                Some((v, n)) => r matches Some((p, m)) && p@ == v && m == n,
                None => r is None,
            },
    {
        if bytes.len() < 33 {
            return None;
        }
        let k = bytes[32] as usize;
        if bytes.len() - 33 < 33 * k + 64 {
            return None;
        }
        let public_key = copy_range(bytes, 0, 32);
        let merkle_path = copy_range(bytes, 33, 33 + 33 * k);
        let signature = copy_range(bytes, 33 + 33 * k, 97 + 33 * k);
        Some((SignatureProof { public_key, merkle_path, signature }, 97 + 33 * k))
    }
}


/// Bytes after a signature proof do not change how it decodes.
pub proof fn lemma_decode_signature_proof_prefix(b: Seq<u8>, extra: Seq<u8>)
    requires
        spec_decode_signature_proof(b) is Some,
    ensures
        spec_decode_signature_proof(b + extra) == spec_decode_signature_proof(b),
{
    let k = b[32] as int;
    let c = b + extra;
    assert(c[32] == b[32]);
    assert(c.subrange(0, 32) =~= b.subrange(0, 32));
    assert(c.subrange(33, 33 + 33 * k) =~= b.subrange(33, 33 + 33 * k));
    assert(c.subrange(33 + 33 * k, 97 + 33 * k) =~= b.subrange(33 + 33 * k, 97 + 33 * k));
}

} // verus!
