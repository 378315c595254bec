//! Blocks as the validators see them, and the errors that reject them.

use vstd::prelude::*;
use crate::bytes::{
    append_bytes, be_bytes, cmp_bytes, cmp_int, compare_bytes, compare_u64, push_be, then_cmp,
};
use crate::crypto::{blake2b, blake2b_of, ed25519_valid, ed25519_verify};
use crate::policy::EPOCH_LENGTH;
use crate::transaction::{Transaction, TransactionError};

verus! {

/// Whether a signing key accepts a VRF seed as the successor of `prev_seed` under `nonce`.
pub uninterp spec fn vrf_seed_valid(seed: Seq<u8>, prev_seed: Seq<u8>, key: Seq<u8>, nonce: u32) -> bool;

/// Relies on nimiq_vrf::VrfSeed::verify: whether `seed` is the VRF successor of `prev_seed`
/// signed by the Ed25519 key `key` with `nonce`. Seeds or keys whose bytes do not decode verify
/// nothing, and neither does a previous seed without entropy (nimiq_vrf::VrfSeed::try_entropy
/// gives `None`), on which `verify` would panic.
#[verifier::external_body]
pub(crate) fn vrf_seed_verify(seed: &[u8], prev_seed: &[u8], key: &[u8], nonce: u32) -> (r: bool)
    ensures
        r == vrf_seed_valid(seed@, prev_seed@, key@, nonce),
{
    let seed: Result<nimiq_vrf::VrfSeed, _> = nimiq_serde::Deserialize::deserialize_from_vec(seed);
    let prev: Result<nimiq_vrf::VrfSeed, _> = nimiq_serde::Deserialize::deserialize_from_vec(prev_seed);
    match (seed, prev, nimiq_keys::Ed25519PublicKey::from_bytes(key)) {
        (Ok(s), Ok(p), Ok(k)) => match p.try_entropy() {
            Some(_) => s.verify(&p, &k, nonce).is_ok(),
            None => false,
        },
        _ => false,
    }
}

/// The two kinds of block.
#[derive(Debug, Clone, Copy, PartialEq, Eq, Structural)]
pub enum BlockType {
    Micro,
    Macro,
}

/// The kinds of invalid block.
#[derive(Debug, Clone, Copy, PartialEq, Eq, Structural)]
pub enum BlockError {
    UnsupportedVersion,
    FromTheFuture,
    InvalidSeed,
    NoJustification,
    InvalidJustification,
    InvalidViewNumber,
    NoViewChangeProof,
    InvalidViewChangeProof,
    MissingBody,
    SizeExceeded,
    BodyHashMismatch,
    DuplicateForkProof,
    ForkProofsNotOrdered,
    InvalidForkProof,
    TransactionsNotOrdered,
    DuplicateTransaction,
    ExpiredTransaction,
    InvalidTransaction(TransactionError),
    InvalidValidators,
    InvalidPkTreeRoot,
    AccountsHashMismatch,
    InvalidHistoryRoot,
}

/// Why a block cannot be appended to the chain.
#[derive(Debug, Clone, Copy, PartialEq, Eq, Structural)]
pub enum PushError {
    /// The parent block is unknown; it may be fetched and the block retried.
    Orphan,
    /// The block does not follow its parent.
    InvalidSuccessor,
    /// The block itself is invalid.
    InvalidBlock(BlockError),
}

/// A block header.
#[derive(Debug, Clone)]
pub struct BlockHeader {
    pub ty: BlockType,
    pub version: u16,
    pub block_number: u32,
    pub view_number: u32,
    /// Milliseconds since the Unix epoch.
    pub timestamp: u64,
    pub parent_hash: Vec<u8>,
    /// Hash of the election block the epoch started from; macro headers only.
    pub parent_election_hash: Option<Vec<u8>>,
    /// VRF seed of the block.
    pub seed: Vec<u8>,
    pub state_root: Vec<u8>,
    pub body_root: Vec<u8>,
    pub history_root: Vec<u8>,
    /// Merkle root of the epoch's transactions; macro headers.
    pub transactions_root: Vec<u8>,
}

/// What the local chain knows of a stored block.
#[derive(Debug, Clone)]
pub struct ChainInfo {
    pub hash: Vec<u8>,
    pub ty: BlockType,
    pub block_number: u32,
    pub view_number: u32,
    pub timestamp: u64,
    pub seed: Vec<u8>,
}

/// Justification of a micro block: the producer's signature over the block hash and, after a
/// view change, the proof of it.
#[derive(Debug, Clone)]
pub struct MicroJustification {
    pub signature: Vec<u8>,
    /// The view change proof, if any, given as whether its aggregate signature verifies for
    /// this block's view change under the current validator set.
    pub view_change_proof: Option<bool>,
}

/// Two conflicting micro headers signed by the same slot owner.
#[derive(Debug, Clone)]
pub struct ForkProof {
    /// Block number of the two headers.
    pub block_number: u32,
    /// View number of the two headers.
    pub view_number: u32,
    /// VRF seed of the block before the fork; selects the slot owner.
    pub prev_vrf_seed: Vec<u8>,
    pub header1_hash: Vec<u8>,
    pub header2_hash: Vec<u8>,
    pub justification1: Vec<u8>,
    pub justification2: Vec<u8>,
}

/// Number of blocks after a fork during which it can be reported.
pub const FORK_PROOF_REPORTING_WINDOW: u32 = EPOCH_LENGTH;

/// Fork proofs are ordered by their first and then their second header hash.
pub open spec fn spec_cmp_fork_proofs(a: ForkProof, b: ForkProof) -> int {
    then_cmp(cmp_bytes(a.header1_hash@, b.header1_hash@), cmp_bytes(a.header2_hash@, b.header2_hash@))
}

/// Whether a fork proof signs both headers with `key`.
pub open spec fn spec_fork_proof_signed_by(p: ForkProof, key: Seq<u8>) -> bool {
    ed25519_valid(key, p.justification1@, p.header1_hash@) && ed25519_valid(
        key,
        p.justification2@,
        p.header2_hash@,
    )
}

impl ForkProof {
    /// A fork can be reported by the blocks after it, up to the reporting window.
    pub open spec fn spec_is_valid_at(&self, block_number: u32) -> bool {
        self.block_number < block_number <= self.block_number + FORK_PROOF_REPORTING_WINDOW
    }

    pub fn is_valid_at(&self, block_number: u32) -> (r: bool)
        ensures
            r == self.spec_is_valid_at(block_number),
    {
        self.block_number < block_number && (block_number as u64) <= (self.block_number as u64)
            + (FORK_PROOF_REPORTING_WINDOW as u64)
    }

    pub fn cmp(&self, other: &ForkProof) -> (r: i8)
        ensures
            r == spec_cmp_fork_proofs(*self, *other),
    {
        let c = compare_bytes(self.header1_hash.as_slice(), other.header1_hash.as_slice());
        if c != 0 {
            return c;
        }
        compare_bytes(self.header2_hash.as_slice(), other.header2_hash.as_slice())
    }

    /// Whether both headers carry valid signatures by `key`.
    pub fn verify(&self, key: &[u8]) -> (r: bool)
        ensures
            r == spec_fork_proof_signed_by(*self, key@),
    {
        ed25519_verify(key, self.justification1.as_slice(), self.header1_hash.as_slice())
            && ed25519_verify(key, self.justification2.as_slice(), self.header2_hash.as_slice())
    }
}

/// Transactions in a block are ordered by recipient, validity start height, fee (higher
/// first), value (higher first), sender, recipient type, sender type, flags, data length and
/// data.
pub open spec fn spec_cmp_block_order(a: Transaction, b: Transaction) -> int {
    then_cmp(
        cmp_bytes(a.recipient@, b.recipient@),
        then_cmp(
            cmp_int(a.validity_start_height as int, b.validity_start_height as int),
            then_cmp(
                cmp_int(b.fee as int, a.fee as int),
                then_cmp(
                    cmp_int(b.value as int, a.value as int),
                    then_cmp(
                        cmp_bytes(a.sender@, b.sender@),
                        then_cmp(
                            cmp_int(
                                a.recipient_type.spec_byte() as int,
                                b.recipient_type.spec_byte() as int,
                            ),
                            then_cmp(
                                cmp_int(
                                    a.sender_type.spec_byte() as int,
                                    b.sender_type.spec_byte() as int,
                                ),
                                then_cmp(
                                    cmp_int(a.flags as int, b.flags as int),
                                    then_cmp(
                                        cmp_int(a.data@.len() as int, b.data@.len() as int),
                                        cmp_bytes(a.data@, b.data@),
                                    ),
                                ),
                            ),
                        ),
                    ),
                ),
            ),
        ),
    )
}

impl Transaction {
    /// Three-way comparison in block order.
    pub fn cmp_block_order(&self, other: &Transaction) -> (r: i8)
        ensures
            r == spec_cmp_block_order(*self, *other),
    {
        let c = compare_bytes(self.recipient.as_slice(), other.recipient.as_slice());
        if c != 0 {
            return c;
        }
        let c = compare_u64(self.validity_start_height as u64, other.validity_start_height as u64);
        if c != 0 {
            return c;
        }
        let c = compare_u64(other.fee, self.fee);
        if c != 0 {
            return c;
        }
        let c = compare_u64(other.value, self.value);
        if c != 0 {
            return c;
        }
        let c = compare_bytes(self.sender.as_slice(), other.sender.as_slice());
        if c != 0 {
            return c;
        }
        let c = compare_u64(self.recipient_type.to_byte() as u64, other.recipient_type.to_byte() as u64);
        if c != 0 {
            return c;
        }
        let c = compare_u64(self.sender_type.to_byte() as u64, other.sender_type.to_byte() as u64);
        if c != 0 {
            return c;
        }
        let c = compare_u64(self.flags as u64, other.flags as u64);
        if c != 0 {
            return c;
        }
        let c = compare_u64(self.data.len() as u64, other.data.len() as u64);
        if c != 0 {
            return c;
        }
        compare_bytes(self.data.as_slice(), other.data.as_slice())
    }
}

/// Body of a micro block: fork proofs, then transactions.
#[derive(Debug, Clone)]
pub struct MicroBody {
    pub fork_proofs: Vec<ForkProof>,
    pub transactions: Vec<Transaction>,
}

/// A byte string preceded by its length in four big-endian bytes.
pub open spec fn spec_len_bytes(b: Seq<u8>) -> Seq<u8> {
    be_bytes(b.len(), 4) + b
}

/// Encoding of a fork proof: block number and view number (four bytes each), then the previous
/// seed, the two header hashes and the two signatures, each with its length.
pub open spec fn spec_fork_proof_bytes(p: ForkProof) -> Seq<u8> {
    be_bytes(p.block_number as nat, 4) + be_bytes(p.view_number as nat, 4) + spec_len_bytes(
        p.prev_vrf_seed@,
    ) + spec_len_bytes(p.header1_hash@) + spec_len_bytes(p.header2_hash@) + spec_len_bytes(
        p.justification1@,
    ) + spec_len_bytes(p.justification2@)
}

/// Encoding of a transaction in a body: its signed content, then its proof with its length.
pub open spec fn spec_body_transaction_bytes(t: Transaction) -> Seq<u8> {
    t.spec_content() + spec_len_bytes(t.proof@)
}

pub open spec fn spec_fork_proof_list(l: Seq<ForkProof>) -> Seq<u8>
    decreases l.len(),
{
    if l.len() == 0 {
        Seq::empty()
    } else {
        spec_fork_proof_list(l.drop_last()) + spec_fork_proof_bytes(l.last())
    }
}

pub open spec fn spec_transaction_list(l: Seq<Transaction>) -> Seq<u8>
    decreases l.len(),
{
    if l.len() == 0 {
        Seq::empty()
    } else {
        spec_transaction_list(l.drop_last()) + spec_body_transaction_bytes(l.last())
    }
}

/// A well-formed transaction whose proof length fits four bytes.
pub open spec fn body_transaction_wf(t: Transaction) -> bool {
    t.wf() && t.proof@.len() <= 0xffff_ffff
}

pub open spec fn fork_proof_wf(p: ForkProof) -> bool {
    &&& p.prev_vrf_seed@.len() <= 0xffff_ffff
    &&& p.header1_hash@.len() <= 0xffff_ffff
    &&& p.header2_hash@.len() <= 0xffff_ffff
    &&& p.justification1@.len() <= 0xffff_ffff
    &&& p.justification2@.len() <= 0xffff_ffff
}

fn push_len_bytes(dst: &mut Vec<u8>, b: &Vec<u8>)
    requires
        b@.len() <= 0xffff_ffff,
    ensures
        final(dst)@ == old(dst)@ + spec_len_bytes(b@),
{
    push_be(dst, b.len() as u64, 4);
    append_bytes(dst, b.as_slice());
    assert(final(dst)@ =~= old(dst)@ + spec_len_bytes(b@));
}

impl MicroBody {
    /// Every transaction is well formed and every length fits its four-byte prefix.
    pub open spec fn wf(&self) -> bool {
        &&& self.fork_proofs@.len() <= 0xffff_ffff
        &&& self.transactions@.len() <= 0xffff_ffff
        &&& forall|i: int| 0 <= i < self.fork_proofs@.len() ==> #[trigger] fork_proof_wf(self.fork_proofs@[i])
        &&& forall|i: int| 0 <= i < self.transactions@.len() ==> #[trigger] body_transaction_wf(self.transactions@[i])
    }

    /// Serialization: the number of fork proofs and the fork proofs, then the number of
    /// transactions and the transactions; counts in four big-endian bytes.
    pub open spec fn spec_serialize(&self) -> Seq<u8> {
        be_bytes(self.fork_proofs@.len(), 4) + spec_fork_proof_list(self.fork_proofs@) + be_bytes(
            self.transactions@.len(),
            4,
        ) + spec_transaction_list(self.transactions@)
    }

    /// The body hash a header commits to.
    pub open spec fn spec_hash(&self) -> Seq<u8> {
        blake2b_of(self.spec_serialize())
    }

    pub fn is_wf(&self) -> (r: bool)
        ensures
            r == self.wf(),
    {
        if self.fork_proofs.len() as u64 > 0xffff_ffff || self.transactions.len() as u64 > 0xffff_ffff {
            return false;
        }
        let mut i: usize = 0;
        while i < self.fork_proofs.len()
            invariant
                i <= self.fork_proofs@.len(),
                forall|j: int| 0 <= j < i ==> #[trigger] fork_proof_wf(self.fork_proofs@[j]),
            decreases self.fork_proofs@.len() - i,
        {
            let p = &self.fork_proofs[i];
            if p.prev_vrf_seed.len() as u64 > 0xffff_ffff || p.header1_hash.len() as u64 > 0xffff_ffff
                || p.header2_hash.len() as u64 > 0xffff_ffff || p.justification1.len() as u64
                > 0xffff_ffff || p.justification2.len() as u64 > 0xffff_ffff {
                assert(!fork_proof_wf(self.fork_proofs@[i as int]));
                return false;
            }
            i = i + 1;
        }
        let mut k: usize = 0;
        while k < self.transactions.len()
            invariant
                k <= self.transactions@.len(),
                forall|j: int| 0 <= j < k ==> #[trigger] body_transaction_wf(self.transactions@[j]),
            decreases self.transactions@.len() - k,
        {
            let t = &self.transactions[k];
            if !t.is_wf() || t.proof.len() as u64 > 0xffff_ffff {
                assert(!body_transaction_wf(self.transactions@[k as int]));
                return false;
            }
            assert(body_transaction_wf(self.transactions@[k as int]));
            k = k + 1;
        }
        true
    }

    pub fn serialize(&self) -> (r: Vec<u8>)
        requires
            self.wf(),
        ensures
            r@ == self.spec_serialize(),
    {
        let mut r: Vec<u8> = Vec::new();
        push_be(&mut r, self.fork_proofs.len() as u64, 4);
        let ghost start = r@;
        let mut i: usize = 0;
        while i < self.fork_proofs.len()
            invariant
                self.wf(),
                i <= self.fork_proofs@.len(),
                r@ == start + spec_fork_proof_list(self.fork_proofs@.subrange(0, i as int)),
            decreases self.fork_proofs@.len() - i,
        {
            let p = &self.fork_proofs[i];
            assert(fork_proof_wf(self.fork_proofs@[i as int]));
            let ghost before = r@;
            push_be(&mut r, p.block_number as u64, 4);
            push_be(&mut r, p.view_number as u64, 4);
            push_len_bytes(&mut r, &p.prev_vrf_seed);
            push_len_bytes(&mut r, &p.header1_hash);
            push_len_bytes(&mut r, &p.header2_hash);
            push_len_bytes(&mut r, &p.justification1);
            push_len_bytes(&mut r, &p.justification2);
            assert(r@ =~= before + spec_fork_proof_bytes(*p));
            assert(self.fork_proofs@.subrange(0, i + 1).drop_last() =~= self.fork_proofs@.subrange(0, i as int));
            assert(r@ =~= start + spec_fork_proof_list(self.fork_proofs@.subrange(0, i + 1)));
            i = i + 1;
        }
        assert(self.fork_proofs@.subrange(0, self.fork_proofs@.len() as int) =~= self.fork_proofs@);
        push_be(&mut r, self.transactions.len() as u64, 4);
        let ghost middle = r@;
        let mut k: usize = 0;
        while k < self.transactions.len()
            invariant
                self.wf(),
                k <= self.transactions@.len(),
                r@ == middle + spec_transaction_list(self.transactions@.subrange(0, k as int)),
            decreases self.transactions@.len() - k,
        {
            let t = &self.transactions[k];
            assert(body_transaction_wf(self.transactions@[k as int]));
            let ghost before = r@;
            let content = t.serialize_content();
            append_bytes(&mut r, content.as_slice());
            push_len_bytes(&mut r, &t.proof);
            assert(r@ =~= before + spec_body_transaction_bytes(*t));
            assert(self.transactions@.subrange(0, k + 1).drop_last() =~= self.transactions@.subrange(0, k as int));
            assert(r@ =~= middle + spec_transaction_list(self.transactions@.subrange(0, k + 1)));
            k = k + 1;
        }
        assert(self.transactions@.subrange(0, self.transactions@.len() as int) =~= self.transactions@);
        assert(r@ =~= self.spec_serialize());
        r
    }

    pub fn hash(&self) -> (r: Vec<u8>)
        requires
            self.wf(),
        ensures
            r@ == self.spec_hash(),
    {
        let bytes = self.serialize();
        blake2b(bytes.as_slice())
    }
}

/// Body of a macro block.
#[derive(Debug, Clone)]
pub struct MacroBody {
    /// The next validator set, serialized; election blocks only.
    pub validators: Option<Vec<u8>>,
    /// Root of the public key tree of `validators`; election blocks only.
    pub pk_tree_root: Option<Vec<u8>>,
    /// Slots that lost their rewards in the batch, ascending.
    pub lost_reward_set: Vec<u32>,
    /// Slots disabled in the batch, ascending.
    pub disabled_set: Vec<u32>,
}

pub open spec fn spec_option_bytes(o: Option<Seq<u8>>) -> Seq<u8> {
    match o {
        None => seq![0u8],
        Some(b) => seq![1u8] + be_bytes(b.len(), 4) + b,
    }
}

pub open spec fn spec_u32_list(l: Seq<u32>) -> Seq<u8>
    decreases l.len(),
{
    if l.len() == 0 {
        Seq::empty()
    } else {
        spec_u32_list(l.drop_last()) + be_bytes(l.last() as nat, 4)
    }
}

pub open spec fn opt_view(o: Option<Vec<u8>>) -> Option<Seq<u8>> {
    match o {
        None => None,
        Some(v) => Some(v@),
    }
}

impl MacroBody {
    /// Every length fits the four-byte prefix that precedes it.
    pub open spec fn wf(&self) -> bool {
        &&& (self.validators matches Some(v) ==> v@.len() <= 0xffff_ffff)
        &&& (self.pk_tree_root matches Some(v) ==> v@.len() <= 0xffff_ffff)
        &&& self.lost_reward_set@.len() <= 0xffff_ffff
        &&& self.disabled_set@.len() <= 0xffff_ffff
    }

    /// Serialization: each optional field as a presence byte and, when present, a four-byte
    /// length and the bytes; each slot list as a four-byte count and four bytes per slot.
    /// Integers are big-endian.
    pub open spec fn spec_serialize(&self) -> Seq<u8> {
        spec_option_bytes(opt_view(self.validators)) + spec_option_bytes(opt_view(self.pk_tree_root))
            + be_bytes(self.lost_reward_set@.len(), 4) + spec_u32_list(self.lost_reward_set@)
            + be_bytes(self.disabled_set@.len(), 4) + spec_u32_list(self.disabled_set@)
    }

    /// The body hash a header commits to.
    pub open spec fn spec_hash(&self) -> Seq<u8> {
        blake2b_of(self.spec_serialize())
    }

    /// Whether every length fits its prefix.
    pub fn is_wf(&self) -> (r: bool)
        ensures
            r == self.wf(),
    {
        let validators_ok = match &self.validators {
            Some(v) => v.len() as u64 <= 0xffff_ffff,
            None => true,
        };
        let root_ok = match &self.pk_tree_root {
            Some(v) => v.len() as u64 <= 0xffff_ffff,
            None => true,
        };
        validators_ok && root_ok && self.lost_reward_set.len() as u64 <= 0xffff_ffff
            && self.disabled_set.len() as u64 <= 0xffff_ffff
    }

    pub fn serialize(&self) -> (r: Vec<u8>)
        requires
            self.wf(),
        ensures
            r@ == self.spec_serialize(),
    {
        let mut r: Vec<u8> = Vec::new();
        push_option_bytes(&mut r, &self.validators);
        push_option_bytes(&mut r, &self.pk_tree_root);
        push_be(&mut r, self.lost_reward_set.len() as u64, 4);
        push_u32_list(&mut r, &self.lost_reward_set);
        push_be(&mut r, self.disabled_set.len() as u64, 4);
        push_u32_list(&mut r, &self.disabled_set);
        assert(r@ =~= self.spec_serialize());
        r
    }

    pub fn hash(&self) -> (r: Vec<u8>)
        requires
            self.wf(),
        ensures
            r@ == self.spec_hash(),
    {
        let bytes = self.serialize();
        blake2b(bytes.as_slice())
    }
}

fn push_option_bytes(dst: &mut Vec<u8>, o: &Option<Vec<u8>>)
    requires
        o matches Some(v) ==> v@.len() <= 0xffff_ffff,
    ensures
        final(dst)@ == old(dst)@ + spec_option_bytes(opt_view(*o)),
{
    match o {
        None => {
            dst.push(0);
            assert(final(dst)@ =~= old(dst)@ + spec_option_bytes(opt_view(*o)));
        },
        Some(b) => {
            dst.push(1);
            push_be(dst, b.len() as u64, 4);
            append_bytes(dst, b.as_slice());
            assert(final(dst)@ =~= old(dst)@ + spec_option_bytes(opt_view(*o)));
        },
    }
}

fn push_u32_list(dst: &mut Vec<u8>, l: &Vec<u32>)
    ensures
        final(dst)@ == old(dst)@ + spec_u32_list(l@),
{
    let mut i: usize = 0;
    while i < l.len()
        invariant
            i <= l@.len(),
            dst@ == old(dst)@ + spec_u32_list(l@.subrange(0, i as int)),
        decreases l@.len() - i,
    {
        push_be(dst, l[i] as u64, 4);
        assert(l@.subrange(0, i + 1).drop_last() =~= l@.subrange(0, i as int));
        assert(dst@ =~= old(dst)@ + spec_u32_list(l@.subrange(0, i + 1)));
        i = i + 1;
    }
    assert(l@.subrange(0, l@.len() as int) =~= l@);
}

/// A micro block: header, the header's hash, and optional justification and body.
#[derive(Debug, Clone)]
pub struct MicroBlock {
    pub header: BlockHeader,
    pub hash: Vec<u8>,
    pub justification: Option<MicroJustification>,
    pub body: Option<MicroBody>,
}

/// A macro block: header, the header's hash, whether its aggregated commit proof verifies under
/// the current validator set, and an optional body.
#[derive(Debug, Clone)]
pub struct MacroBlock {
    pub header: BlockHeader,
    pub hash: Vec<u8>,
    pub justification_valid: bool,
    pub body: Option<MacroBody>,
}

/// A block of either kind.
#[derive(Debug, Clone)]
pub enum Block {
    Micro(MicroBlock),
    Macro(MacroBlock),
}

impl Block {
    pub open spec fn spec_header(&self) -> BlockHeader {
        match self {
            Block::Micro(b) => b.header,
            Block::Macro(b) => b.header,
        }
    }

    pub fn header(&self) -> (r: &BlockHeader)
        ensures
            *r == self.spec_header(),
    {
        match self {
            Block::Micro(b) => &b.header,
            Block::Macro(b) => &b.header,
        }
    }
}

/// A body of either kind.
#[derive(Debug, Clone)]
pub enum BlockBody {
    Micro(MicroBody),
    Macro(MacroBody),
}

} // verus!
