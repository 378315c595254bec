//! The block validators: header, justification and body checks made before a block is applied,
//! and the state checks made after.

use vstd::prelude::*;
use crate::block::{
    Block, BlockBody, BlockError, BlockHeader, BlockType, ChainInfo, ForkProof, MacroBody, MicroBody,
    PushError, opt_view, spec_cmp_block_order, spec_cmp_fork_proofs, spec_fork_proof_signed_by,
    spec_option_bytes, spec_u32_list, vrf_seed_valid, vrf_seed_verify,
};
use crate::bytes::{be_bytes, bytes_eq};
use crate::crypto::{blake2b, blake2b_of, ed25519_valid, ed25519_verify};
use crate::policy::{
    BATCH_LENGTH, MAX_SIZE_MICRO_BODY, TIMESTAMP_MAX_DRIFT, VERSION, epoch_at, is_election_block_at,
    spec_epoch_at, spec_is_election_block_at, spec_is_macro_block_at,
};
use crate::transaction::{Transaction, TransactionError};

verus! {

/// Index of the last stored block with hash `hash`.
pub open spec fn find_block(chain: Seq<ChainInfo>, hash: Seq<u8>) -> Option<int>
    decreases chain.len(),
{
    if chain.len() == 0 {
        None
    } else if chain.last().hash@ == hash {
        Some(chain.len() - 1)
    } else {
        find_block(chain.drop_last(), hash)
    }
}

pub proof fn lemma_find_block_in_range(chain: Seq<ChainInfo>, hash: Seq<u8>)
    ensures
        find_block(chain, hash) matches Some(i) ==> 0 <= i < chain.len() && chain[i].hash@ == hash,
    decreases chain.len(),
{
    if chain.len() > 0 && chain.last().hash@ != hash {
        lemma_find_block_in_range(chain.drop_last(), hash);
    }
}

/// The root of the history tree of one epoch.
#[derive(Debug, Clone)]
pub struct HistoryRoot {
    pub epoch: u32,
    pub root: Vec<u8>,
}

/// Index of the last history root recorded for `epoch`.
pub open spec fn find_history(roots: Seq<HistoryRoot>, epoch: u32) -> Option<int>
    decreases roots.len(),
{
    if roots.len() == 0 {
        None
    } else if roots.last().epoch == epoch {
        Some(roots.len() - 1)
    } else {
        find_history(roots.drop_last(), epoch)
    }
}

/// The chain state after the candidate block has been applied to it.
#[derive(Debug, Clone)]
pub struct BlockchainState {
    /// Root of the accounts tree.
    pub accounts_root: Vec<u8>,
    /// History tree roots by epoch.
    pub history_roots: Vec<HistoryRoot>,
    /// Slots that lost their rewards in the previous batch, per the staking contract.
    pub lost_rewards: Vec<u32>,
    /// Slots disabled in the previous batch, per the staking contract.
    pub disabled_slots: Vec<u32>,
    /// The validator set the staking contract elects under the candidate block's seed,
    /// serialized.
    pub next_validators: Vec<u8>,
    /// Root of the public key tree of `next_validators`.
    pub next_pk_tree_root: Vec<u8>,
}

/// What the chain supplies to body validation besides the body.
#[derive(Debug, Clone)]
pub struct BodyContext {
    /// For each fork proof, in order: the signing key of the slot owner of its block number,
    /// view number and previous seed, when there is one.
    pub fork_proof_signers: Vec<Option<Vec<u8>>>,
    /// For each transaction, in order: `Ok` when the verification cache knows it already, else
    /// the outcome of its intrinsic verification.
    pub transaction_checks: Vec<Result<(), TransactionError>>,
    /// For an election block: the public key tree root derived from the body's validators.
    pub derived_pk_tree_root: Option<Vec<u8>>,
}

/// The view of the local chain the validators read.
#[derive(Debug, Clone)]
pub struct Blockchain {
    /// The stored blocks.
    pub chain: Vec<ChainInfo>,
    /// Hash of the latest election block.
    pub election_head_hash: Vec<u8>,
    /// The local clock, in milliseconds since the Unix epoch.
    pub now: u64,
}

/// The verdict of the header validator.
pub open spec fn header_verdict(
    bc: Blockchain,
    header: BlockHeader,
    signing_key: Seq<u8>,
    check_seed: bool,
) -> Result<(), PushError> {
    if header.version != VERSION {
        Err(PushError::InvalidBlock(BlockError::UnsupportedVersion))
    } else {
        match find_block(bc.chain@, header.parent_hash@) {
            None => Err(PushError::Orphan),
            Some(i) => {
                let parent = bc.chain@[i];
                if spec_is_macro_block_at(parent.block_number + 1) != (header.ty == BlockType::Macro) {
                    Err(PushError::InvalidSuccessor)
                } else if parent.block_number + 1 != header.block_number {
                    Err(PushError::InvalidSuccessor)
                } else if parent.timestamp > header.timestamp {
                    Err(PushError::InvalidSuccessor)
                } else if header.timestamp - bc.now > TIMESTAMP_MAX_DRIFT {
                    Err(PushError::InvalidBlock(BlockError::FromTheFuture))
                } else if check_seed && !vrf_seed_valid(
                    header.seed@,
                    parent.seed@,
                    signing_key,
                    header.block_number,
                ) {
                    Err(PushError::InvalidBlock(BlockError::InvalidSeed))
                } else if header.ty == BlockType::Macro && opt_view(header.parent_election_hash)
                    != Some(bc.election_head_hash@) {
                    Err(PushError::InvalidSuccessor)
                } else {
                    Ok(())
                }
            },
        }
    }
}

/// The view number a micro block is measured against: 0 right after a macro block, else the
/// parent's view number.
pub open spec fn reference_view_number(parent: ChainInfo) -> u32 {
    if parent.ty == BlockType::Macro {
        0
    } else {
        parent.view_number
    }
}

/// The verdict of the justification validator.
pub open spec fn justification_verdict(
    bc: Blockchain,
    block: Block,
    signing_key: Seq<u8>,
    check_signature: bool,
) -> Result<(), PushError> {
    match block {
        Block::Micro(b) => match b.justification {
            None => Err(PushError::InvalidBlock(BlockError::NoJustification)),
            Some(j) => if check_signature && !ed25519_valid(signing_key, j.signature@, b.hash@) {
                Err(PushError::InvalidBlock(BlockError::InvalidJustification))
            } else {
                match find_block(bc.chain@, b.header.parent_hash@) {
                    None => Err(PushError::Orphan),
                    Some(i) => {
                        let reference = reference_view_number(bc.chain@[i]);
                        let view = b.header.view_number;
                        if view < reference {
                            Err(PushError::InvalidBlock(BlockError::InvalidViewNumber))
                        } else if view == reference {
                            if j.view_change_proof is Some {
                                Err(PushError::InvalidBlock(BlockError::InvalidJustification))
                            } else {
                                Ok(())
                            }
                        } else {
                            match j.view_change_proof {
                                None => Err(PushError::InvalidBlock(BlockError::NoViewChangeProof)),
                                Some(valid) => if valid {
                                    Ok(())
                                } else {
                                    Err(PushError::InvalidBlock(BlockError::InvalidViewChangeProof))
                                },
                            }
                        }
                    },
                }
            },
        },
        Block::Macro(b) => if check_signature && !b.justification_valid {
            Err(PushError::InvalidBlock(BlockError::InvalidJustification))
        } else {
            Ok(())
        },
    }
}

/// The verdict on the fork proofs from index `i` on, given that those before passed.
pub open spec fn fork_proofs_verdict(
    proofs: Seq<ForkProof>,
    signers: Seq<Option<Vec<u8>>>,
    block_number: u32,
    i: int,
) -> Result<(), BlockError>
    decreases proofs.len() - i,
{
    if i < 0 || i >= proofs.len() {
        Ok(())
    } else {
        let proof = proofs[i];
        if i > 0 && spec_cmp_fork_proofs(proofs[i - 1], proof) == 0 {
            Err(BlockError::DuplicateForkProof)
        } else if i > 0 && spec_cmp_fork_proofs(proofs[i - 1], proof) > 0 {
            Err(BlockError::ForkProofsNotOrdered)
        } else if !proof.spec_is_valid_at(block_number) {
            Err(BlockError::InvalidForkProof)
        } else {
            match signers[i] {
                None => Err(BlockError::InvalidForkProof),
                Some(key) => if !spec_fork_proof_signed_by(proof, key@) {
                    Err(BlockError::InvalidForkProof)
                } else {
                    fork_proofs_verdict(proofs, signers, block_number, i + 1)
                },
            }
        }
    }
}

/// The verdict on the transactions from index `i` on, given that those before passed.
pub open spec fn transactions_verdict(
    txs: Seq<Transaction>,
    checks: Seq<Result<(), TransactionError>>,
    block_number: u32,
    verify_txns: bool,
    i: int,
) -> Result<(), BlockError>
    decreases txs.len() - i,
{
    if i < 0 || i >= txs.len() {
        Ok(())
    } else {
        let tx = txs[i];
        if i > 0 && spec_cmp_block_order(txs[i - 1], tx) > 0 {
            Err(BlockError::TransactionsNotOrdered)
        } else if i > 0 && spec_cmp_block_order(txs[i - 1], tx) == 0 {
            Err(BlockError::DuplicateTransaction)
        } else if !tx.spec_is_valid_at(block_number) {
            Err(BlockError::ExpiredTransaction)
        } else if verify_txns && checks[i] is Err {
            Err(BlockError::InvalidTransaction(checks[i]->Err_0))
        } else {
            transactions_verdict(txs, checks, block_number, verify_txns, i + 1)
        }
    }
}

/// The verdict of the body validator.
pub open spec fn body_verdict(
    header: BlockHeader,
    body: Option<BlockBody>,
    context: BodyContext,
    verify_txns: bool,
) -> Result<(), PushError> {
    match body {
        None => Err(PushError::InvalidBlock(BlockError::MissingBody)),
        Some(BlockBody::Micro(body)) => if body.spec_serialize().len() > MAX_SIZE_MICRO_BODY {
            Err(PushError::InvalidBlock(BlockError::SizeExceeded))
        } else if body.spec_hash() != header.body_root@ {
            Err(PushError::InvalidBlock(BlockError::BodyHashMismatch))
        } else {
            match fork_proofs_verdict(
                body.fork_proofs@,
                context.fork_proof_signers@,
                header.block_number,
                0,
            ) {
                Err(e) => Err(PushError::InvalidBlock(e)),
                Ok(_) => match transactions_verdict(
                    body.transactions@,
                    context.transaction_checks@,
                    header.block_number,
                    verify_txns,
                    0,
                ) {
                    Err(e) => Err(PushError::InvalidBlock(e)),
                    Ok(_) => Ok(()),
                },
            }
        },
        Some(BlockBody::Macro(body)) => {
            let is_election = spec_is_election_block_at(header.block_number as int);
            if body.spec_hash() != header.body_root@ {
                Err(PushError::InvalidBlock(BlockError::BodyHashMismatch))
            } else if is_election != body.validators is Some {
                Err(PushError::InvalidBlock(BlockError::InvalidValidators))
            } else if is_election != body.pk_tree_root is Some {
                Err(PushError::InvalidBlock(BlockError::InvalidPkTreeRoot))
            } else if is_election && opt_view(context.derived_pk_tree_root) != opt_view(
                body.pk_tree_root,
            ) {
                Err(PushError::InvalidBlock(BlockError::InvalidPkTreeRoot))
            } else {
                Ok(())
            }
        },
    }
}

/// The validators a macro block at `header` must carry, computed from the state.
pub open spec fn real_validators(state: BlockchainState, header: BlockHeader) -> Option<Seq<u8>> {
    if spec_is_election_block_at(header.block_number as int) {
        Some(state.next_validators@)
    } else {
        None
    }
}

/// The public key tree root a macro block at `header` must carry, computed from the state.
pub open spec fn real_pk_tree_root(state: BlockchainState, header: BlockHeader) -> Option<Seq<u8>> {
    if spec_is_election_block_at(header.block_number as int) {
        Some(state.next_pk_tree_root@)
    } else {
        None
    }
}

/// Serialization of the macro body the state calls for at `header`.
pub open spec fn real_body_bytes(state: BlockchainState, header: BlockHeader) -> Seq<u8> {
    spec_option_bytes(real_validators(state, header)) + spec_option_bytes(
        real_pk_tree_root(state, header),
    ) + be_bytes(state.lost_rewards@.len(), 4) + spec_u32_list(state.lost_rewards@) + be_bytes(
        state.disabled_slots@.len(),
        4,
    ) + spec_u32_list(state.disabled_slots@)
}

/// Whether `body` is the macro body the state calls for at `header`.
pub open spec fn is_real_body(body: MacroBody, state: BlockchainState, header: BlockHeader) -> bool {
    &&& opt_view(body.validators) == real_validators(state, header)
    &&& opt_view(body.pk_tree_root) == real_pk_tree_root(state, header)
    &&& body.lost_reward_set@ == state.lost_rewards@
    &&& body.disabled_set@ == state.disabled_slots@
}

/// The verdict of the state validator: `Ok(true)` when a macro block came without a body and
/// the body the state calls for matches its header, so that body is handed back.
pub open spec fn state_verdict(state: BlockchainState, block: Block) -> Result<bool, PushError> {
    let header = block.spec_header();
    if state.accounts_root@ != header.state_root@ {
        Err(PushError::InvalidBlock(BlockError::AccountsHashMismatch))
    } else {
        match find_history(
            state.history_roots@,
            spec_epoch_at(header.block_number as int) as u32,
        ) {
            None => Err(PushError::InvalidBlock(BlockError::InvalidHistoryRoot)),
            Some(i) => if state.history_roots@[i].root@ != header.history_root@ {
                Err(PushError::InvalidBlock(BlockError::InvalidHistoryRoot))
            } else {
                match block {
                    Block::Micro(_) => Ok(false),
                    Block::Macro(b) => match b.body {
                        Some(body) => if body.lost_reward_set@ != state.lost_rewards@ {
                            Err(PushError::InvalidBlock(BlockError::InvalidValidators))
                        } else if body.disabled_set@ != state.disabled_slots@ {
                            Err(PushError::InvalidBlock(BlockError::InvalidValidators))
                        } else if opt_view(body.validators) != real_validators(state, header) {
                            Err(PushError::InvalidBlock(BlockError::InvalidValidators))
                        } else {
                            Ok(false)
                        },
                        None => if blake2b_of(real_body_bytes(state, header)) != header.body_root@ {
                            Err(PushError::InvalidBlock(BlockError::BodyHashMismatch))
                        } else {
                            Ok(true)
                        },
                    },
                }
            },
        }
    }
}


fn opt_bytes_eq(a: &Option<Vec<u8>>, b: &Option<Vec<u8>>) -> (r: bool)
    ensures
        r == (opt_view(*a) == opt_view(*b)),
{
    match (a, b) {
        (None, None) => true,
        (Some(x), Some(y)) => bytes_eq(x.as_slice(), y.as_slice()),
        _ => false,
    }
}

fn slots_eq(a: &Vec<u32>, b: &Vec<u32>) -> (r: bool)
    ensures
        r == (a@ == b@),
{
    if a.len() != b.len() {
        return false;
    }
    let mut i: usize = 0;
    while i < a.len()
        invariant
            a@.len() == b@.len(),
            i <= a@.len(),
            forall|j: int| 0 <= j < i ==> a@[j] == b@[j],
        decreases a@.len() - i,
    {
        if a[i] != b[i] {
            return false;
        }
        i = i + 1;
    }
    assert(a@ =~= b@);
    true
}

fn find_history_root(roots: &Vec<HistoryRoot>, epoch: u32) -> (r: Option<usize>)
    ensures
        match r {
            Some(k) => find_history(roots@, epoch) == Some(k as int),
            None => find_history(roots@, epoch) is None,
        },
{
    let mut i: usize = roots.len();
    assert(roots@.subrange(0, i as int) =~= roots@);
    while i > 0
        invariant
            i <= roots@.len(),
            find_history(roots@, epoch) == find_history(roots@.subrange(0, i as int), epoch),
        decreases i,
    {
        let ghost prefix = roots@.subrange(0, i as int);
        assert(prefix.drop_last() =~= roots@.subrange(0, i - 1));
        if roots[i - 1].epoch == epoch {
            return Some(i - 1);
        }
        i = i - 1;
    }
    None
}

impl Blockchain {
    /// Index of the last stored block with hash `hash`.
    pub fn get_chain_info(&self, hash: &[u8]) -> (r: Option<usize>)
        ensures
            match r {
                Some(k) => find_block(self.chain@, hash@) == Some(k as int),
                None => find_block(self.chain@, hash@) is None,
            },
    {
        let mut i: usize = self.chain.len();
        assert(self.chain@.subrange(0, i as int) =~= self.chain@);
        while i > 0
            invariant
                i <= self.chain@.len(),
                find_block(self.chain@, hash@) == find_block(self.chain@.subrange(0, i as int), hash@),
            decreases i,
        {
            let ghost prefix = self.chain@.subrange(0, i as int);
            assert(prefix.drop_last() =~= self.chain@.subrange(0, i - 1));
            if bytes_eq(self.chain[i - 1].hash.as_slice(), hash) {
                return Some(i - 1);
            }
            i = i - 1;
        }
        None
    }

    /// Checks a header against its parent before the block is applied: version, known parent,
    /// block type, block number and timestamp succession, clock drift, the VRF seed (when
    /// `check_seed`, with the block number as nonce) and, for macro blocks, the parent election
    /// hash.
    pub fn verify_block_header(
        &self,
        header: &BlockHeader,
        signing_key: &[u8],
        check_seed: bool,
    ) -> (r: Result<(), PushError>)
        ensures
            r == header_verdict(*self, *header, signing_key@, check_seed),
    {
        if header.version != VERSION {
            return Err(PushError::InvalidBlock(BlockError::UnsupportedVersion));
        }
        let index = match self.get_chain_info(header.parent_hash.as_slice()) {
            Some(i) => i,
            None => return Err(PushError::Orphan),
        };
        proof {
            lemma_find_block_in_range(self.chain@, header.parent_hash@);
        }
        let parent = &self.chain[index];
        let next_number: u64 = parent.block_number as u64 + 1;
        let next_is_macro = next_number % (BATCH_LENGTH as u64) == 0;
        if next_is_macro != (header.ty == BlockType::Macro) {
            return Err(PushError::InvalidSuccessor);
        }
        if next_number != header.block_number as u64 {
            return Err(PushError::InvalidSuccessor);
        }
        if parent.timestamp > header.timestamp {
            return Err(PushError::InvalidSuccessor);
        }
        if header.timestamp > self.now && header.timestamp - self.now > TIMESTAMP_MAX_DRIFT {
            return Err(PushError::InvalidBlock(BlockError::FromTheFuture));
        }
        if check_seed && !vrf_seed_verify(
            header.seed.as_slice(),
            parent.seed.as_slice(),
            signing_key,
            header.block_number,
        ) {
            return Err(PushError::InvalidBlock(BlockError::InvalidSeed));
        }
        if header.ty == BlockType::Macro {
            let expected = Some(self.election_head_hash.clone());
            if !opt_bytes_eq(&header.parent_election_hash, &expected) {
                return Err(PushError::InvalidSuccessor);
            }
        }
        Ok(())
    }

    /// Checks a block's justification: for a micro block the producer's signature over the
    /// block hash (when `check_signature`) and the view change rules against the parent; for a
    /// macro block its commit proof (when `check_signature`).
    pub fn verify_block_justification(
        &self,
        block: &Block,
        signing_key: &[u8],
        check_signature: bool,
    ) -> (r: Result<(), PushError>)
        ensures
            r == justification_verdict(*self, *block, signing_key@, check_signature),
    {
        match block {
            Block::Micro(micro_block) => {
                let justification = match &micro_block.justification {
                    Some(j) => j,
                    None => return Err(PushError::InvalidBlock(BlockError::NoJustification)),
                };
                if check_signature && !ed25519_verify(
                    signing_key,
                    justification.signature.as_slice(),
                    micro_block.hash.as_slice(),
                ) {
                    return Err(PushError::InvalidBlock(BlockError::InvalidJustification));
                }
                let index = match self.get_chain_info(micro_block.header.parent_hash.as_slice()) {
                    Some(i) => i,
                    None => return Err(PushError::Orphan),
                };
                proof {
                    lemma_find_block_in_range(self.chain@, micro_block.header.parent_hash@);
                }
                let parent = &self.chain[index];
                let view_number: u32 = if parent.ty == BlockType::Macro {
                    0
                } else {
                    parent.view_number
                };
                let new_view_number = micro_block.header.view_number;
                if new_view_number < view_number {
                    return Err(PushError::InvalidBlock(BlockError::InvalidViewNumber));
                } else if new_view_number == view_number {
                    if justification.view_change_proof.is_some() {
                        return Err(PushError::InvalidBlock(BlockError::InvalidJustification));
                    }
                } else {
                    match justification.view_change_proof {
                        None => return Err(PushError::InvalidBlock(BlockError::NoViewChangeProof)),
                        Some(valid) => {
                            if !valid {
                                return Err(
                                    PushError::InvalidBlock(BlockError::InvalidViewChangeProof),
                                );
                            }
                        },
                    }
                }
            },
            Block::Macro(macro_block) => {
                if check_signature && !macro_block.justification_valid {
                    return Err(PushError::InvalidBlock(BlockError::InvalidJustification));
                }
            },
        }
        Ok(())
    }

    /// Checks a body before the block is applied: presence, size and hash of a micro body, the
    /// order, uniqueness and validity of its fork proofs and transactions; for a macro body its
    /// hash and the election block invariants.
    #[verifier::loop_isolation(false)]
    pub fn verify_block_body(
        &self,
        header: &BlockHeader,
        body_opt: &Option<BlockBody>,
        context: &BodyContext,
        verify_txns: bool,
    ) -> (r: Result<(), PushError>)
        requires
            body_opt matches Some(BlockBody::Micro(b)) ==> {
                &&& context.fork_proof_signers@.len() == b.fork_proofs@.len()
                &&& context.transaction_checks@.len() == b.transactions@.len()
                &&& b.wf()
            },
            body_opt matches Some(BlockBody::Macro(b)) ==> b.wf(),
        ensures
            r == body_verdict(*header, *body_opt, *context, verify_txns),
    {
        let body = match body_opt {
            Some(b) => b,
            None => return Err(PushError::InvalidBlock(BlockError::MissingBody)),
        };
        match body {
            BlockBody::Micro(body) => {
                let serialized = body.serialize();
                if serialized.len() > MAX_SIZE_MICRO_BODY {
                    return Err(PushError::InvalidBlock(BlockError::SizeExceeded));
                }
                let hash = blake2b(serialized.as_slice());
                if !bytes_eq(hash.as_slice(), header.body_root.as_slice()) {
                    return Err(PushError::InvalidBlock(BlockError::BodyHashMismatch));
                }
                let block_number = header.block_number;
                let proofs = &body.fork_proofs;
                let signers = &context.fork_proof_signers;
                let mut i: usize = 0;
                while i < proofs.len()
                    invariant
                        i <= proofs@.len(),
                        signers@.len() == proofs@.len(),
                        fork_proofs_verdict(proofs@, signers@, block_number, 0)
                            == fork_proofs_verdict(proofs@, signers@, block_number, i as int),
                    decreases proofs@.len() - i,
                {
                    let proof = &proofs[i];
                    if i > 0 {
                        let c = proofs[i - 1].cmp(proof);
                        if c == 0 {
                            assert(fork_proofs_verdict(proofs@, signers@, block_number, i as int)
                                == Err::<(), BlockError>(BlockError::DuplicateForkProof));
                            return Err(PushError::InvalidBlock(BlockError::DuplicateForkProof));
                        }
                        if c > 0 {
                            assert(fork_proofs_verdict(proofs@, signers@, block_number, i as int)
                                == Err::<(), BlockError>(BlockError::ForkProofsNotOrdered));
                            return Err(PushError::InvalidBlock(BlockError::ForkProofsNotOrdered));
                        }
                    }
                    if !proof.is_valid_at(block_number) {
                        return Err(PushError::InvalidBlock(BlockError::InvalidForkProof));
                    }
                    match &signers[i] {
                        None => return Err(PushError::InvalidBlock(BlockError::InvalidForkProof)),
                        Some(key) => {
                            if !proof.verify(key.as_slice()) {
                                return Err(PushError::InvalidBlock(BlockError::InvalidForkProof));
                            }
                        },
                    }
                    i = i + 1;
                }
                let txs = &body.transactions;
                let checks = &context.transaction_checks;
                let mut k: usize = 0;
                while k < txs.len()
                    invariant
                        k <= txs@.len(),
                        checks@.len() == txs@.len(),
                        transactions_verdict(txs@, checks@, block_number, verify_txns, 0)
                            == transactions_verdict(txs@, checks@, block_number, verify_txns, k as int),
                    decreases txs@.len() - k,
                {
                    let tx = &txs[k];
                    if k > 0 {
                        let c = txs[k - 1].cmp_block_order(tx);
                        if c > 0 {
                            assert(transactions_verdict(txs@, checks@, block_number, verify_txns, k as int)
                                == Err::<(), BlockError>(BlockError::TransactionsNotOrdered));
                            return Err(PushError::InvalidBlock(BlockError::TransactionsNotOrdered));
                        }
                        if c == 0 {
                            return Err(PushError::InvalidBlock(BlockError::DuplicateTransaction));
                        }
                    }
                    if !tx.is_valid_at(block_number) {
                        assert(transactions_verdict(txs@, checks@, block_number, verify_txns, k as int)
                            == Err::<(), BlockError>(BlockError::ExpiredTransaction));
                        return Err(PushError::InvalidBlock(BlockError::ExpiredTransaction));
                    }
                    if verify_txns {
                        match &checks[k] {
                            Err(e) => {
                                return Err(PushError::InvalidBlock(BlockError::InvalidTransaction(*e)));
                            },
                            Ok(_) => {},
                        }
                    }
                    k = k + 1;
                }
                Ok(())
            },
            BlockBody::Macro(body) => {
                let hash = body.hash();
                if !bytes_eq(hash.as_slice(), header.body_root.as_slice()) {
                    return Err(PushError::InvalidBlock(BlockError::BodyHashMismatch));
                }
                let is_election = is_election_block_at(header.block_number);
                if is_election != body.validators.is_some() {
                    return Err(PushError::InvalidBlock(BlockError::InvalidValidators));
                }
                if is_election != body.pk_tree_root.is_some() {
                    return Err(PushError::InvalidBlock(BlockError::InvalidPkTreeRoot));
                }
                if is_election && !opt_bytes_eq(&context.derived_pk_tree_root, &body.pk_tree_root) {
                    return Err(PushError::InvalidBlock(BlockError::InvalidPkTreeRoot));
                }
                Ok(())
            },
        }
    }

    /// Checks a block against the state after it was applied: accounts root, history root and,
    /// for macro blocks, the body the state calls for. A macro block given without a body gets
    /// that body back when its hash matches the header.
    pub fn verify_block_state(&self, state: &BlockchainState, block: &Block) -> (r: Result<
        Option<MacroBody>,
        PushError,
    >)
        requires
            state.lost_rewards@.len() <= 0xffff_ffff,
            state.disabled_slots@.len() <= 0xffff_ffff,
            state.next_validators@.len() <= 0xffff_ffff,
            state.next_pk_tree_root@.len() <= 0xffff_ffff,
        ensures
            match state_verdict(*state, *block) {
                Err(e) => r == Err::<Option<MacroBody>, PushError>(e),
                Ok(false) => r matches Ok(None),
                Ok(true) => r matches Ok(Some(body)) && is_real_body(body, *state, block.spec_header()),
            },
    {
        let header = block.header();
        if !bytes_eq(state.accounts_root.as_slice(), header.state_root.as_slice()) {
            return Err(PushError::InvalidBlock(BlockError::AccountsHashMismatch));
        }
        let epoch = epoch_at(header.block_number);
        assert(spec_epoch_at(header.block_number as int) as u32 == epoch);
        let index = match find_history_root(&state.history_roots, epoch) {
            Some(i) => i,
            None => return Err(PushError::InvalidBlock(BlockError::InvalidHistoryRoot)),
        };
        proof {
            lemma_find_history_in_range(state.history_roots@, epoch);
        }
        if !bytes_eq(state.history_roots[index].root.as_slice(), header.history_root.as_slice()) {
            return Err(PushError::InvalidBlock(BlockError::InvalidHistoryRoot));
        }
        if let Block::Macro(macro_block) = block {
            let is_election = is_election_block_at(header.block_number);
            let real_validators: Option<Vec<u8>> = if is_election {
                Some(state.next_validators.clone())
            } else {
                None
            };
            match &macro_block.body {
                Some(body) => {
                    if !slots_eq(&state.lost_rewards, &body.lost_reward_set) {
                        return Err(PushError::InvalidBlock(BlockError::InvalidValidators));
                    }
                    if !slots_eq(&state.disabled_slots, &body.disabled_set) {
                        return Err(PushError::InvalidBlock(BlockError::InvalidValidators));
                    }
                    if !opt_bytes_eq(&real_validators, &body.validators) {
                        return Err(PushError::InvalidBlock(BlockError::InvalidValidators));
                    }
                },
                None => {
                    let real_pk_tree_root: Option<Vec<u8>> = if is_election {
                        Some(state.next_pk_tree_root.clone())
                    } else {
                        None
                    };
                    let real_body = MacroBody {
                        validators: real_validators,
                        pk_tree_root: real_pk_tree_root,
                        lost_reward_set: state.lost_rewards.clone(),
                        disabled_set: state.disabled_slots.clone(),
                    };
                    let hash = real_body.hash();
                    assert(real_body.spec_serialize() == real_body_bytes(*state, *header));
                    if !bytes_eq(hash.as_slice(), header.body_root.as_slice()) {
                        return Err(PushError::InvalidBlock(BlockError::BodyHashMismatch));
                    }
                    return Ok(Some(real_body));
                },
            }
        }
        Ok(None)
    }
}

pub proof fn lemma_find_history_in_range(roots: Seq<HistoryRoot>, epoch: u32)
    ensures
        find_history(roots, epoch) matches Some(i) ==> 0 <= i < roots.len() && roots[i].epoch == epoch,
    decreases roots.len(),
{
    if roots.len() > 0 && roots.last().epoch != epoch {
        lemma_find_history_in_range(roots.drop_last(), epoch);
    }
}


/// A header the header validator accepts extends a stored parent by one block, is not older
/// than it, and lies at most `TIMESTAMP_MAX_DRIFT` ahead of the local clock.
pub proof fn lemma_accepted_header_follows_parent(
    bc: Blockchain,
    header: BlockHeader,
    signing_key: Seq<u8>,
    check_seed: bool,
)
    requires
        header_verdict(bc, header, signing_key, check_seed) is Ok,
    ensures
        find_block(bc.chain@, header.parent_hash@) matches Some(i) && {
            let parent = bc.chain@[i];
            &&& 0 <= i < bc.chain@.len()
            &&& parent.hash@ == header.parent_hash@
            &&& parent.block_number + 1 == header.block_number
            &&& parent.timestamp <= header.timestamp
            &&& header.timestamp - bc.now <= TIMESTAMP_MAX_DRIFT
        },
{
    lemma_find_block_in_range(bc.chain@, header.parent_hash@);
}

proof fn lemma_fork_proofs_accepted(
    proofs: Seq<ForkProof>,
    signers: Seq<Option<Vec<u8>>>,
    block_number: u32,
    k: int,
)
    requires
        0 <= k,
        fork_proofs_verdict(proofs, signers, block_number, k) is Ok,
    ensures
        forall|i: int| k <= i < proofs.len() ==> #[trigger] proofs[i].spec_is_valid_at(block_number),
        forall|i: int|
            k < i < proofs.len() && k >= 0 ==> #[trigger] spec_cmp_fork_proofs(proofs[i - 1], proofs[i]) < 0,
    decreases proofs.len() - k,
{
    if k < proofs.len() {
        lemma_fork_proofs_accepted(proofs, signers, block_number, k + 1);
        if k > 0 {
            assert(spec_cmp_fork_proofs(proofs[k - 1], proofs[k]) < 0);
        }
    }
}

proof fn lemma_transactions_accepted(
    txs: Seq<Transaction>,
    checks: Seq<Result<(), TransactionError>>,
    block_number: u32,
    verify_txns: bool,
    k: int,
)
    requires
        0 <= k,
        transactions_verdict(txs, checks, block_number, verify_txns, k) is Ok,
    ensures
        forall|i: int| k <= i < txs.len() ==> #[trigger] txs[i].spec_is_valid_at(block_number),
        forall|i: int| k < i < txs.len() ==> #[trigger] spec_cmp_block_order(txs[i - 1], txs[i]) < 0,
    decreases txs.len() - k,
{
    if k < txs.len() {
        lemma_transactions_accepted(txs, checks, block_number, verify_txns, k + 1);
    }
}

/// In a micro body the body validator accepts, fork proofs and transactions are strictly
/// ascending under their orders, every fork proof can be reported at the block, and every
/// transaction is valid at it.
pub proof fn lemma_accepted_micro_body_ordered(
    header: BlockHeader,
    body: MicroBody,
    context: BodyContext,
    verify_txns: bool,
)
    requires
        body_verdict(header, Some(BlockBody::Micro(body)), context, verify_txns) is Ok,
    ensures
        forall|i: int|
            0 < i < body.fork_proofs@.len() ==> #[trigger] spec_cmp_fork_proofs(
                body.fork_proofs@[i - 1],
                body.fork_proofs@[i],
            ) < 0,
        forall|i: int|
            0 <= i < body.fork_proofs@.len() ==> #[trigger] body.fork_proofs@[i].spec_is_valid_at(
                header.block_number,
            ),
        forall|i: int|
            0 < i < body.transactions@.len() ==> #[trigger] spec_cmp_block_order(
                body.transactions@[i - 1],
                body.transactions@[i],
            ) < 0,
        forall|i: int|
            0 <= i < body.transactions@.len() ==> #[trigger] body.transactions@[i].spec_is_valid_at(
                header.block_number,
            ),
{
    lemma_fork_proofs_accepted(body.fork_proofs@, context.fork_proof_signers@, header.block_number, 0);
    lemma_transactions_accepted(
        body.transactions@,
        context.transaction_checks@,
        header.block_number,
        verify_txns,
        0,
    );
}

/// A macro body the body validator accepts carries validators exactly when its block is an
/// election block, a public key tree root exactly then too, and then the root derived from
/// its validators.
pub proof fn lemma_accepted_macro_body_election(
    header: BlockHeader,
    body: MacroBody,
    context: BodyContext,
    verify_txns: bool,
)
    requires
        body_verdict(header, Some(BlockBody::Macro(body)), context, verify_txns) is Ok,
    ensures
        body.validators is Some <==> spec_is_election_block_at(header.block_number as int),
        body.pk_tree_root is Some <==> spec_is_election_block_at(header.block_number as int),
        spec_is_election_block_at(header.block_number as int) ==> opt_view(body.pk_tree_root)
            == opt_view(context.derived_pk_tree_root),
{
}

/// The state validator's verdict is a function of the post-state and the block alone: two
/// states with the same contents give the same verdict, however often it is asked.
pub proof fn lemma_state_verdict_depends_on_state_only(
    s1: BlockchainState,
    s2: BlockchainState,
    block: Block,
)
    requires
        s1.accounts_root@ == s2.accounts_root@,
        s1.history_roots@.len() == s2.history_roots@.len(),
        forall|i: int|
            0 <= i < s1.history_roots@.len() ==> #[trigger] s1.history_roots@[i].epoch
                == s2.history_roots@[i].epoch && s1.history_roots@[i].root@
                == s2.history_roots@[i].root@,
        s1.lost_rewards@ == s2.lost_rewards@,
        s1.disabled_slots@ == s2.disabled_slots@,
        s1.next_validators@ == s2.next_validators@,
        s1.next_pk_tree_root@ == s2.next_pk_tree_root@,
    ensures
        state_verdict(s1, block) == state_verdict(s2, block),
{
    let epoch = spec_epoch_at(block.spec_header().block_number as int) as u32;
    lemma_find_history_same(s1.history_roots@, s2.history_roots@, epoch);
    lemma_find_history_in_range(s1.history_roots@, epoch);
    assert(real_body_bytes(s1, block.spec_header()) == real_body_bytes(s2, block.spec_header()));
}

proof fn lemma_find_history_same(r1: Seq<HistoryRoot>, r2: Seq<HistoryRoot>, epoch: u32)
    requires
        r1.len() == r2.len(),
        forall|i: int| 0 <= i < r1.len() ==> #[trigger] r1[i].epoch == r2[i].epoch,
    ensures
        find_history(r1, epoch) == find_history(r2, epoch),
    decreases r1.len(),
{
    if r1.len() > 0 {
        assert(r1.last().epoch == r2.last().epoch);
        lemma_find_history_same(r1.drop_last(), r2.drop_last(), epoch);
    }
}

} // verus!
