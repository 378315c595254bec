use nimiq_core::block::{
    Block, BlockBody, BlockError, BlockHeader, BlockType, ChainInfo, ForkProof, MacroBlock,
    MacroBody, MicroBlock, MicroBody, MicroJustification, PushError,
};
use nimiq_core::chain::{BlockchainState, Blockchain, BodyContext, HistoryRoot};
use nimiq_core::policy::{TIMESTAMP_MAX_DRIFT, VERSION};
use nimiq_core::transaction::{AccountType, Transaction, TransactionError};
use nimiq_hash::Hasher;

fn blake2b(data: &[u8]) -> Vec<u8> {
    nimiq_hash::Blake2bHasher::default().digest(data).0.to_vec()
}

fn parent(block_number: u32, ty: BlockType, view_number: u32) -> ChainInfo {
    ChainInfo {
        hash: vec![0xaa; 32],
        ty,
        block_number,
        view_number,
        timestamp: 999_000,
        seed: vec![0; 96],
    }
}

fn chain_with(p: ChainInfo) -> Blockchain {
    Blockchain { chain: vec![p], election_head_hash: vec![0xee; 32], now: 1_000_000 }
}

fn header(block_number: u32, ty: BlockType) -> BlockHeader {
    BlockHeader {
        ty,
        version: VERSION,
        block_number,
        view_number: 0,
        timestamp: 1_000_000,
        parent_hash: vec![0xaa; 32],
        parent_election_hash: if ty == BlockType::Macro { Some(vec![0xee; 32]) } else { None },
        seed: vec![0; 96],
        state_root: vec![1; 32],
        body_root: vec![2; 32],
        history_root: vec![3; 32],
        transactions_root: vec![4; 32],
    }
}

#[test]
fn header_accepted() {
    let bc = chain_with(parent(10, BlockType::Micro, 0));
    assert_eq!(bc.verify_block_header(&header(11, BlockType::Micro), &[0; 32], false), Ok(()));
    let bc = chain_with(parent(31, BlockType::Micro, 0));
    assert_eq!(bc.verify_block_header(&header(32, BlockType::Macro), &[0; 32], false), Ok(()));
}

#[test]
fn header_from_the_future() {
    let bc = chain_with(parent(10, BlockType::Micro, 0));
    let mut h = header(11, BlockType::Micro);
    h.timestamp = 1_000_000 + TIMESTAMP_MAX_DRIFT + 1;
    assert_eq!(
        bc.verify_block_header(&h, &[0; 32], false),
        Err(PushError::InvalidBlock(BlockError::FromTheFuture))
    );
    h.timestamp = 1_000_000 + TIMESTAMP_MAX_DRIFT;
    assert_eq!(bc.verify_block_header(&h, &[0; 32], false), Ok(()));
}

#[test]
fn header_orphan() {
    let bc = chain_with(parent(10, BlockType::Micro, 0));
    let mut h = header(11, BlockType::Micro);
    h.parent_hash = vec![0xbb; 32];
    assert_eq!(bc.verify_block_header(&h, &[0; 32], false), Err(PushError::Orphan));
}

#[test]
fn header_successor_rules() {
    let bc = chain_with(parent(10, BlockType::Micro, 0));
    assert_eq!(
        bc.verify_block_header(&header(12, BlockType::Micro), &[0; 32], false),
        Err(PushError::InvalidSuccessor)
    );
    assert_eq!(
        bc.verify_block_header(&header(11, BlockType::Macro), &[0; 32], false),
        Err(PushError::InvalidSuccessor)
    );
    let mut h = header(11, BlockType::Micro);
    h.timestamp = 998_999;
    assert_eq!(bc.verify_block_header(&h, &[0; 32], false), Err(PushError::InvalidSuccessor));
    let mut h = header(11, BlockType::Micro);
    h.version = VERSION + 1;
    assert_eq!(
        bc.verify_block_header(&h, &[0; 32], false),
        Err(PushError::InvalidBlock(BlockError::UnsupportedVersion))
    );
    let bc = chain_with(parent(31, BlockType::Micro, 0));
    let mut h = header(32, BlockType::Macro);
    h.parent_election_hash = Some(vec![0x01; 32]);
    assert_eq!(bc.verify_block_header(&h, &[0; 32], false), Err(PushError::InvalidSuccessor));
}

#[test]
fn header_invalid_seed_when_checked() {
    let bc = chain_with(parent(10, BlockType::Micro, 0));
    assert_eq!(
        bc.verify_block_header(&header(11, BlockType::Micro), &[0; 32], true),
        Err(PushError::InvalidBlock(BlockError::InvalidSeed))
    );
}

fn micro_block(view_number: u32, justification: Option<MicroJustification>) -> Block {
    let mut h = header(11, BlockType::Micro);
    h.view_number = view_number;
    Block::Micro(MicroBlock { header: h, hash: vec![0x77; 32], justification, body: None })
}

#[test]
fn justification_signature_and_view_numbers() {
    let kp = nimiq_keys::KeyPair::from(nimiq_keys::PrivateKey::from([21u8; 32]));
    let key = kp.public.as_bytes().to_vec();
    let sig = kp.sign(&[0x77; 32]).to_bytes().to_vec();
    let bc = chain_with(parent(10, BlockType::Micro, 2));
    let j = |proof: Option<bool>| Some(MicroJustification { signature: sig.clone(), view_change_proof: proof });

    assert_eq!(bc.verify_block_justification(&micro_block(2, j(None)), &key, true), Ok(()));
    assert_eq!(
        bc.verify_block_justification(&micro_block(2, None), &key, true),
        Err(PushError::InvalidBlock(BlockError::NoJustification))
    );
    let bad = Some(MicroJustification { signature: vec![0; 64], view_change_proof: None });
    assert_eq!(
        bc.verify_block_justification(&micro_block(2, bad), &key, true),
        Err(PushError::InvalidBlock(BlockError::InvalidJustification))
    );
    assert_eq!(
        bc.verify_block_justification(&micro_block(1, j(None)), &key, true),
        Err(PushError::InvalidBlock(BlockError::InvalidViewNumber))
    );
    assert_eq!(
        bc.verify_block_justification(&micro_block(2, j(Some(true))), &key, true),
        Err(PushError::InvalidBlock(BlockError::InvalidJustification))
    );
    assert_eq!(
        bc.verify_block_justification(&micro_block(3, j(None)), &key, true),
        Err(PushError::InvalidBlock(BlockError::NoViewChangeProof))
    );
    assert_eq!(
        bc.verify_block_justification(&micro_block(3, j(Some(false))), &key, true),
        Err(PushError::InvalidBlock(BlockError::InvalidViewChangeProof))
    );
    assert_eq!(bc.verify_block_justification(&micro_block(3, j(Some(true))), &key, true), Ok(()));

    // After a macro block the view number starts over.
    let bc = chain_with(parent(10, BlockType::Macro, 5));
    assert_eq!(bc.verify_block_justification(&micro_block(0, j(None)), &key, true), Ok(()));
}

#[test]
fn macro_justification() {
    let bc = chain_with(parent(31, BlockType::Micro, 0));
    let block = |valid: bool| {
        Block::Macro(MacroBlock { header: header(32, BlockType::Macro), hash: vec![1; 32], justification_valid: valid, body: None })
    };
    assert_eq!(bc.verify_block_justification(&block(true), &[], true), Ok(()));
    assert_eq!(
        bc.verify_block_justification(&block(false), &[], true),
        Err(PushError::InvalidBlock(BlockError::InvalidJustification))
    );
    assert_eq!(bc.verify_block_justification(&block(false), &[], false), Ok(()));
}

fn tx(recipient: u8, fee: u64) -> Transaction {
    Transaction {
        data: vec![],
        sender: vec![1; 20],
        sender_type: AccountType::Basic,
        recipient: vec![recipient; 20],
        recipient_type: AccountType::Basic,
        value: 100,
        fee,
        validity_start_height: 5,
        network_id: 24,
        flags: 0,
        proof: vec![],
    }
}

fn micro_body(fork_proofs: Vec<ForkProof>, transactions: Vec<Transaction>) -> MicroBody {
    MicroBody { fork_proofs, transactions }
}

/// Body validation of a micro body under a header at block 11 that commits to it.
fn check_micro(bc: &Blockchain, body: MicroBody, ctx: &BodyContext, verify_txns: bool) -> Result<(), PushError> {
    let mut h = header(11, BlockType::Micro);
    h.body_root = body.hash();
    bc.verify_block_body(&h, &Some(BlockBody::Micro(body)), ctx, verify_txns)
}

fn context(n_proofs: usize, n_txs: usize, key: Option<Vec<u8>>) -> BodyContext {
    BodyContext {
        fork_proof_signers: vec![key; n_proofs],
        transaction_checks: vec![Ok(()); n_txs],
        derived_pk_tree_root: None,
    }
}

fn fork_proof(kp: &nimiq_keys::KeyPair, tag: u8) -> ForkProof {
    let h1 = vec![tag; 32];
    let h2 = vec![tag.wrapping_add(1); 32];
    ForkProof {
        block_number: 8,
        view_number: 0,
        prev_vrf_seed: vec![0; 96],
        justification1: kp.sign(&h1).to_bytes().to_vec(),
        justification2: kp.sign(&h2).to_bytes().to_vec(),
        header1_hash: h1,
        header2_hash: h2,
    }
}

#[test]
fn micro_body_accepted_and_missing() {
    let bc = chain_with(parent(10, BlockType::Micro, 0));
    let kp = nimiq_keys::KeyPair::from(nimiq_keys::PrivateKey::from([31u8; 32]));
    let key = Some(kp.public.as_bytes().to_vec());
    let body = micro_body(vec![fork_proof(&kp, 1), fork_proof(&kp, 5)], vec![tx(2, 1), tx(3, 1)]);
    assert_eq!(check_micro(&bc, body, &context(2, 2, key.clone()), true), Ok(()));
    assert_eq!(
        bc.verify_block_body(&header(11, BlockType::Micro), &None, &context(0, 0, None), true),
        Err(PushError::InvalidBlock(BlockError::MissingBody))
    );
}

#[test]
fn duplicate_fork_proof() {
    let bc = chain_with(parent(10, BlockType::Micro, 0));
    let kp = nimiq_keys::KeyPair::from(nimiq_keys::PrivateKey::from([32u8; 32]));
    let key = Some(kp.public.as_bytes().to_vec());
    let p = fork_proof(&kp, 1);
    let body = micro_body(vec![p.clone(), p], vec![]);
    assert_eq!(
        check_micro(&bc, body, &context(2, 0, key), true),
        Err(PushError::InvalidBlock(BlockError::DuplicateForkProof))
    );
}

#[test]
fn fork_proof_order_window_and_owner() {
    let bc = chain_with(parent(10, BlockType::Micro, 0));
    let kp = nimiq_keys::KeyPair::from(nimiq_keys::PrivateKey::from([33u8; 32]));
    let key = Some(kp.public.as_bytes().to_vec());
    let body = micro_body(vec![fork_proof(&kp, 5), fork_proof(&kp, 1)], vec![]);
    assert_eq!(
        check_micro(&bc, body, &context(2, 0, key.clone()), true),
        Err(PushError::InvalidBlock(BlockError::ForkProofsNotOrdered))
    );
    let mut late = fork_proof(&kp, 1);
    late.block_number = 11;
    let body = micro_body(vec![late], vec![]);
    assert_eq!(
        check_micro(&bc, body, &context(1, 0, key.clone()), true),
        Err(PushError::InvalidBlock(BlockError::InvalidForkProof))
    );
    let body = micro_body(vec![fork_proof(&kp, 1)], vec![]);
    assert_eq!(
        check_micro(&bc, body.clone(), &context(1, 0, None), true),
        Err(PushError::InvalidBlock(BlockError::InvalidForkProof))
    );
    let other = nimiq_keys::KeyPair::from(nimiq_keys::PrivateKey::from([34u8; 32]));
    assert_eq!(
        check_micro(&bc, body, &context(1, 0, Some(other.public.as_bytes().to_vec())), true),
        Err(PushError::InvalidBlock(BlockError::InvalidForkProof))
    );
}

#[test]
fn out_of_order_transactions() {
    let bc = chain_with(parent(10, BlockType::Micro, 0));
    let t1 = tx(2, 1);
    let t2 = tx(3, 1);
    assert_eq!(t1.cmp_block_order(&t2), -1);
    let body = micro_body(vec![], vec![t2, t1]);
    assert_eq!(
        check_micro(&bc, body, &context(0, 2, None), true),
        Err(PushError::InvalidBlock(BlockError::TransactionsNotOrdered))
    );
}

#[test]
fn transaction_rules() {
    let bc = chain_with(parent(10, BlockType::Micro, 0));
    // Higher fee sorts first.
    assert_eq!(tx(2, 5).cmp_block_order(&tx(2, 1)), -1);
    let body = micro_body(vec![], vec![tx(2, 1), tx(2, 1)]);
    assert_eq!(
        check_micro(&bc, body, &context(0, 2, None), true),
        Err(PushError::InvalidBlock(BlockError::DuplicateTransaction))
    );
    let mut expired = tx(2, 1);
    expired.validity_start_height = 12;
    let body = micro_body(vec![], vec![expired]);
    assert_eq!(
        check_micro(&bc, body, &context(0, 1, None), true),
        Err(PushError::InvalidBlock(BlockError::ExpiredTransaction))
    );
    let body = micro_body(vec![], vec![tx(2, 1)]);
    let mut ctx = context(0, 1, None);
    ctx.transaction_checks = vec![Err(TransactionError::InvalidProof)];
    assert_eq!(
        check_micro(&bc, body.clone(), &ctx, true),
        Err(PushError::InvalidBlock(BlockError::InvalidTransaction(TransactionError::InvalidProof)))
    );
    assert_eq!(check_micro(&bc, body, &ctx, false), Ok(()));
}

#[test]
fn micro_body_size_and_hash() {
    let bc = chain_with(parent(10, BlockType::Micro, 0));
    let mut a = tx(2, 1);
    a.data = vec![0; 60_000];
    let mut b = tx(3, 1);
    b.data = vec![0; 60_000];
    let body = micro_body(vec![], vec![a, b]);
    assert!(body.serialize().len() > 100_000);
    assert_eq!(
        check_micro(&bc, body, &context(0, 2, None), true),
        Err(PushError::InvalidBlock(BlockError::SizeExceeded))
    );
    let body = micro_body(vec![], vec![tx(2, 1)]);
    assert_eq!(body.hash(), blake2b(&body.serialize()));
    let h = header(11, BlockType::Micro);
    assert_eq!(
        bc.verify_block_body(&h, &Some(BlockBody::Micro(body)), &context(0, 1, None), true),
        Err(PushError::InvalidBlock(BlockError::BodyHashMismatch))
    );
}

#[test]
fn micro_body_serialization_layout() {
    let body = micro_body(vec![], vec![]);
    assert_eq!(body.serialize(), vec![0, 0, 0, 0, 0, 0, 0, 0]);
    let t = tx(2, 1);
    let body = micro_body(vec![], vec![t.clone()]);
    let mut expected = vec![0, 0, 0, 0, 0, 0, 0, 1];
    expected.extend_from_slice(&t.serialize_content());
    expected.extend_from_slice(&[0, 0, 0, 0]);
    assert_eq!(body.serialize(), expected);
}

fn macro_body(election: bool) -> MacroBody {
    MacroBody {
        validators: if election { Some(vec![5; 10]) } else { None },
        pk_tree_root: if election { Some(vec![6; 32]) } else { None },
        lost_reward_set: vec![1, 4],
        disabled_set: vec![4],
    }
}

#[test]
fn macro_body_serialization_and_hash() {
    let body = macro_body(false);
    let bytes = body.serialize();
    assert_eq!(bytes, vec![0, 0, 0, 0, 0, 2, 0, 0, 0, 1, 0, 0, 0, 4, 0, 0, 0, 1, 0, 0, 0, 4]);
    assert_eq!(body.hash(), blake2b(&bytes));
}

#[test]
fn macro_body_election_invariants() {
    let bc = chain_with(parent(127, BlockType::Micro, 0));
    let mut h = header(128, BlockType::Macro);
    let body = macro_body(true);
    h.body_root = body.hash();
    let ctx = BodyContext { fork_proof_signers: vec![], transaction_checks: vec![], derived_pk_tree_root: Some(vec![6; 32]) };
    assert_eq!(bc.verify_block_body(&h, &Some(BlockBody::Macro(body)), &ctx, true), Ok(()));

    let body = macro_body(false);
    h.body_root = body.hash();
    assert_eq!(
        bc.verify_block_body(&h, &Some(BlockBody::Macro(body)), &ctx, true),
        Err(PushError::InvalidBlock(BlockError::InvalidValidators))
    );

    let mut body = macro_body(true);
    body.pk_tree_root = None;
    h.body_root = body.hash();
    assert_eq!(
        bc.verify_block_body(&h, &Some(BlockBody::Macro(body)), &ctx, true),
        Err(PushError::InvalidBlock(BlockError::InvalidPkTreeRoot))
    );

    let mut body = macro_body(true);
    body.pk_tree_root = Some(vec![7; 32]);
    h.body_root = body.hash();
    assert_eq!(
        bc.verify_block_body(&h, &Some(BlockBody::Macro(body)), &ctx, true),
        Err(PushError::InvalidBlock(BlockError::InvalidPkTreeRoot))
    );

    let body = macro_body(true);
    h.body_root = vec![0; 32];
    assert_eq!(
        bc.verify_block_body(&h, &Some(BlockBody::Macro(body)), &ctx, true),
        Err(PushError::InvalidBlock(BlockError::BodyHashMismatch))
    );

    let mut h = header(64, BlockType::Macro);
    let body = macro_body(false);
    h.body_root = body.hash();
    assert_eq!(bc.verify_block_body(&h, &Some(BlockBody::Macro(body)), &ctx, true), Ok(()));
}

fn state() -> BlockchainState {
    BlockchainState {
        accounts_root: vec![1; 32],
        history_roots: vec![HistoryRoot { epoch: 1, root: vec![3; 32] }],
        lost_rewards: vec![1, 4],
        disabled_slots: vec![4],
        next_validators: vec![5; 10],
        next_pk_tree_root: vec![6; 32],
    }
}

#[test]
fn state_roots() {
    let bc = chain_with(parent(10, BlockType::Micro, 0));
    let block = Block::Micro(MicroBlock { header: header(11, BlockType::Micro), hash: vec![], justification: None, body: None });
    assert!(bc.verify_block_state(&state(), &block).unwrap().is_none());
    let mut s = state();
    s.accounts_root = vec![0; 32];
    assert_eq!(
        bc.verify_block_state(&s, &block).unwrap_err(),
        PushError::InvalidBlock(BlockError::AccountsHashMismatch)
    );
    let mut s = state();
    s.history_roots = vec![HistoryRoot { epoch: 2, root: vec![3; 32] }];
    assert_eq!(
        bc.verify_block_state(&s, &block).unwrap_err(),
        PushError::InvalidBlock(BlockError::InvalidHistoryRoot)
    );
    let mut s = state();
    s.history_roots[0].root = vec![0; 32];
    assert_eq!(
        bc.verify_block_state(&s, &block).unwrap_err(),
        PushError::InvalidBlock(BlockError::InvalidHistoryRoot)
    );
}

#[test]
fn state_macro_body_checked_or_rebuilt() {
    let bc = chain_with(parent(127, BlockType::Micro, 0));
    let mut h = header(128, BlockType::Macro);
    let body = macro_body(true);
    h.body_root = body.hash();
    let with_body = Block::Macro(MacroBlock { header: h.clone(), hash: vec![], justification_valid: true, body: Some(body) });
    assert!(bc.verify_block_state(&state(), &with_body).unwrap().is_none());
    // Verdicts do not change when asked again.
    assert!(bc.verify_block_state(&state(), &with_body).unwrap().is_none());

    let mut s = state();
    s.disabled_slots = vec![];
    assert_eq!(
        bc.verify_block_state(&s, &with_body).unwrap_err(),
        PushError::InvalidBlock(BlockError::InvalidValidators)
    );

    let without_body = Block::Macro(MacroBlock { header: h.clone(), hash: vec![], justification_valid: true, body: None });
    let rebuilt = bc.verify_block_state(&state(), &without_body).unwrap().unwrap();
    assert_eq!(rebuilt.validators, Some(vec![5; 10]));
    assert_eq!(rebuilt.pk_tree_root, Some(vec![6; 32]));
    assert_eq!(rebuilt.lost_reward_set, vec![1, 4]);
    assert_eq!(rebuilt.disabled_set, vec![4]);

    let mut s = state();
    s.lost_rewards = vec![];
    assert_eq!(
        bc.verify_block_state(&s, &without_body).unwrap_err(),
        PushError::InvalidBlock(BlockError::BodyHashMismatch)
    );
}

#[test]
fn header_seed_check_survives_any_parent_seed() {
    for fill in [0x00u8, 0x02, 0x7f, 0xff] {
        let mut p = parent(10, BlockType::Micro, 0);
        p.seed = vec![fill; 96];
        let bc = chain_with(p);
        let kp = nimiq_keys::KeyPair::from(nimiq_keys::PrivateKey::from([41u8; 32]));
        assert_eq!(
            bc.verify_block_header(&header(11, BlockType::Micro), kp.public.as_bytes(), true),
            Err(PushError::InvalidBlock(BlockError::InvalidSeed))
        );
    }
}
