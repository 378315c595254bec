use nimiq_core::block::{Block, BlockHeader, BlockType, MacroBlock, MicroBlock};
use nimiq_core::sync::{
    CloseType, EpochTransactionsMessage, FullSync, MacroBlockSync, MacroBlockSyncPhase, SyncAction,
};
use nimiq_serde::Serialize;
use nimiq_core::transaction::{AccountType, Transaction};
use nimiq_hash::Hasher;

fn tx(recipient: u8) -> Transaction {
    Transaction {
        data: vec![recipient],
        sender: vec![1; 20],
        sender_type: AccountType::Basic,
        recipient: vec![recipient; 20],
        recipient_type: AccountType::Basic,
        value: 100,
        fee: 1,
        validity_start_height: 1,
        network_id: 24,
        flags: 0,
        proof: vec![],
    }
}

fn leaves(txs: &[Transaction]) -> Vec<nimiq_hash::Blake2bHash> {
    txs.iter()
        .map(|t| nimiq_hash::Blake2bHasher::default().digest(&t.serialize_content()))
        .collect()
}

/// Encoded proof of `part` within `all`.
fn proof_of(all: &[Transaction], part: &[Transaction]) -> Vec<u8> {
    nimiq_utils::merkle::Blake2bMerkleProof::new(&leaves(all), &leaves(part)).serialize_to_vec()
}

fn msg(epoch: u32, transactions: Vec<Transaction>, proof: Vec<u8>, last: bool) -> EpochTransactionsMessage {
    EpochTransactionsMessage { epoch, transactions, proof, last }
}

fn merkle_root(txs: &[Transaction]) -> Vec<u8> {
    let leaves = leaves(txs);
    nimiq_utils::merkle::compute_root_from_hashes::<nimiq_hash::Blake2bHash>(&leaves)
        .into_owned()
        .0
        .to_vec()
}

fn header(block_number: u32, ty: BlockType, transactions_root: Vec<u8>) -> BlockHeader {
    BlockHeader {
        ty,
        version: 1,
        block_number,
        view_number: 0,
        timestamp: 0,
        parent_hash: vec![0; 32],
        parent_election_hash: None,
        seed: vec![],
        state_root: vec![],
        body_root: vec![],
        history_root: vec![],
        transactions_root,
    }
}

fn macro_block(block_number: u32, transactions_root: Vec<u8>) -> Block {
    Block::Macro(MacroBlock {
        header: header(block_number, BlockType::Macro, transactions_root),
        hash: vec![block_number as u8; 32],
        justification_valid: true,
        body: None,
    })
}

fn block_number(b: &Block) -> u32 {
    match b {
        Block::Macro(m) => m.header.block_number,
        Block::Micro(m) => m.header.block_number,
    }
}

#[test]
fn phases_cycle_back_to_finished() {
    let mut s = MacroBlockSync::new();
    assert_eq!(s.phase(), MacroBlockSyncPhase::Finished);
    s.initiate_sync();
    assert_eq!(s.phase(), MacroBlockSyncPhase::MacroBlocks);
    assert!(s.request_blocks(vec![vec![1; 32]], 100).macro_only);
    s.on_no_new_objects_announced();
    assert_eq!(s.phase(), MacroBlockSyncPhase::MicroBlocks);
    assert!(!s.request_blocks(vec![], 100).macro_only);
    s.on_no_new_objects_announced();
    assert_eq!(s.phase(), MacroBlockSyncPhase::Finished);
    s.on_no_new_objects_announced();
    assert_eq!(s.phase(), MacroBlockSyncPhase::Finished);
}

#[test]
fn macro_sync_epoch_completion() {
    let (ta, tb, tc) = (tx(2), tx(3), tx(4));
    let root = merkle_root(&[ta.clone(), tb.clone(), tc.clone()]);
    let mut s = MacroBlockSync::new();
    s.initiate_sync();

    let actions = s.on_block(macro_block(7 * 128, root.clone()));
    assert_eq!(actions.len(), 2);
    assert!(matches!(actions[0], SyncAction::SetTimer(7)));
    assert!(matches!(actions[1], SyncAction::SendGetEpochTransactions(7)));
    assert!(s.processing_epoch());
    assert_eq!(s.armed_timer(), Some(7));

    let all = [ta.clone(), tb.clone(), tc.clone()];
    let actions = s.on_epoch_transactions(msg(7, vec![ta.clone(), tb.clone()], proof_of(&all, &[ta, tb]), false));
    assert_eq!(actions.len(), 1);
    assert!(matches!(actions[0], SyncAction::ResetTimer(7)));
    assert_eq!(s.transactions_cache_len(), 2);

    let actions = s.on_epoch_transactions(msg(7, vec![tc.clone()], proof_of(&all, &[tc]), true));
    assert_eq!(actions.len(), 2);
    assert!(matches!(actions[0], SyncAction::ClearTimer(7)));
    match &actions[1] {
        SyncAction::PushIsolatedMacroBlock(b, txs) => {
            assert_eq!(block_number(b), 7 * 128);
            let recipients: Vec<u8> = txs.iter().map(|t| t.recipient[0]).collect();
            assert_eq!(recipients, vec![2, 3, 4]);
        }
        other => panic!("unexpected action {:?}", other),
    }
    assert_eq!(s.transactions_cache_len(), 0);
    assert_eq!(s.block_cache_len(), 0);
    assert!(!s.processing_epoch());
    assert_eq!(s.armed_timer(), None);
    assert!(!s.is_closed());
}

#[test]
fn completion_requests_next_epoch_after_pushing() {
    let t = tx(9);
    let root = merkle_root(&[t.clone()]);
    let mut s = MacroBlockSync::new();
    s.initiate_sync();
    s.on_block(macro_block(128, root.clone()));
    let actions = s.on_block(macro_block(256, vec![0; 32]));
    assert!(actions.is_empty());
    let actions = s.on_epoch_transactions(msg(1, vec![t.clone()], proof_of(&[t.clone()], &[t]), true));
    assert_eq!(actions.len(), 4);
    assert!(matches!(actions[0], SyncAction::ClearTimer(1)));
    assert!(matches!(actions[1], SyncAction::PushIsolatedMacroBlock(_, _)));
    assert!(matches!(actions[2], SyncAction::SetTimer(2)));
    assert!(matches!(actions[3], SyncAction::SendGetEpochTransactions(2)));
    assert_eq!(s.block_cache_len(), 1);
    assert_eq!(s.armed_timer(), Some(2));
}

#[test]
fn unexpected_epoch_closes() {
    let mut s = MacroBlockSync::new();
    s.initiate_sync();
    s.on_block(macro_block(7 * 128, vec![1; 32]));
    let actions = s.on_epoch_transactions(msg(8, vec![], vec![], false));
    assert_eq!(actions.len(), 1);
    assert!(matches!(actions[0], SyncAction::Close(CloseType::UnexpectedEpochTransactions)));
    assert!(s.is_closed());
    assert_eq!(s.armed_timer(), None);

    let mut s = MacroBlockSync::new();
    let actions = s.on_epoch_transactions(msg(1, vec![], vec![], true));
    assert!(matches!(actions[0], SyncAction::Close(CloseType::UnexpectedEpochTransactions)));
}

#[test]
fn micro_front_block_is_unexpected() {
    let mut s = MacroBlockSync::new();
    s.initiate_sync();
    s.on_block(Block::Micro(MicroBlock {
        header: header(5, BlockType::Micro, vec![]),
        hash: vec![],
        justification: None,
        body: None,
    }));
    let actions = s.on_epoch_transactions(msg(1, vec![], vec![], true));
    assert!(matches!(actions[0], SyncAction::Close(CloseType::UnexpectedEpochTransactions)));
}

#[test]
fn proof_root_mismatch_closes() {
    let mut s = MacroBlockSync::new();
    s.initiate_sync();
    s.on_block(macro_block(128, vec![1; 32]));
    let actions = s.on_epoch_transactions(msg(1, vec![tx(2)], proof_of(&[tx(2)], &[tx(2)]), false));
    assert_eq!(actions.len(), 1);
    assert!(matches!(actions[0], SyncAction::Close(CloseType::InvalidEpochTransactions)));
    assert_eq!(s.armed_timer(), None);

    let mut s = MacroBlockSync::new();
    s.initiate_sync();
    s.on_block(macro_block(128, vec![1; 32]));
    let actions = s.on_epoch_transactions(msg(1, vec![tx(2)], vec![0xff, 0xff], false));
    assert!(matches!(actions[0], SyncAction::Close(CloseType::InvalidEpochTransactions)));
}

#[test]
fn full_root_mismatch_closes() {
    let mut s = MacroBlockSync::new();
    s.initiate_sync();
    // The proof covers the first transaction of two, so its root is the two-leaf root, while
    // only one transaction arrives.
    let both = [tx(2), tx(3)];
    s.on_block(macro_block(128, merkle_root(&both)));
    let actions = s.on_epoch_transactions(msg(1, vec![tx(2)], proof_of(&both, &[tx(2)]), true));
    assert_eq!(actions.len(), 2);
    assert!(matches!(actions[0], SyncAction::ClearTimer(1)));
    assert!(matches!(actions[1], SyncAction::Close(CloseType::InvalidEpochTransactions)));
    assert!(s.is_closed());
    assert_eq!(s.armed_timer(), None);
    assert_eq!(s.transactions_cache_len(), 0);
}

#[test]
fn timer_expiry_closes() {
    let mut s = MacroBlockSync::new();
    s.initiate_sync();
    s.on_block(macro_block(128, vec![1; 32]));
    assert!(s.on_timeout(2).is_empty());
    let actions = s.on_timeout(1);
    assert_eq!(actions.len(), 1);
    assert!(matches!(actions[0], SyncAction::Close(CloseType::GetEpochTransactionsTimeout)));
    assert!(s.is_closed());
    assert_eq!(s.armed_timer(), None);
    assert!(s.on_block(macro_block(256, vec![])).is_empty());
}

#[test]
fn close_disarms_timers() {
    let mut s = MacroBlockSync::new();
    s.initiate_sync();
    s.on_block(macro_block(128, vec![1; 32]));
    s.on_close();
    assert!(s.is_closed());
    assert_eq!(s.armed_timer(), None);
}

#[test]
fn blocks_outside_macro_phase_are_pushed() {
    let mut s = MacroBlockSync::new();
    let actions = s.on_block(macro_block(128, vec![]));
    assert_eq!(actions.len(), 1);
    assert!(matches!(actions[0], SyncAction::PushBlock(_)));
    assert_eq!(s.block_cache_len(), 0);
}

#[test]
fn full_sync_behaviour() {
    let f = FullSync::new();
    let r = f.request_blocks(vec![vec![3; 32]], 50);
    assert!(!r.macro_only);
    assert_eq!(r.max_results, 50);
    assert_eq!(r.locators, vec![vec![3; 32]]);
    let actions = f.on_block(macro_block(128, vec![]));
    assert!(matches!(actions[0], SyncAction::PushBlock(_)));
    let actions = f.on_epoch_transactions();
    assert!(matches!(actions[0], SyncAction::Close(CloseType::UnexpectedEpochTransactions)));
}
