//! Per-peer block synchronisation.
//!
//! `MacroBlockSync` first fetches only macro blocks together with the transactions of their
//! epochs, then ordinary blocks, then stops. It decides; the peer session carries out the
//! returned actions (sending, timers, pushing blocks into the chain) and reports back events.

use std::collections::VecDeque;
use vstd::prelude::*;
use crate::block::{Block, PushError};
use crate::bytes::bytes_eq;
use crate::crypto::{blake2b, blake2b_of, merkle_proof_root, merkle_proof_root_of, merkle_root, merkle_root_of};
use crate::policy::{epoch_at, spec_epoch_at};
use crate::transaction::Transaction;

verus! {

/// How long (in milliseconds) to wait for the next epoch transactions message.
pub const REQUEST_TIMEOUT_MS: u64 = 10_000;

/// The phases of a macro block sync.
#[derive(Debug, Clone, Copy, PartialEq, Eq, Structural)]
pub enum MacroBlockSyncPhase {
    /// Requesting macro blocks only, with the transactions of their epochs.
    MacroBlocks,
    /// Requesting all blocks.
    MicroBlocks,
    /// Requesting nothing.
    Finished,
}

/// Why a peer connection is closed.
#[derive(Debug, Clone, Copy, PartialEq, Eq, Structural)]
pub enum CloseType {
    UnexpectedEpochTransactions,
    InvalidEpochTransactions,
    GetEpochTransactionsTimeout,
}

/// The outcome of pushing a block into the chain.
#[derive(Debug, Clone, Copy, PartialEq, Eq, Structural)]
pub enum PushResult {
    Known,
    Extended,
    Rebranched,
    Forked,
    Ignored,
}

/// What subscribers of a sync are told.
#[derive(Debug)]
pub enum SyncEvent {
    /// A block with this hash was pushed into the chain with this outcome.
    BlockProcessed(Vec<u8>, Result<PushResult, PushError>),
}

/// The transactions of an epoch, or a part of them, with an encoded Blake2b Merkle multi-proof
/// of them against the epoch's transactions root.
#[derive(Debug, Clone)]
pub struct EpochTransactionsMessage {
    pub epoch: u32,
    pub transactions: Vec<Transaction>,
    /// The proof, encoded.
    pub proof: Vec<u8>,
    /// Whether these are the last transactions of the epoch.
    pub last: bool,
}

/// The root the message's proof yields over its transactions, if any.
pub open spec fn message_proof_root(m: EpochTransactionsMessage) -> Option<Seq<u8>> {
    merkle_proof_root_of(m.proof@, tx_leaves(m.transactions@))
}

/// A request for blocks following the locators.
#[derive(Debug, Clone)]
pub struct GetBlocksRequest {
    pub locators: Vec<Vec<u8>>,
    pub max_results: u16,
    /// Whether only macro blocks are asked for.
    pub macro_only: bool,
}

/// What the peer session must carry out, in order.
#[derive(Debug, Clone)]
pub enum SyncAction {
    /// Arm the timer of this epoch for `REQUEST_TIMEOUT_MS`.
    SetTimer(u32),
    /// Re-arm the timer of this epoch for `REQUEST_TIMEOUT_MS`.
    ResetTimer(u32),
    /// Disarm the timer of this epoch.
    ClearTimer(u32),
    /// Ask the peer for the transactions of this epoch.
    SendGetEpochTransactions(u32),
    /// Close the connection to the peer, disarming all timers.
    Close(CloseType),
    /// Push the block into the chain and notify subscribers of the outcome.
    PushBlock(Block),
    /// Push the macro block with its epoch's transactions into the chain and notify subscribers.
    PushIsolatedMacroBlock(Block, Vec<Transaction>),
}

/// The phase after `initiate_sync`.
pub open spec fn phase_after_initiate(p: MacroBlockSyncPhase) -> MacroBlockSyncPhase {
    if p == MacroBlockSyncPhase::Finished {
        MacroBlockSyncPhase::MacroBlocks
    } else {
        p
    }
}

/// The phase after the peer announced that it has nothing new.
pub open spec fn phase_after_no_new_objects(p: MacroBlockSyncPhase) -> MacroBlockSyncPhase {
    match p {
        MacroBlockSyncPhase::MacroBlocks => MacroBlockSyncPhase::MicroBlocks,
        _ => MacroBlockSyncPhase::Finished,
    }
}

/// The Merkle leaves of a list of transactions: the Blake2b hashes of their contents.
pub open spec fn tx_leaves(txs: Seq<Transaction>) -> Seq<Seq<u8>> {
    txs.map_values(|t: Transaction| blake2b_of(t.spec_content()))
}

/// Every transaction of the list is well formed.
pub open spec fn all_wf(txs: Seq<Transaction>) -> bool {
    forall|i: int| 0 <= i < txs.len() ==> #[trigger] txs[i].wf()
}

/// The epoch of a cached block.
pub open spec fn block_epoch(b: Block) -> u32 {
    spec_epoch_at(b.spec_header().block_number as int) as u32
}

/// The front cached block is a macro block of `epoch`.
pub open spec fn front_matches(v: SyncView, epoch: u32) -> bool {
    &&& v.block_cache.len() > 0
    &&& v.block_cache[0] matches Block::Macro(_)
    &&& block_epoch(v.block_cache[0]) == epoch
}

/// The transactions root of the front cached block.
pub open spec fn expected_root(v: SyncView) -> Seq<u8> {
    v.block_cache[0].spec_header().transactions_root@
}

/// `n` is `o` with the connection closed and no timer armed.
pub open spec fn closed_from(o: SyncView, n: SyncView) -> bool {
    n == (SyncView { closed: true, armed_timer: None, ..o })
}

/// How the sync state `o` becomes `n`, returning actions `r`, on receiving the transactions
/// `txs` of `epoch` whose proof yields `root`.
pub open spec fn epoch_transactions_outcome(
    o: SyncView,
    n: SyncView,
    r: Seq<SyncAction>,
    epoch: u32,
    root: Option<Seq<u8>>,
    txs: Seq<Transaction>,
    last: bool,
) -> bool {
    if o.closed {
        n == o && r.len() == 0
    } else if !front_matches(o, epoch) {
        closed_from(o, n) && r == seq![SyncAction::Close(CloseType::UnexpectedEpochTransactions)]
    } else if root != Some(expected_root(o)) {
        closed_from(o, n) && r == seq![SyncAction::Close(CloseType::InvalidEpochTransactions)]
    } else if !last {
        &&& n == (SyncView { transactions_cache: o.transactions_cache + txs, ..o })
        &&& r == seq![SyncAction::ResetTimer(epoch)]
    } else {
        let all = o.transactions_cache + txs;
        if merkle_root_of(tx_leaves(all)) != expected_root(o) {
            &&& n == (SyncView {
                transactions_cache: Seq::empty(),
                closed: true,
                armed_timer: None,
                ..o
            })
            &&& r == seq![
                SyncAction::ClearTimer(epoch),
                SyncAction::Close(CloseType::InvalidEpochTransactions),
            ]
        } else {
            &&& n.block_cache == o.block_cache.drop_first()
            &&& n.transactions_cache == Seq::<Transaction>::empty()
            &&& n.phase == o.phase
            &&& !n.closed
            &&& r.len() >= 2
            &&& r[0] == SyncAction::ClearTimer(epoch)
            &&& r[1] matches SyncAction::PushIsolatedMacroBlock(b, t) && b == o.block_cache[0] && t@
                == all
            &&& if n.block_cache.len() > 0 {
                let e = block_epoch(n.block_cache[0]);
                &&& n.processing_epoch
                &&& n.armed_timer == Some(e)
                &&& r.len() == 4
                &&& r[2] == SyncAction::SetTimer(e)
                &&& r[3] == SyncAction::SendGetEpochTransactions(e)
            } else {
                &&& !n.processing_epoch
                &&& n.armed_timer is None
                &&& r.len() == 2
            }
        }
    }
}

fn copy_vec(v: &Vec<u8>) -> (r: Vec<u8>)
    ensures
        r@ == v@,
{
    let r = crate::bytes::copy_range(v.as_slice(), 0, v.len());
    assert(v@.subrange(0, v@.len() as int) =~= v@);
    r
}

/// The state of a macro block sync.
pub struct SyncView {
    pub block_cache: Seq<Block>,
    pub transactions_cache: Seq<Transaction>,
    pub phase: MacroBlockSyncPhase,
    pub processing_epoch: bool,
    /// The epoch whose timer is armed, if any.
    pub armed_timer: Option<u32>,
    pub closed: bool,
}

impl SyncView {
    /// While the session is open, an epoch is in flight exactly when blocks are cached, and then
    /// the timer of the front block's epoch is armed; once closed, no timer is armed. Cached
    /// transactions are well formed.
    pub open spec fn wf(self) -> bool {
        &&& self.closed ==> self.armed_timer is None
        &&& !self.closed ==> {
            &&& self.processing_epoch <==> self.block_cache.len() > 0
            &&& self.processing_epoch <==> self.armed_timer is Some
            &&& self.processing_epoch ==> self.armed_timer == Some(block_epoch(self.block_cache[0]))
        }
        &&& all_wf(self.transactions_cache)
    }
}

/// Macro block sync with one peer.
pub struct MacroBlockSync {
    block_cache: VecDeque<Block>,
    transactions_cache: Vec<Transaction>,
    phase: MacroBlockSyncPhase,
    processing_epoch: bool,
    armed_timer: Option<u32>,
    closed: bool,
}

impl View for MacroBlockSync {
    type V = SyncView;

    closed spec fn view(&self) -> SyncView {
        SyncView {
            block_cache: self.block_cache@,
            transactions_cache: self.transactions_cache@,
            phase: self.phase,
            processing_epoch: self.processing_epoch,
            armed_timer: self.armed_timer,
            closed: self.closed,
        }
    }
}

fn leaf_hashes(txs: &Vec<Transaction>) -> (r: Vec<Vec<u8>>)
    requires
        forall|i: int| 0 <= i < txs@.len() ==> #[trigger] txs@[i].wf(),
    ensures
        r@.map_values(|l: Vec<u8>| l@) == tx_leaves(txs@),
        forall|i: int| 0 <= i < r@.len() ==> #[trigger] r@[i]@.len() == 32,
{
    let mut r: Vec<Vec<u8>> = Vec::new();
    let mut i: usize = 0;
    while i < txs.len()
        invariant
            i <= txs@.len(),
            forall|j: int| 0 <= j < txs@.len() ==> #[trigger] txs@[j].wf(),
            r@.len() == i,
            forall|j: int| 0 <= j < i ==> #[trigger] r@[j]@ == blake2b_of(txs@[j].spec_content()),
            forall|j: int| 0 <= j < i ==> #[trigger] r@[j]@.len() == 32,
        decreases txs@.len() - i,
    {
        let content = txs[i].serialize_content();
        r.push(blake2b(content.as_slice()));
        i = i + 1;
    }
    assert(r@.map_values(|l: Vec<u8>| l@) =~= tx_leaves(txs@));
    r
}

impl MacroBlockSync {
    /// A sync that has not been initiated: phase `Finished`, nothing cached, no timer.
    pub fn new() -> (r: MacroBlockSync)
        ensures
            r@.wf(),
            r@.block_cache.len() == 0,
            r@.transactions_cache.len() == 0,
            r@.phase == MacroBlockSyncPhase::Finished,
            !r@.processing_epoch,
            r@.armed_timer is None,
            !r@.closed,
    {
        MacroBlockSync {
            block_cache: VecDeque::new(),
            transactions_cache: Vec::new(),
            phase: MacroBlockSyncPhase::Finished,
            processing_epoch: false,
            armed_timer: None,
            closed: false,
        }
    }

    pub fn phase(&self) -> (r: MacroBlockSyncPhase)
        ensures
            r == self@.phase,
    {
        self.phase
    }

    pub fn processing_epoch(&self) -> (r: bool)
        ensures
            r == self@.processing_epoch,
    {
        self.processing_epoch
    }

    pub fn armed_timer(&self) -> (r: Option<u32>)
        ensures
            r == self@.armed_timer,
    {
        self.armed_timer
    }

    pub fn is_closed(&self) -> (r: bool)
        ensures
            r == self@.closed,
    {
        self.closed
    }

    pub fn block_cache_len(&self) -> (r: usize)
        ensures
            r == self@.block_cache.len(),
    {
        self.block_cache.len()
    }

    pub fn transactions_cache_len(&self) -> (r: usize)
        ensures
            r == self@.transactions_cache.len(),
    {
        self.transactions_cache.len()
    }

    /// Starts syncing: `Finished` becomes `MacroBlocks`; other phases stay.
    pub fn initiate_sync(&mut self)
        requires
            old(self)@.wf(),
        ensures
            final(self)@ == (SyncView { phase: phase_after_initiate(old(self)@.phase), ..old(self)@ }),
            final(self)@.wf(),
    {
        if self.phase == MacroBlockSyncPhase::Finished {
            self.phase = MacroBlockSyncPhase::MacroBlocks;
        }
    }

    /// The peer has nothing new: `MacroBlocks` becomes `MicroBlocks`, which becomes `Finished`.
    pub fn on_no_new_objects_announced(&mut self)
        requires
            old(self)@.wf(),
        ensures
            final(self)@ == (SyncView {
                phase: phase_after_no_new_objects(old(self)@.phase),
                ..old(self)@
            }),
            final(self)@.wf(),
    {
        match self.phase {
            MacroBlockSyncPhase::MacroBlocks => {
                self.phase = MacroBlockSyncPhase::MicroBlocks;
            },
            MacroBlockSyncPhase::MicroBlocks => {
                self.phase = MacroBlockSyncPhase::Finished;
            },
            MacroBlockSyncPhase::Finished => {},
        }
    }

    /// The block request for these locators: macro blocks only while in `MacroBlocks`.
    pub fn request_blocks(&self, locators: Vec<Vec<u8>>, max_results: u16) -> (r: GetBlocksRequest)
        ensures
            r.locators@ == locators@,
            r.max_results == max_results,
            r.macro_only == (self@.phase == MacroBlockSyncPhase::MacroBlocks),
    {
        GetBlocksRequest {
            locators,
            max_results,
            macro_only: self.phase == MacroBlockSyncPhase::MacroBlocks,
        }
    }

    /// Puts the front block's epoch in flight when none is and blocks are cached.
    fn start_processing(&mut self, actions: &mut Vec<SyncAction>)
        requires
            !old(self)@.closed,
            old(self)@.armed_timer is None <==> !old(self)@.processing_epoch,
            old(self)@.processing_epoch ==> old(self)@.block_cache.len() > 0
                && old(self)@.armed_timer == Some(block_epoch(old(self)@.block_cache[0])),
            all_wf(old(self)@.transactions_cache),
        ensures
            final(self)@.wf(),
            final(self)@.block_cache == old(self)@.block_cache,
            final(self)@.transactions_cache == old(self)@.transactions_cache,
            final(self)@.phase == old(self)@.phase,
            !final(self)@.closed,
            if !old(self)@.processing_epoch && old(self)@.block_cache.len() > 0 {
                let e = block_epoch(old(self)@.block_cache[0]);
                &&& final(self)@.processing_epoch
                &&& final(self)@.armed_timer == Some(e)
                &&& final(actions)@ == old(actions)@ + seq![SyncAction::SetTimer(e), SyncAction::SendGetEpochTransactions(e)]
            } else {
                &&& final(self)@.processing_epoch == old(self)@.processing_epoch
                &&& final(self)@.armed_timer == old(self)@.armed_timer
                &&& final(actions)@ == old(actions)@
            },
    {
        if !self.processing_epoch && self.block_cache.len() > 0 {
            self.processing_epoch = true;
            let epoch = epoch_at(self.block_cache[0].header().block_number);
            assert(epoch == block_epoch(self.block_cache@[0]));
            self.armed_timer = Some(epoch);
            actions.push(SyncAction::SetTimer(epoch));
            actions.push(SyncAction::SendGetEpochTransactions(epoch));
        }
    }

    /// A block from the peer. While in `MacroBlocks` it is cached and its epoch's transactions
    /// are requested when no epoch is in flight; otherwise it is pushed into the chain.
    pub fn on_block(&mut self, block: Block) -> (r: Vec<SyncAction>)
        requires
            old(self)@.wf(),
        ensures
            final(self)@.wf(),
            old(self)@.closed ==> final(self)@ == old(self)@ && r@.len() == 0,
            !old(self)@.closed && old(self)@.phase != MacroBlockSyncPhase::MacroBlocks ==> {
                &&& final(self)@ == old(self)@
                &&& r@.len() == 1
                &&& r@[0] matches SyncAction::PushBlock(b) && b == block
            },
            !old(self)@.closed && old(self)@.phase == MacroBlockSyncPhase::MacroBlocks ==> {
                &&& final(self)@.block_cache == old(self)@.block_cache.push(block)
                &&& final(self)@.transactions_cache == old(self)@.transactions_cache
                &&& final(self)@.phase == old(self)@.phase
                &&& !final(self)@.closed
                &&& if old(self)@.processing_epoch {
                    r@.len() == 0
                } else {
                    r@ == seq![SyncAction::SetTimer(block_epoch(block)), SyncAction::SendGetEpochTransactions(block_epoch(block))]
                }
            },
    {
        let mut actions: Vec<SyncAction> = Vec::new();
        if self.closed {
            return actions;
        }
        match self.phase {
            MacroBlockSyncPhase::MacroBlocks => {
                self.block_cache.push_back(block);
                self.start_processing(&mut actions);
            },
            _ => {
                actions.push(SyncAction::PushBlock(block));
            },
        }
        actions
    }

    /// The timer of `epoch` fired: the peer took too long, so the connection is closed.
    pub fn on_timeout(&mut self, epoch: u32) -> (r: Vec<SyncAction>)
        requires
            old(self)@.wf(),
        ensures
            final(self)@.wf(),
            if !old(self)@.closed && old(self)@.armed_timer == Some(epoch) {
                &&& final(self)@ == (SyncView { closed: true, armed_timer: None, ..old(self)@ })
                &&& r@ == seq![SyncAction::Close(CloseType::GetEpochTransactionsTimeout)]
            } else {
                final(self)@ == old(self)@ && r@.len() == 0
            },
    {
        let mut actions: Vec<SyncAction> = Vec::new();
        if !self.closed && self.armed_timer == Some(epoch) {
            self.close(CloseType::GetEpochTransactionsTimeout, &mut actions);
        }
        actions
    }

    /// The connection was closed: all timers are disarmed.
    pub fn on_close(&mut self)
        requires
            old(self)@.wf(),
        ensures
            final(self)@ == (SyncView { closed: true, armed_timer: None, ..old(self)@ }),
            final(self)@.wf(),
    {
        self.closed = true;
        self.armed_timer = None;
    }

    fn close(&mut self, reason: CloseType, actions: &mut Vec<SyncAction>)
        requires
            all_wf(old(self)@.transactions_cache),
        ensures
            final(self)@ == (SyncView { closed: true, armed_timer: None, ..old(self)@ }),
            final(self)@.wf(),
            final(actions)@ == old(actions)@.push(SyncAction::Close(reason)),
    {
        self.closed = true;
        self.armed_timer = None;
        actions.push(SyncAction::Close(reason));
    }

    /// Hands the front block and its epoch's transactions to the chain, then puts the next
    /// epoch in flight.
    fn complete_epoch(&mut self, block: Block, transactions: Vec<Transaction>, actions: &mut Vec<SyncAction>)
        requires
            !old(self)@.closed,
            all_wf(old(self)@.transactions_cache),
        ensures
            final(self)@.wf(),
            final(self)@.block_cache == old(self)@.block_cache,
            final(self)@.transactions_cache == old(self)@.transactions_cache,
            final(self)@.phase == old(self)@.phase,
            !final(self)@.closed,
            final(actions)@.len() >= old(actions)@.len() + 1,
            final(actions)@.subrange(0, old(actions)@.len() as int) == old(actions)@,
            final(actions)@[old(actions)@.len() as int] matches SyncAction::PushIsolatedMacroBlock(b, t)
                && b == block && t@ == transactions@,
            if old(self)@.block_cache.len() > 0 {
                let e = block_epoch(old(self)@.block_cache[0]);
                &&& final(self)@.processing_epoch
                &&& final(self)@.armed_timer == Some(e)
                &&& final(actions)@.len() == old(actions)@.len() + 3
                &&& final(actions)@[old(actions)@.len() as int + 1] == SyncAction::SetTimer(e)
                &&& final(actions)@[old(actions)@.len() as int + 2] == SyncAction::SendGetEpochTransactions(e)
            } else {
                &&& !final(self)@.processing_epoch
                &&& final(self)@.armed_timer is None
                &&& final(actions)@.len() == old(actions)@.len() + 1
            },
    {
        self.processing_epoch = false;
        self.armed_timer = None;
        actions.push(SyncAction::PushIsolatedMacroBlock(block, transactions));
        let ghost pushed = actions@;
        self.start_processing(actions);
        assert(actions@.subrange(0, pushed.len() as int) =~= pushed);
        assert(actions@.subrange(0, old(actions)@.len() as int) =~= old(actions)@);
    }

    /// Transactions of an epoch from the peer, with a Merkle proof of them.
    ///
    /// The front cached block must be a macro block of the message's epoch, and the root the
    /// proof yields over the transactions its transactions root; otherwise the connection is
    /// closed. The transactions are appended to the cache. Unless the message is the last, the
    /// epoch timer is re-armed. With the last one, the timer is disarmed and the cache emptied;
    /// the Merkle root of all the epoch's transactions must be the transactions root, else the
    /// connection is closed; then the front block is handed to the chain with those
    /// transactions and the next epoch is put in flight.
    pub fn on_epoch_transactions(&mut self, message: EpochTransactionsMessage) -> (r: Vec<SyncAction>)
        requires
            old(self)@.wf(),
            all_wf(message.transactions@),
        ensures
            final(self)@.wf(),
            epoch_transactions_outcome(
                old(self)@,
                final(self)@,
                r@,
                message.epoch,
                message_proof_root(message),
                message.transactions@,
                message.last,
            ),
    {
        let EpochTransactionsMessage { epoch, transactions, proof, last } = message;
        let mut actions: Vec<SyncAction> = Vec::new();
        if self.closed {
            return actions;
        }
        if self.block_cache.len() == 0 {
            self.close(CloseType::UnexpectedEpochTransactions, &mut actions);
            return actions;
        }
        let (front_ok, front_root) = match &self.block_cache[0] {
            Block::Macro(macro_block) => (
                epoch_at(macro_block.header.block_number) == epoch,
                copy_vec(&macro_block.header.transactions_root),
            ),
            Block::Micro(_) => (false, Vec::new()),
        };
        if !front_ok {
            self.close(CloseType::UnexpectedEpochTransactions, &mut actions);
            return actions;
        }
        let proof_root = merkle_proof_root(proof.as_slice(), &leaf_hashes(&transactions));
        let root_ok = match &proof_root {
            Some(root) => bytes_eq(root.as_slice(), front_root.as_slice()),
            None => false,
        };
        if !root_ok {
            self.close(CloseType::InvalidEpochTransactions, &mut actions);
            return actions;
        }
        let ghost incoming = transactions@;
        let mut transactions = transactions;
        self.transactions_cache.append(&mut transactions);
        proof {
            assert(all_wf(self@.transactions_cache)) by {
                let o = old(self)@.transactions_cache;
                assert forall|i: int| 0 <= i < self@.transactions_cache.len() implies #[trigger]
                    self@.transactions_cache[i].wf() by {
                    if i >= o.len() {
                        assert(self@.transactions_cache[i] == incoming[i - o.len()]);
                    }
                }
            }
        }
        if !last {
            actions.push(SyncAction::ResetTimer(epoch));
            return actions;
        }
        actions.push(SyncAction::ClearTimer(epoch));
        self.armed_timer = None;
        let mut all: Vec<Transaction> = Vec::new();
        std::mem::swap(&mut all, &mut self.transactions_cache);
        let leaves = leaf_hashes(&all);
        let full_root = merkle_root(&leaves);
        assert(all@ == old(self)@.transactions_cache + incoming);
        assert(front_root@ == expected_root(old(self)@));
        if !bytes_eq(full_root.as_slice(), front_root.as_slice()) {
            self.close(CloseType::InvalidEpochTransactions, &mut actions);
            assert(actions@ =~= seq![
                SyncAction::ClearTimer(epoch),
                SyncAction::Close(CloseType::InvalidEpochTransactions),
            ]);
            assert(self@.transactions_cache =~= Seq::<Transaction>::empty());
            return actions;
        }
        let block = match self.block_cache.pop_front() {
            Some(b) => b,
            None => {
                return actions;
            },
        };
        let ghost all_view = all@;
        let ghost before = actions@;
        assert(self@.block_cache =~= old(self)@.block_cache.drop_first());
        self.complete_epoch(block, all, &mut actions);
        assert(actions@.subrange(0, 1)[0] == before[0]);
        assert(actions@[0] == SyncAction::ClearTimer(epoch));
        assert(actions@[1] matches SyncAction::PushIsolatedMacroBlock(b, t) && b == old(self)@.block_cache[0]
            && t@ == all_view);
        actions
    }
}


/// Starting from `Finished`, initiating a sync and then hearing twice that the peer has
/// nothing new passes through `MacroBlocks` and `MicroBlocks` back to `Finished`.
pub proof fn lemma_sync_phase_cycle()
    ensures
        phase_after_initiate(MacroBlockSyncPhase::Finished) == MacroBlockSyncPhase::MacroBlocks,
        phase_after_no_new_objects(MacroBlockSyncPhase::MacroBlocks) == MacroBlockSyncPhase::MicroBlocks,
        phase_after_no_new_objects(MacroBlockSyncPhase::MicroBlocks) == MacroBlockSyncPhase::Finished,
        phase_after_no_new_objects(
            phase_after_no_new_objects(phase_after_initiate(MacroBlockSyncPhase::Finished)),
        ) == MacroBlockSyncPhase::Finished,
        phase_after_no_new_objects(MacroBlockSyncPhase::Finished) == MacroBlockSyncPhase::Finished,
{
}

/// In every state the sync keeps, an epoch is being processed exactly when a timer keyed by an
/// epoch is armed.
pub proof fn lemma_processing_iff_timer_armed(v: SyncView)
    requires
        v.wf(),
    ensures
        v.processing_epoch && !v.closed <==> v.armed_timer is Some,
        v.armed_timer matches Some(e) ==> v.block_cache.len() > 0 && e == block_epoch(v.block_cache[0]),
{
}

/// When the last transactions of the epoch in flight check out, the front block leaves the
/// cache and the transaction cache is emptied before the next epoch is requested: the block is
/// handed to the chain first, and the request for the next epoch comes last.
pub proof fn lemma_last_transactions_complete_epoch(
    o: SyncView,
    n: SyncView,
    r: Seq<SyncAction>,
    epoch: u32,
    root: Option<Seq<u8>>,
    txs: Seq<Transaction>,
)
    requires
        epoch_transactions_outcome(o, n, r, epoch, root, txs, true),
        !o.closed,
        front_matches(o, epoch),
        root == Some(expected_root(o)),
        merkle_root_of(tx_leaves(o.transactions_cache + txs)) == expected_root(o),
    ensures
        n.block_cache == o.block_cache.drop_first(),
        n.transactions_cache.len() == 0,
        r[1] matches SyncAction::PushIsolatedMacroBlock(b, t) && b == o.block_cache[0],
        forall|i: int| 0 <= i < r.len() && (r[i] is SendGetEpochTransactions) ==> i > 1,
{
}

/// An epoch mismatch, a proof root mismatch or a full root mismatch closes the connection
/// with its own reason and leaves no timer armed.
pub proof fn lemma_epoch_transactions_failures_close(
    o: SyncView,
    n: SyncView,
    r: Seq<SyncAction>,
    epoch: u32,
    root: Option<Seq<u8>>,
    txs: Seq<Transaction>,
    last: bool,
)
    requires
        epoch_transactions_outcome(o, n, r, epoch, root, txs, last),
        !o.closed,
    ensures
        !front_matches(o, epoch) ==> n.closed && n.armed_timer is None && r.last()
            == SyncAction::Close(CloseType::UnexpectedEpochTransactions),
        front_matches(o, epoch) && root != Some(expected_root(o)) ==> n.closed && n.armed_timer is None
            && r.last() == SyncAction::Close(CloseType::InvalidEpochTransactions),
        front_matches(o, epoch) && root == Some(expected_root(o)) && last && merkle_root_of(
            tx_leaves(o.transactions_cache + txs),
        ) != expected_root(o) ==> n.closed && n.armed_timer is None && r.last() == SyncAction::Close(
            CloseType::InvalidEpochTransactions,
        ),
{
}


/// Sync for full nodes: every block is pushed into the chain as it arrives.
pub struct FullSync {}

impl FullSync {
    pub fn new() -> (r: FullSync) {
        FullSync {  }
    }

    /// The block request for these locators: all blocks, forward.
    pub fn request_blocks(&self, locators: Vec<Vec<u8>>, max_results: u16) -> (r: GetBlocksRequest)
        ensures
            r.locators@ == locators@,
            r.max_results == max_results,
            !r.macro_only,
    {
        GetBlocksRequest { locators, max_results, macro_only: false }
    }

    /// A block from the peer is pushed into the chain.
    pub fn on_block(&self, block: Block) -> (r: Vec<SyncAction>)
        ensures
            r@.len() == 1,
            r@[0] matches SyncAction::PushBlock(b) && b == block,
    {
        let mut actions: Vec<SyncAction> = Vec::new();
        actions.push(SyncAction::PushBlock(block));
        actions
    }

    /// Epoch transactions are never asked for, so receiving them closes the connection.
    pub fn on_epoch_transactions(&self) -> (r: Vec<SyncAction>)
        ensures
            r@ == seq![SyncAction::Close(CloseType::UnexpectedEpochTransactions)],
    {
        let mut actions: Vec<SyncAction> = Vec::new();
        actions.push(SyncAction::Close(CloseType::UnexpectedEpochTransactions));
        assert(actions@ =~= seq![SyncAction::Close(CloseType::UnexpectedEpochTransactions)]);
        actions
    }
}

} // verus!
