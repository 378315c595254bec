//! The genesis configuration: the accounts, stakers and validators a chain starts with.

use vstd::prelude::*;
use crate::hashes::AnyHash;

verus! {

/// The configuration a genesis block is built from.
#[derive(Debug, Clone)]
pub struct GenesisConfig {
    /// Seed message.
    pub seed_message: Option<String>,
    /// VRF seed of the genesis block.
    pub vrf_seed: Option<Vec<u8>>,
    /// Hash of the parent election block of the genesis block.
    pub parent_election_hash: Option<Vec<u8>>,
    /// Hash of the parent block of the genesis block.
    pub parent_hash: Option<Vec<u8>>,
    /// Timestamp of the genesis block, in milliseconds since the Unix epoch.
    pub timestamp: Option<u64>,
    /// Validators of the genesis state.
    pub validators: Vec<GenesisValidator>,
    /// Stakers of the genesis state.
    pub stakers: Vec<GenesisStaker>,
    /// Basic accounts of the genesis state.
    pub basic_accounts: Vec<GenesisAccount>,
    /// Vesting contracts of the genesis state.
    pub vesting_accounts: Vec<GenesisVestingContract>,
    /// Hash-time-locked contracts of the genesis state.
    pub htlc_accounts: Vec<GenesisHTLC>,
}

/// A validator of the genesis state.
#[derive(Debug, Clone)]
pub struct GenesisValidator {
    pub validator_address: Vec<u8>,
    /// Ed25519 signing key.
    pub signing_key: Vec<u8>,
    /// BLS voting key, compressed.
    pub voting_key: Vec<u8>,
    pub reward_address: Vec<u8>,
}

/// A staker of the genesis state.
#[derive(Debug, Clone)]
pub struct GenesisStaker {
    pub staker_address: Vec<u8>,
    /// Stake in Lunas.
    pub balance: u64,
    /// Address of the validator the stake is delegated to.
    pub delegation: Vec<u8>,
}

/// A basic account of the genesis state.
#[derive(Debug, Clone)]
pub struct GenesisAccount {
    pub address: Vec<u8>,
    /// Balance in Lunas.
    pub balance: u64,
}

/// A vesting contract of the genesis state.
#[derive(Debug, Clone)]
pub struct GenesisVestingContract {
    /// Address of the contract.
    pub address: Vec<u8>,
    /// Who owns the contract.
    pub owner: Vec<u8>,
    pub balance: u64,
    pub start_time: u64,
    pub time_step: u64,
    pub step_amount: u64,
    pub total_amount: u64,
}

/// A hash-time-locked contract of the genesis state.
#[derive(Debug, Clone)]
pub struct GenesisHTLC {
    /// Address of the contract.
    pub address: Vec<u8>,
    /// Who funded the contract.
    pub sender: Vec<u8>,
    /// Who may claim the funds with the pre-image.
    pub recipient: Vec<u8>,
    pub balance: u64,
    pub hash_root: AnyHash,
    pub hash_count: u8,
    pub timeout: u64,
    pub total_amount: u64,
}

} // verus!
