//! A single-node token ledger: a hash-linked chain of blocks sealed by a
//! proof-of-work search, with a time-based unlock schedule for a reserved
//! part of the supply.

pub mod block;
pub mod contract;
pub mod ledger;
pub mod outside;
pub mod text;

pub use block::{calculate_hash, check_difficulty, seal, Block, LedgerError, Transaction, DIFFICULTY};
pub use contract::{execute_contract, ContractError, ContractParams, SampleContract, SmartContract};
pub use ledger::{Blockchain, MINING_REWARD, SECONDS_PER_YEAR, TOTAL_SUPPLY, UNITS_PER_TOKEN};
