//! A minimal proof-of-work blockchain: transactions, blocks mined with
//! SHA-256 proof of work, chains checked block by block, and the decisions a
//! peer-to-peer node takes on the messages and commands it receives.

pub mod util;
pub mod transaction;
pub mod block;
pub mod proof_of_work;
pub mod blockchain;
pub mod networking;
pub mod command;
