//! Verified core of a quest-and-reward contract: escrowed rewards, proof
//! submissions and their review, disputes, oracle price aggregation, user
//! experience and badges, and an emergency pause.

pub mod errors;
pub mod table;
pub mod types;
pub mod u256;
pub mod storage;
pub mod validation;
pub mod escrow;
pub mod dispute;
pub mod submission;
pub mod oracle;
pub mod contract;
pub mod quest;
pub mod laws;
