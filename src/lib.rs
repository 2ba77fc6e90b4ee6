//! Transaction authentication and admission control for a minimal ledger node.
pub mod hexcode;
pub mod address;
pub mod eip191;
pub mod signature;
pub mod signer;
pub mod transaction;
pub mod account;
pub mod mempool;
pub mod selector;
pub mod wallet;
pub mod cli;
