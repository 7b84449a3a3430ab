//! Query and mining-coordination logic of an Ethereum node's JSON-RPC surface,
//! together with the content cache of its dapp server.

pub mod auto_args;
pub mod cache;
pub mod encoding;
pub mod eth;
pub mod filter;
pub mod mining;
pub mod selector;
pub mod solc;
pub mod transaction;
pub mod types;
pub mod uint;
