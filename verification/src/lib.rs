//! Core logic of a ledger-watching relay: an adaptive log scraper, a guarded
//! job scheduler, a fee estimator and a nonce-synchronized transaction
//! submitter, together with the state store they share.
pub mod eth_call;
pub mod events;
pub mod fees;
pub mod guard;
pub mod hexutil;
pub mod lifecycle;
pub mod nft;
pub mod rpc_types;
pub mod scraper;
pub mod signer;
pub mod state;
pub mod storage;
pub mod submitter;
