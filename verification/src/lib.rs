//! Admin key resolution and account classification for a Stellar-style ledger.
//!
//! The crate decides who effectively controls an address: a smart contract, a
//! single-key hot wallet, an N-of-M multisignature account, a wallet driven by
//! an external signing process (MPC), or an account with no active control.
//! The verified core covers the storage-key variant generator, the storage
//! resolver, the address decoder, the signer-weight classifier and the
//! transaction-frequency analyzer. Network transports, command-line handling
//! and wire-format conversions live outside the library and hand it plain
//! values.

pub mod account_type;
pub mod config;
pub mod error;
pub mod horizon_helper;
pub mod network_config;
pub mod runner;
pub mod storage_helper;
