//! A deterministic multi-asset ledger engine.
//!
//! The crate tracks balances of arbitrarily many fungible token types per
//! account, authorizes third-party spending through allowances, executes
//! atomic two-party swaps driven by off-chain-signed orders, and executes
//! best-effort batched transfers. Every state transition is verified: value
//! is conserved, balances never underflow, and failed operations leave the
//! ledger untouched.

pub mod encoding;
pub mod engine;
pub mod laws;
pub mod nonces;
pub mod pot;
pub mod signing;
pub mod store;
pub mod types;

pub use encoding::encode_account;
pub use encoding::encode_delegated_transfer;
pub use encoding::encode_offer;
pub use engine::Command;
pub use engine::Engine;
pub use engine::MAX_TRANSFERS;
pub use laws::lemma_allowance_consumed;
pub use laws::lemma_balance_le_supply;
pub use laws::lemma_conservation;
pub use laws::lemma_replay_rejected;
pub use laws::lemma_swap_atomic;
pub use pot::Module;
pub use signing::verify_dtd_signature;
pub use signing::verify_offer_signature;
pub use types::AccountId;
pub use types::Balance;
pub use types::BatchPolicy;
pub use types::DelegatedTransferDetails;
pub use types::Error;
pub use types::Event;
pub use types::Offer;
pub use types::SignedDelegatedTransferDetails;
pub use types::SignedOffer;
pub use types::TokenId;
pub use types::TokenTransferDetails;
