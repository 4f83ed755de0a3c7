//! Core data types of the ledger: identifiers, amounts, orders and errors.

use vstd::prelude::*;

verus! {

/// Identifier of a fungible token type. Allocated monotonically from zero,
/// one per call of `create_token`.
pub type TokenId = u128;

/// An amount of one token type held by one account. Unsigned: a balance can
/// never be negative, and every subtraction is guarded by a sufficiency
/// check rather than saturating.
pub type Balance = u128;

/// Identifier of a ledger participant: the 32 bytes of the account's public
/// key, stored as two little-endian words (`lo` holds bytes 0..16, `hi`
/// bytes 16..32).
#[derive(Clone, Copy, PartialEq, Eq, Structural, Debug)]
pub struct AccountId {
    pub lo: u128,
    pub hi: u128,
}

/// An unsigned statement "I will give `offer_amount` of `offer_token` for
/// `requested_amount` of `requested_token`", replay-protected by `nonce`.
#[derive(Clone, Copy, PartialEq, Eq, Structural, Debug)]
pub struct Offer {
    pub offer_token: TokenId,
    pub offer_amount: Balance,
    pub requested_token: TokenId,
    pub requested_amount: Balance,
    pub nonce: u128,
}

/// An [`Offer`] bound to a claimed signer by a signature over the offer's
/// canonical byte encoding.
#[derive(Clone, Debug)]
pub struct SignedOffer {
    pub offer: Offer,
    pub signature: Vec<u8>,
    pub signer: AccountId,
}

/// One item of a batched transfer: send `amount` to `to`.
#[derive(Clone, Copy, PartialEq, Eq, Structural, Debug)]
pub struct TokenTransferDetails {
    pub amount: Balance,
    pub to: AccountId,
}

/// A transfer signed by the paying sender but submitted by a third party,
/// replay-protected by `nonce`.
#[derive(Clone, Copy, PartialEq, Eq, Structural, Debug)]
pub struct DelegatedTransferDetails {
    pub amount: Balance,
    pub to: AccountId,
    pub nonce: u128,
}

/// A [`DelegatedTransferDetails`] bound to its signer by a signature over
/// the canonical byte encoding of the transfer body.
#[derive(Clone, Debug)]
pub struct SignedDelegatedTransferDetails {
    pub transfer: DelegatedTransferDetails,
    pub signature: Vec<u8>,
    pub signer: AccountId,
}

/// Why an operation was rejected. Every failure aborts the operation before
/// any mutation, so a caller that sees one of these saw no state change
/// (the one documented exception: a fail-closed batch keeps the items that
/// already succeeded).
#[derive(Clone, Copy, PartialEq, Eq, Structural, Debug)]
pub enum Error {
    /// Allocating one more token id would overflow the counter's range.
    TokenLimitExceeded,
    /// The paying account holds less than the requested amount.
    InsufficientBalance,
    /// The spender's allowance is smaller than the requested amount.
    AllowanceUnderflow,
    /// The signature does not match the claimed signer and payload.
    InvalidSignature,
    /// The nonce in the signed payload is not the signer's current nonce.
    IncorrectNonce,
    /// A batch holds more items than the configured bound.
    LimitExceeded,
    /// A plain transfer of amount zero (rejected by policy at that entry
    /// point; swap legs, batch items and delegated transfers allow zero).
    ZeroAmount,
}

/// How the batch executor treats an item the sender cannot cover.
#[derive(Clone, Copy, PartialEq, Eq, Structural, Debug)]
pub enum BatchPolicy {
    /// Stop at the first insufficient item and propagate its failure;
    /// items already executed keep their effect.
    FailClosed,
    /// Skip an insufficient item, record its failure, and carry on; the
    /// batch itself never aborts.
    SkipAndReport,
}

/// What a successful operation did, as recorded for an external event log.
#[derive(Clone, PartialEq, Eq, Debug)]
pub enum Event {
    /// Token creation `(token, creator, initial_supply)`.
    NewToken(TokenId, AccountId, Balance),
    /// Plain or third-party transfer `(token, from, to, amount)`.
    Transfer(TokenId, AccountId, AccountId, Balance),
    /// Allowance overwrite `(token, owner, spender, amount)`.
    Approval(TokenId, AccountId, AccountId, Balance),
    /// Executed swap `(offer_token, offer_amount, requested_token,
    /// requested_amount, maker, taker)`.
    Swap(TokenId, Balance, TokenId, Balance, AccountId, AccountId),
    /// Batch audit trail `(sender, [(to, amount, success), ...])`, mirroring
    /// the input order.
    MultiTransfer(AccountId, Vec<(AccountId, Balance, bool)>),
    /// Delegated transfer `(delegator, signer, to, amount)`.
    DelegatedTransfer(AccountId, AccountId, AccountId, Balance),
}

} // verus!
