//! The ledger's global laws, proved from the transition relations alone.
//!
//! Conservation and the absence of negative balances are invariants:
//! conservation is a conjunct of [`Engine::wf`], which every entry point
//! requires and re-establishes, and a balance is an unsigned integer whose
//! every subtraction is guarded. The laws here state what follows across
//! calls: atomicity of a failed swap, rejection of a replayed order, and
//! exact consumption of an allowance.

use vstd::prelude::*;

use crate::engine::approve_rel;
use crate::engine::swap_rel;
use crate::engine::transfer_from_rel;
use crate::engine::Engine;
use crate::nonces::next_nonce;
use crate::store::lemma_find_le_sum;
use crate::store::sum_for_token;
use crate::types::AccountId;
use crate::types::Balance;
use crate::types::Error;
use crate::types::Event;
use crate::types::SignedOffer;
use crate::types::TokenId;

verus! {

/// Conservation: in every well-formed state — and every entry point
/// returns one — the total supply of each token equals the sum of the
/// balances its records hold, and an account without a record holds zero.
pub proof fn lemma_conservation(e: Engine, t: TokenId)
    requires
        e.wf(),
    ensures
        e.ledger.spec_supply(t) == sum_for_token(e.ledger.balances@, t),
{
}

/// A corollary of conservation: no single balance can exceed its token's
/// total supply.
pub proof fn lemma_balance_le_supply(e: Engine, t: TokenId, a: AccountId)
    requires
        e.wf(),
    ensures
        e.ledger.spec_balance(t, a) <= e.ledger.spec_supply(t),
{
    lemma_find_le_sum(e.ledger.balances@, t, a);
}

/// Atomicity of the swap: when a swap fails any of its preconditions, the
/// whole state — in particular all four balances involved — is exactly
/// the pre-call state.
pub proof fn lemma_swap_atomic(
    pre: Engine,
    post: Engine,
    taker: AccountId,
    so: SignedOffer,
    r: Result<Event, Error>,
)
    requires
        swap_rel(pre, post, taker, so, r),
        r is Err,
    ensures
        post == pre,
{
}

/// Replay rejection: a signed offer that was executed cannot be executed
/// again. The execution advanced the maker's nonce, the advanced value
/// never equals the one the offer embeds, and the second submission —
/// whoever the taker is — changes nothing and reports `IncorrectNonce`.
pub proof fn lemma_replay_rejected(
    s0: Engine,
    s1: Engine,
    s2: Engine,
    taker1: AccountId,
    taker2: AccountId,
    so: SignedOffer,
    r1: Result<Event, Error>,
    r2: Result<Event, Error>,
)
    requires
        swap_rel(s0, s1, taker1, so, r1),
        r1 is Ok,
        swap_rel(s1, s2, taker2, so, r2),
    ensures
        r2 == Err::<Event, Error>(Error::IncorrectNonce),
        s2 == s1,
{
    let n0 = s0.nonces.spec_nonce(so.signer);
    assert(s1.nonces.nonces_map()[so.signer] == next_nonce(n0) as int);
    assert(s1.nonces.spec_nonce(so.signer) as int == s1.nonces.nonces_map()[so.signer]);
    assert(next_nonce(n0) != n0);
}

/// Allowance consumption: approving `value` and then spending exactly
/// `value` through `transfer_from` leaves the allowance at zero and has
/// raised the recipient's balance by exactly `value` (stated for a
/// recipient other than the owner; a transfer to the owner returns the
/// funds to their source).
pub proof fn lemma_allowance_consumed(
    s0: Engine,
    s1: Engine,
    s2: Engine,
    owner: AccountId,
    spender: AccountId,
    to: AccountId,
    id: TokenId,
    value: Balance,
    r1: Result<Event, Error>,
    r2: Result<Event, Error>,
)
    requires
        approve_rel(s0, s1, owner, spender, id, value, r1),
        transfer_from_rel(s1, s2, spender, owner, to, id, value, r2),
        r2 is Ok,
        to != owner,
    ensures
        s2.ledger.spec_allowance(id, owner, spender) == 0,
        s2.ledger.spec_balance(id, to) == s1.ledger.spec_balance(id, to) + value,
{
    assert(s1.ledger.spec_allowance(id, owner, spender) as int == s1.ledger.allowances_map()[
        (id, owner, spender)
    ]);
    assert(s1.ledger.spec_allowance(id, owner, spender) == value);
    assert(s2.ledger.spec_allowance(id, owner, spender) as int == s2.ledger.allowances_map()[
        (id, owner, spender)
    ]);
    assert(s2.ledger.spec_balance(id, to) as int == s2.ledger.balances_map()[(id, to)]);
    assert(s1.ledger.spec_balance(id, to) as int == s1.ledger.balances_map()[(id, to)]);
    assert(s1.ledger.spec_balance(id, owner) as int == s1.ledger.balances_map()[(id, owner)]);
}

} // verus!
