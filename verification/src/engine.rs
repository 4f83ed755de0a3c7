//! The state-transition engine: one entry point per operation, each
//! validating all of its preconditions before mutating anything.
//!
//! Every entry point's behaviour is captured by a transition relation (a
//! spec function over the pre-state, the post-state, the arguments and the
//! result), stated case by case: which error comes on which inputs, and
//! exactly which balances, allowances and nonces a success writes. The
//! proof functions in [`crate::laws`] derive the ledger's global laws from
//! these relations alone.

use vstd::prelude::*;

use crate::nonces::next_nonce;
use crate::nonces::Nonces;
use crate::signing::delegated_transfer_signature_valid;
use crate::signing::offer_signature_valid;
use crate::signing::verify_dtd_signature;
use crate::signing::verify_offer_signature;
use crate::store::transfer_upd;
use crate::store::Ledger;
use crate::types::AccountId;
use crate::types::Balance;
use crate::types::BatchPolicy;
use crate::types::Error;
use crate::types::Event;
use crate::types::SignedDelegatedTransferDetails;
use crate::types::SignedOffer;
use crate::types::TokenId;
use crate::types::TokenTransferDetails;

verus! {

/// The configured bound of the batch executor: a batch must hold fewer
/// items than this.
pub const MAX_TRANSFERS: usize = 100;

/// The whole engine state: the ledger store and the replay counters.
#[derive(Clone, Debug)]
pub struct Engine {
    pub ledger: Ledger,
    pub nonces: Nonces,
}

/// One submitted operation, ready for [`Engine::apply`]. `origin` is the
/// authenticated submitter of the enclosing transaction.
#[derive(Clone, Debug)]
pub enum Command {
    CreateToken { origin: AccountId, total_supply: Balance },
    Transfer { origin: AccountId, to: AccountId, id: TokenId, amount: Balance },
    Approve { origin: AccountId, spender: AccountId, id: TokenId, value: Balance },
    TransferFrom { origin: AccountId, from: AccountId, to: AccountId, id: TokenId, value: Balance },
    Swap { origin: AccountId, signed_offer: SignedOffer },
    MultiTransfer {
        origin: AccountId,
        id: TokenId,
        details: Vec<TokenTransferDetails>,
        policy: BatchPolicy,
    },
    DelegatedTransfer { origin: AccountId, id: TokenId, signed: SignedDelegatedTransferDetails },
}

/// Everything but the balances is unchanged between `pre` and `post`.
pub open spec fn balances_only(pre: Engine, post: Engine) -> bool {
    &&& post.ledger.supplies@ == pre.ledger.supplies@
    &&& post.ledger.token_count == pre.ledger.token_count
    &&& post.ledger.allowances@ == pre.ledger.allowances@
    &&& post.nonces.entries@ == pre.nonces.entries@
}

/// Transition relation of `create_token`: a fresh id is allocated and its
/// whole supply minted to the creator, unless the id counter is exhausted.
pub open spec fn create_token_rel(
    pre: Engine,
    post: Engine,
    creator: AccountId,
    total_supply: Balance,
    r: Result<Event, Error>,
) -> bool {
    if pre.ledger.token_count == u128::MAX {
        r == Err::<Event, Error>(Error::TokenLimitExceeded) && post == pre
    } else {
        &&& r == Ok::<Event, Error>(Event::NewToken(pre.ledger.token_count, creator, total_supply))
        &&& post.ledger.token_count == pre.ledger.token_count + 1
        &&& post.ledger.spec_supply(pre.ledger.token_count) == total_supply
        &&& forall|t: TokenId|
            t != pre.ledger.token_count ==> post.ledger.spec_supply(t)
                == #[trigger] pre.ledger.spec_supply(t)
        &&& post.ledger.balances_map() == pre.ledger.balances_map().insert(
            (pre.ledger.token_count, creator),
            total_supply as int,
        )
        &&& post.ledger.allowances@ == pre.ledger.allowances@
        &&& post.nonces.entries@ == pre.nonces.entries@
    }
}

/// Transition relation of `transfer`: by policy this entry point rejects a
/// zero amount; otherwise the amount moves if and only if the sender
/// covers it, and a failure writes nothing.
pub open spec fn transfer_rel(
    pre: Engine,
    post: Engine,
    sender: AccountId,
    to: AccountId,
    id: TokenId,
    amount: Balance,
    r: Result<Event, Error>,
) -> bool {
    if amount == 0 {
        r == Err::<Event, Error>(Error::ZeroAmount) && post == pre
    } else if pre.ledger.spec_balance(id, sender) < amount {
        r == Err::<Event, Error>(Error::InsufficientBalance) && post == pre
    } else {
        &&& r == Ok::<Event, Error>(Event::Transfer(id, sender, to, amount))
        &&& post.ledger.balances_map() == transfer_upd(
            pre.ledger.balances_map(),
            id,
            sender,
            to,
            amount as int,
        )
        &&& balances_only(pre, post)
    }
}

/// Transition relation of `approve`: the allowance is overwritten
/// unconditionally (zero is a valid revocation), and nothing else moves.
pub open spec fn approve_rel(
    pre: Engine,
    post: Engine,
    owner: AccountId,
    spender: AccountId,
    id: TokenId,
    value: Balance,
    r: Result<Event, Error>,
) -> bool {
    &&& r == Ok::<Event, Error>(Event::Approval(id, owner, spender, value))
    &&& post.ledger.allowances_map() == pre.ledger.allowances_map().insert(
        (id, owner, spender),
        value as int,
    )
    &&& post.ledger.balances@ == pre.ledger.balances@
    &&& post.ledger.supplies@ == pre.ledger.supplies@
    &&& post.ledger.token_count == pre.ledger.token_count
    &&& post.nonces.entries@ == pre.nonces.entries@
}

/// Transition relation of `transfer_from`: the spender moves the owner's
/// funds within the approved allowance; both checks precede any write,
/// and a success consumes exactly the amount moved.
pub open spec fn transfer_from_rel(
    pre: Engine,
    post: Engine,
    sender: AccountId,
    from: AccountId,
    to: AccountId,
    id: TokenId,
    value: Balance,
    r: Result<Event, Error>,
) -> bool {
    if pre.ledger.spec_allowance(id, from, sender) < value {
        r == Err::<Event, Error>(Error::AllowanceUnderflow) && post == pre
    } else if pre.ledger.spec_balance(id, from) < value {
        r == Err::<Event, Error>(Error::InsufficientBalance) && post == pre
    } else {
        &&& r == Ok::<Event, Error>(Event::Transfer(id, from, to, value))
        &&& post.ledger.balances_map() == transfer_upd(
            pre.ledger.balances_map(),
            id,
            from,
            to,
            value as int,
        )
        &&& post.ledger.allowances_map() == pre.ledger.allowances_map().insert(
            (id, from, sender),
            pre.ledger.spec_allowance(id, from, sender) - value,
        )
        &&& post.ledger.supplies@ == pre.ledger.supplies@
        &&& post.ledger.token_count == pre.ledger.token_count
        &&& post.nonces.entries@ == pre.nonces.entries@
    }
}

/// Transition relation of `swap`: signature, then the maker's nonce, then
/// the two sufficiency checks, all before any write; a success performs
/// the four balance updates as one unit (zero-amount legs are permitted)
/// and only then advances the maker's nonce by one.
pub open spec fn swap_rel(
    pre: Engine,
    post: Engine,
    sender: AccountId,
    so: SignedOffer,
    r: Result<Event, Error>,
) -> bool {
    let o = so.offer;
    if !offer_signature_valid(so) {
        r == Err::<Event, Error>(Error::InvalidSignature) && post == pre
    } else if pre.nonces.spec_nonce(so.signer) != o.nonce {
        r == Err::<Event, Error>(Error::IncorrectNonce) && post == pre
    } else if pre.ledger.spec_balance(o.offer_token, so.signer) < o.offer_amount {
        r == Err::<Event, Error>(Error::InsufficientBalance) && post == pre
    } else if pre.ledger.spec_balance(o.requested_token, sender) < o.requested_amount {
        r == Err::<Event, Error>(Error::InsufficientBalance) && post == pre
    } else {
        &&& r == Ok::<Event, Error>(
            Event::Swap(
                o.offer_token,
                o.offer_amount,
                o.requested_token,
                o.requested_amount,
                so.signer,
                sender,
            ),
        )
        &&& post.ledger.balances_map() == transfer_upd(
            transfer_upd(
                pre.ledger.balances_map(),
                o.offer_token,
                so.signer,
                sender,
                o.offer_amount as int,
            ),
            o.requested_token,
            sender,
            so.signer,
            o.requested_amount as int,
        )
        &&& post.nonces.nonces_map() == pre.nonces.nonces_map().insert(
            so.signer,
            next_nonce(pre.nonces.spec_nonce(so.signer)) as int,
        )
        &&& post.ledger.supplies@ == pre.ledger.supplies@
        &&& post.ledger.token_count == pre.ledger.token_count
        &&& post.ledger.allowances@ == pre.ledger.allowances@
    }
}

/// Transition relation of `delegated_transfer`: the same signed-order and
/// replay pattern as `swap`, applied to a plain transfer out of the
/// signer's balance of the token the relayer submits it for. A zero
/// amount is permitted.
pub open spec fn delegated_transfer_rel(
    pre: Engine,
    post: Engine,
    delegator: AccountId,
    id: TokenId,
    sd: SignedDelegatedTransferDetails,
    r: Result<Event, Error>,
) -> bool {
    let body = sd.transfer;
    if !delegated_transfer_signature_valid(sd) {
        r == Err::<Event, Error>(Error::InvalidSignature) && post == pre
    } else if pre.nonces.spec_nonce(sd.signer) != body.nonce {
        r == Err::<Event, Error>(Error::IncorrectNonce) && post == pre
    } else if pre.ledger.spec_balance(id, sd.signer) < body.amount {
        r == Err::<Event, Error>(Error::InsufficientBalance) && post == pre
    } else {
        &&& r == Ok::<Event, Error>(
            Event::DelegatedTransfer(delegator, sd.signer, body.to, body.amount),
        )
        &&& post.ledger.balances_map() == transfer_upd(
            pre.ledger.balances_map(),
            id,
            sd.signer,
            body.to,
            body.amount as int,
        )
        &&& post.nonces.nonces_map() == pre.nonces.nonces_map().insert(
            sd.signer,
            next_nonce(pre.nonces.spec_nonce(sd.signer)) as int,
        )
        &&& post.ledger.supplies@ == pre.ledger.supplies@
        &&& post.ledger.token_count == pre.ledger.token_count
        &&& post.ledger.allowances@ == pre.ledger.allowances@
    }
}

/// The balances after a skip-and-report batch: each item in order, applied
/// when the sender's balance at that step covers it, skipped otherwise.
pub open spec fn skip_batch_map(
    m: Map<(TokenId, AccountId), int>,
    id: TokenId,
    sender: AccountId,
    items: Seq<TokenTransferDetails>,
) -> Map<(TokenId, AccountId), int>
    decreases items.len(),
{
    if items.len() == 0 {
        m
    } else {
        let it = items[0];
        let m1 = if m[(id, sender)] >= it.amount {
            transfer_upd(m, id, sender, it.to, it.amount as int)
        } else {
            m
        };
        skip_batch_map(m1, id, sender, items.drop_first())
    }
}

/// The audit trail of a skip-and-report batch: one `(to, amount, success)`
/// triple per item, mirroring the input order.
pub open spec fn skip_batch_statuses(
    m: Map<(TokenId, AccountId), int>,
    id: TokenId,
    sender: AccountId,
    items: Seq<TokenTransferDetails>,
) -> Seq<(AccountId, Balance, bool)>
    decreases items.len(),
{
    if items.len() == 0 {
        Seq::empty()
    } else {
        let it = items[0];
        let ok = m[(id, sender)] >= it.amount;
        let m1 = if ok {
            transfer_upd(m, id, sender, it.to, it.amount as int)
        } else {
            m
        };
        seq![(it.to, it.amount, ok)] + skip_batch_statuses(m1, id, sender, items.drop_first())
    }
}

/// The balances after a fail-closed batch: items applied in order up to,
/// and not including, the first one the sender cannot cover.
pub open spec fn fc_batch_map(
    m: Map<(TokenId, AccountId), int>,
    id: TokenId,
    sender: AccountId,
    items: Seq<TokenTransferDetails>,
) -> Map<(TokenId, AccountId), int>
    decreases items.len(),
{
    if items.len() == 0 {
        m
    } else if m[(id, sender)] >= items[0].amount {
        fc_batch_map(
            transfer_upd(m, id, sender, items[0].to, items[0].amount as int),
            id,
            sender,
            items.drop_first(),
        )
    } else {
        m
    }
}

/// Whether a fail-closed batch runs to completion: every item, in order,
/// is covered by the sender's balance at its step.
pub open spec fn fc_batch_ok(
    m: Map<(TokenId, AccountId), int>,
    id: TokenId,
    sender: AccountId,
    items: Seq<TokenTransferDetails>,
) -> bool
    decreases items.len(),
{
    if items.len() == 0 {
        true
    } else if m[(id, sender)] >= items[0].amount {
        fc_batch_ok(
            transfer_upd(m, id, sender, items[0].to, items[0].amount as int),
            id,
            sender,
            items.drop_first(),
        )
    } else {
        false
    }
}

/// The audit trail of a completed fail-closed batch: every item succeeded.
pub open spec fn fc_statuses(items: Seq<TokenTransferDetails>) -> Seq<(AccountId, Balance, bool)> {
    Seq::new(items.len(), |i: int| (items[i].to, items[i].amount, true))
}

/// Transition relation of `multi_transfer`: the size bound is checked
/// before any transfer; then the chosen policy walks the items in order,
/// each attempt charged against the balance the earlier items left.
pub open spec fn multi_transfer_rel(
    pre: Engine,
    post: Engine,
    sender: AccountId,
    id: TokenId,
    items: Seq<TokenTransferDetails>,
    policy: BatchPolicy,
    r: Result<Event, Error>,
) -> bool {
    if items.len() >= MAX_TRANSFERS {
        r == Err::<Event, Error>(Error::LimitExceeded) && post == pre
    } else if policy == BatchPolicy::SkipAndReport {
        &&& post.ledger.balances_map() == skip_batch_map(
            pre.ledger.balances_map(),
            id,
            sender,
            items,
        )
        &&& balances_only(pre, post)
        &&& r matches Ok(Event::MultiTransfer(s, v)) && s == sender && v@ == skip_batch_statuses(
            pre.ledger.balances_map(),
            id,
            sender,
            items,
        )
    } else {
        &&& post.ledger.balances_map() == fc_batch_map(pre.ledger.balances_map(), id, sender, items)
        &&& balances_only(pre, post)
        &&& if fc_batch_ok(pre.ledger.balances_map(), id, sender, items) {
            r matches Ok(Event::MultiTransfer(s, v)) && s == sender && v@ == fc_statuses(items)
        } else {
            r == Err::<Event, Error>(Error::InsufficientBalance)
        }
    }
}

impl Engine {
    /// Well-formedness of the whole state; every entry point keeps it.
    pub open spec fn wf(self) -> bool {
        self.ledger.wf() && self.nonces.wf()
    }

    /// A fresh engine: empty ledger, all nonces zero.
    pub fn new() -> (r: Engine)
        ensures
            r.wf(),
            r.ledger.token_count == 0,
            r.ledger.supplies@.len() == 0,
            r.ledger.balances@.len() == 0,
            r.ledger.allowances@.len() == 0,
            r.nonces.entries@.len() == 0,
    {
        Engine { ledger: Ledger::new(), nonces: Nonces::new() }
    }

    /// The number of tokens created so far.
    pub fn token_count(&self) -> (r: TokenId)
        ensures
            r == self.ledger.token_count,
    {
        self.ledger.token_count()
    }

    /// Total supply of token `id`.
    pub fn total_supply(&self, id: TokenId) -> (r: Balance)
        ensures
            r == self.ledger.spec_supply(id),
    {
        self.ledger.total_supply(id)
    }

    /// Balance of `account` in token `id`.
    pub fn balance_of(&self, id: TokenId, account: &AccountId) -> (r: Balance)
        requires
            self.wf(),
        ensures
            r == self.ledger.spec_balance(id, *account),
    {
        self.ledger.balance_of(id, account)
    }

    /// Allowance of `spender` over `owner`'s balance of token `id`.
    pub fn allowance_of(&self, id: TokenId, owner: &AccountId, spender: &AccountId) -> (r: Balance)
        requires
            self.wf(),
        ensures
            r == self.ledger.spec_allowance(id, *owner, *spender),
    {
        self.ledger.allowance_of(id, owner, spender)
    }

    /// The replay counter of `account`.
    pub fn account_nonce(&self, account: &AccountId) -> (r: u128)
        requires
            self.wf(),
        ensures
            r == self.nonces.spec_nonce(*account),
    {
        self.nonces.account_nonce(account)
    }

    /// Whether `from` holds at least `amount` of token `id`.
    pub fn check_enough_balance(&self, id: TokenId, from: AccountId, amount: Balance) -> (r: bool)
        requires
            self.wf(),
        ensures
            r == (self.ledger.spec_balance(id, from) >= amount),
    {
        let from_balance = self.ledger.balance_of(id, &from);
        from_balance >= amount
    }

    /// Creates a new token: allocates the next id and mints the whole
    /// supply to `origin`. This is the only entry point that creates
    /// value.
    pub fn create_token(&mut self, origin: AccountId, total_supply: Balance) -> (r: Result<
        Event,
        Error,
    >)
        requires
            old(self).wf(),
        ensures
            final(self).wf(),
            create_token_rel(*old(self), *final(self), origin, total_supply, r),
    {
        match self.ledger.create_token(origin, total_supply) {
            Ok(id) => Ok(Event::NewToken(id, origin, total_supply)),
            Err(e) => Err(e),
        }
    }

    /// Moves `amount` of token `id` from `origin` to `to`. Rejects a zero
    /// amount (`ZeroAmount`) by this entry point's policy.
    pub fn transfer(&mut self, origin: AccountId, to: AccountId, id: TokenId, amount: Balance) -> (r:
        Result<Event, Error>)
        requires
            old(self).wf(),
        ensures
            final(self).wf(),
            transfer_rel(*old(self), *final(self), origin, to, id, amount, r),
    {
        if amount == 0 {
            return Err(Error::ZeroAmount);
        }
        let enough_balance = self.check_enough_balance(id, origin, amount);
        if !enough_balance {
            return Err(Error::InsufficientBalance);
        }
        self.ledger.do_transfer(id, origin, to, amount);
        Ok(Event::Transfer(id, origin, to, amount))
    }

    /// Overwrites the allowance of `spender` over `origin`'s balance of
    /// token `id`; setting zero is a valid revocation.
    pub fn approve(&mut self, origin: AccountId, spender: AccountId, id: TokenId, value: Balance) -> (r:
        Result<Event, Error>)
        requires
            old(self).wf(),
        ensures
            final(self).wf(),
            approve_rel(*old(self), *final(self), origin, spender, id, value, r),
    {
        self.ledger.set_allowance(id, origin, spender, value);
        Ok(Event::Approval(id, origin, spender, value))
    }

    /// Moves `value` of token `id` out of `from`'s balance to `to`, on the
    /// authority of the allowance `from` granted to `origin`. Both the
    /// allowance and the balance are checked before any write; a success
    /// decrements the allowance by exactly `value`.
    pub fn transfer_from(
        &mut self,
        origin: AccountId,
        from: AccountId,
        to: AccountId,
        id: TokenId,
        value: Balance,
    ) -> (r: Result<Event, Error>)
        requires
            old(self).wf(),
        ensures
            final(self).wf(),
            transfer_from_rel(*old(self), *final(self), origin, from, to, id, value, r),
    {
        let allowance = self.ledger.allowance_of(id, &from, &origin);
        if allowance < value {
            return Err(Error::AllowanceUnderflow);
        }
        let enough_balance = self.check_enough_balance(id, from, value);
        if !enough_balance {
            return Err(Error::InsufficientBalance);
        }
        self.ledger.do_transfer(id, from, to, value);
        self.ledger.set_allowance(id, from, origin, allowance - value);
        Ok(Event::Transfer(id, from, to, value))
    }

    /// Executes a signed offer against `origin` as taker: verifies the
    /// maker's signature and nonce, checks both legs, then performs the
    /// four balance updates as one unit and advances the maker's nonce.
    /// Zero-amount legs are permitted: an offer may be a free gift.
    pub fn swap(&mut self, origin: AccountId, signed_offer: &SignedOffer) -> (r: Result<
        Event,
        Error,
    >)
        requires
            old(self).wf(),
        ensures
            final(self).wf(),
            swap_rel(*old(self), *final(self), origin, *signed_offer, r),
    {
        if !verify_offer_signature(signed_offer) {
            return Err(Error::InvalidSignature);
        }
        let maker_nonce = self.nonces.account_nonce(&signed_offer.signer);
        if maker_nonce != signed_offer.offer.nonce {
            return Err(Error::IncorrectNonce);
        }
        let offer_from_balance = self.ledger.balance_of(
            signed_offer.offer.offer_token,
            &signed_offer.signer,
        );
        if offer_from_balance < signed_offer.offer.offer_amount {
            return Err(Error::InsufficientBalance);
        }
        let requested_from_balance = self.ledger.balance_of(
            signed_offer.offer.requested_token,
            &origin,
        );
        if requested_from_balance < signed_offer.offer.requested_amount {
            return Err(Error::InsufficientBalance);
        }
        let o = signed_offer.offer;
        let maker = signed_offer.signer;
        self.ledger.do_transfer(o.offer_token, maker, origin, o.offer_amount);
        proof {
            // The first leg could only have raised the taker's balance of
            // the requested token.
            assert(self.ledger.spec_balance(o.requested_token, origin) as int
                == self.ledger.balances_map()[(o.requested_token, origin)]);
        }
        self.ledger.do_transfer(o.requested_token, origin, maker, o.requested_amount);
        self.nonces.increment_nonce(maker);
        Ok(
            Event::Swap(
                o.offer_token,
                o.offer_amount,
                o.requested_token,
                o.requested_amount,
                maker,
                origin,
            ),
        )
    }

    /// Executes a transfer that its payer signed off-chain and `origin`
    /// relays: verifies the payer's signature and nonce, then moves the
    /// amount out of the payer's balance of token `id` and advances the
    /// payer's nonce. A zero amount is permitted.
    pub fn delegated_transfer(
        &mut self,
        origin: AccountId,
        id: TokenId,
        signed_dtd: &SignedDelegatedTransferDetails,
    ) -> (r: Result<Event, Error>)
        requires
            old(self).wf(),
        ensures
            final(self).wf(),
            delegated_transfer_rel(*old(self), *final(self), origin, id, *signed_dtd, r),
    {
        if !verify_dtd_signature(signed_dtd) {
            return Err(Error::InvalidSignature);
        }
        let sender_nonce = self.nonces.account_nonce(&signed_dtd.signer);
        if sender_nonce != signed_dtd.transfer.nonce {
            return Err(Error::IncorrectNonce);
        }
        let enough_balance = self.check_enough_balance(id, signed_dtd.signer, signed_dtd.transfer.amount);
        if !enough_balance {
            return Err(Error::InsufficientBalance);
        }
        let body = signed_dtd.transfer;
        let payer = signed_dtd.signer;
        self.ledger.do_transfer(id, payer, body.to, body.amount);
        self.nonces.increment_nonce(payer);
        Ok(Event::DelegatedTransfer(origin, payer, body.to, body.amount))
    }

    /// Applies a bounded list of transfers from `origin`, walking the
    /// items in order under the chosen insufficiency policy, and reports
    /// the per-item outcomes in input order. An oversized batch is
    /// rejected before any transfer is attempted; a fail-closed batch that
    /// stops keeps the items already applied.
    pub fn multi_transfer(
        &mut self,
        origin: AccountId,
        id: TokenId,
        td_vec: &Vec<TokenTransferDetails>,
        policy: BatchPolicy,
    ) -> (r: Result<Event, Error>)
        requires
            old(self).wf(),
        ensures
            final(self).wf(),
            multi_transfer_rel(*old(self), *final(self), origin, id, td_vec@, policy, r),
    {
        let num_transfers = td_vec.len();
        if num_transfers >= MAX_TRANSFERS {
            return Err(Error::LimitExceeded);
        }
        let ghost pre = *self;
        let ghost items = td_vec@;
        let mut status_vector: Vec<(AccountId, Balance, bool)> = Vec::new();
        let mut i: usize = 0;
        match policy {
            BatchPolicy::SkipAndReport => {
                proof {
                    assert(items.skip(0) =~= items);
                }
                while i < num_transfers
                    invariant
                        self.wf(),
                        policy == BatchPolicy::SkipAndReport,
                        pre == *old(self),
                        i <= num_transfers,
                        num_transfers < MAX_TRANSFERS,
                        num_transfers == items.len(),
                        items == td_vec@,
                        balances_only(pre, *self),
                        status_vector@.len() == i,
                        skip_batch_map(pre.ledger.balances_map(), id, origin, items)
                            == skip_batch_map(
                            self.ledger.balances_map(),
                            id,
                            origin,
                            items.skip(i as int),
                        ),
                        skip_batch_statuses(pre.ledger.balances_map(), id, origin, items)
                            == status_vector@ + skip_batch_statuses(
                            self.ledger.balances_map(),
                            id,
                            origin,
                            items.skip(i as int),
                        ),
                    decreases num_transfers - i,
                {
                    let ghost m_cur = self.ledger.balances_map();
                    let ghost rest = items.skip(i as int);
                    let it = td_vec[i];
                    let status = self.check_enough_balance(id, origin, it.amount);
                    proof {
                        assert(rest[0] == items[i as int]);
                        assert(rest.drop_first() =~= items.skip(i as int + 1));
                        assert(self.ledger.spec_balance(id, origin) as int == m_cur[(id, origin)]);
                    }
                    if status {
                        self.ledger.do_transfer(id, origin, it.to, it.amount);
                    }
                    status_vector.push((it.to, it.amount, status));
                    i = i + 1;
                    proof {
                        assert(skip_batch_statuses(pre.ledger.balances_map(), id, origin, items)
                            =~= status_vector@ + skip_batch_statuses(
                            self.ledger.balances_map(),
                            id,
                            origin,
                            items.skip(i as int),
                        ));
                    }
                }
                proof {
                    assert(items.skip(num_transfers as int) =~= Seq::<
                        TokenTransferDetails,
                    >::empty());
                    assert(status_vector@ + Seq::<(AccountId, Balance, bool)>::empty()
                        =~= status_vector@);
                }
                Ok(Event::MultiTransfer(origin, status_vector))
            },
            BatchPolicy::FailClosed => {
                proof {
                    assert(items.skip(0) =~= items);
                }
                while i < num_transfers
                    invariant
                        self.wf(),
                        policy == BatchPolicy::FailClosed,
                        pre == *old(self),
                        i <= num_transfers,
                        num_transfers < MAX_TRANSFERS,
                        num_transfers == items.len(),
                        items == td_vec@,
                        balances_only(pre, *self),
                        status_vector@.len() == i,
                        forall|j: int|
                            0 <= j < i ==> status_vector@[j] == (
                            items[j].to,
                            items[j].amount,
                            true,
                        ),
                        fc_batch_map(pre.ledger.balances_map(), id, origin, items) == fc_batch_map(
                            self.ledger.balances_map(),
                            id,
                            origin,
                            items.skip(i as int),
                        ),
                        fc_batch_ok(pre.ledger.balances_map(), id, origin, items) == fc_batch_ok(
                            self.ledger.balances_map(),
                            id,
                            origin,
                            items.skip(i as int),
                        ),
                    decreases num_transfers - i,
                {
                    let ghost m_cur = self.ledger.balances_map();
                    let ghost rest = items.skip(i as int);
                    let it = td_vec[i];
                    let status = self.check_enough_balance(id, origin, it.amount);
                    proof {
                        assert(rest[0] == items[i as int]);
                        assert(rest.drop_first() =~= items.skip(i as int + 1));
                        assert(self.ledger.spec_balance(id, origin) as int == m_cur[(id, origin)]);
                    }
                    if !status {
                        proof {
                            assert(fc_batch_map(m_cur, id, origin, rest) == m_cur);
                            assert(!fc_batch_ok(m_cur, id, origin, rest));
                            assert(self.ledger.balances_map() == m_cur);
                        }
                        return Err(Error::InsufficientBalance);
                    }
                    self.ledger.do_transfer(id, origin, it.to, it.amount);
                    status_vector.push((it.to, it.amount, true));
                    i = i + 1;
                }
                proof {
                    assert(items.skip(num_transfers as int) =~= Seq::<
                        TokenTransferDetails,
                    >::empty());
                    assert(status_vector@ =~= fc_statuses(items));
                }
                Ok(Event::MultiTransfer(origin, status_vector))
            },
        }
    }

    /// Processes one command, dispatching to the entry point of its
    /// variant; the mapping is exhaustive.
    pub fn apply(&mut self, cmd: Command) -> (r: Result<Event, Error>)
        requires
            old(self).wf(),
        ensures
            final(self).wf(),
            match cmd {
                Command::CreateToken { origin, total_supply } => create_token_rel(
                    *old(self),
                    *final(self),
                    origin,
                    total_supply,
                    r,
                ),
                Command::Transfer { origin, to, id, amount } => transfer_rel(
                    *old(self),
                    *final(self),
                    origin,
                    to,
                    id,
                    amount,
                    r,
                ),
                Command::Approve { origin, spender, id, value } => approve_rel(
                    *old(self),
                    *final(self),
                    origin,
                    spender,
                    id,
                    value,
                    r,
                ),
                Command::TransferFrom { origin, from, to, id, value } => transfer_from_rel(
                    *old(self),
                    *final(self),
                    origin,
                    from,
                    to,
                    id,
                    value,
                    r,
                ),
                Command::Swap { origin, signed_offer } => swap_rel(
                    *old(self),
                    *final(self),
                    origin,
                    signed_offer,
                    r,
                ),
                Command::MultiTransfer { origin, id, details, policy } => multi_transfer_rel(
                    *old(self),
                    *final(self),
                    origin,
                    id,
                    details@,
                    policy,
                    r,
                ),
                Command::DelegatedTransfer { origin, id, signed } => delegated_transfer_rel(
                    *old(self),
                    *final(self),
                    origin,
                    id,
                    signed,
                    r,
                ),
            },
    {
        match cmd {
            Command::CreateToken { origin, total_supply } => self.create_token(
                origin,
                total_supply,
            ),
            Command::Transfer { origin, to, id, amount } => self.transfer(origin, to, id, amount),
            Command::Approve { origin, spender, id, value } => self.approve(
                origin,
                spender,
                id,
                value,
            ),
            Command::TransferFrom { origin, from, to, id, value } => self.transfer_from(
                origin,
                from,
                to,
                id,
                value,
            ),
            Command::Swap { origin, signed_offer } => self.swap(origin, &signed_offer),
            Command::MultiTransfer { origin, id, details, policy } => self.multi_transfer(
                origin,
                id,
                &details,
                policy,
            ),
            Command::DelegatedTransfer { origin, id, signed } => self.delegated_transfer(
                origin,
                id,
                &signed,
            ),
        }
    }
}

} // verus!
