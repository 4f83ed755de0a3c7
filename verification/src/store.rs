//! The ledger store: per-token total supply, per-(token, account) balances,
//! per-(token, owner, spender) allowances, and the count of tokens created.
//!
//! Balances and allowances are association lists with unique keys; a key
//! that is absent is equivalent to a value of zero. The store's invariant
//! is the conservation law: for every token, the recorded total supply
//! equals the sum of all account balances of that token (accounts without
//! an entry hold zero, so the sum over the entries is the sum over all
//! accounts). Only the invariant-preserving executors mutate the store;
//! there is no public primitive that writes a single balance.

use vstd::prelude::*;

use crate::types::AccountId;
use crate::types::Balance;
use crate::types::Error;
use crate::types::TokenId;

verus! {

/// One balance record: `account` holds `amount` of `token`.
#[derive(Clone, Copy, PartialEq, Eq, Structural, Debug)]
pub struct BalanceEntry {
    pub token: TokenId,
    pub account: AccountId,
    pub amount: Balance,
}

/// One allowance record: `spender` may move `amount` of `token` out of
/// `owner`'s balance.
#[derive(Clone, Copy, PartialEq, Eq, Structural, Debug)]
pub struct AllowanceEntry {
    pub token: TokenId,
    pub owner: AccountId,
    pub spender: AccountId,
    pub amount: Balance,
}

/// Whether `e` is the record of `(t, a)`.
pub open spec fn balance_key_matches(e: BalanceEntry, t: TokenId, a: AccountId) -> bool {
    e.token == t && e.account == a
}

/// The balance recorded for `(t, a)`, zero when absent.
pub open spec fn find_balance(s: Seq<BalanceEntry>, t: TokenId, a: AccountId) -> Balance
    decreases s.len(),
{
    if s.len() == 0 {
        0
    } else if balance_key_matches(s[0], t, a) {
        s[0].amount
    } else {
        find_balance(s.drop_first(), t, a)
    }
}

/// Whether some record carries the key `(t, a)`.
pub open spec fn has_balance_key(s: Seq<BalanceEntry>, t: TokenId, a: AccountId) -> bool
    decreases s.len(),
{
    if s.len() == 0 {
        false
    } else {
        balance_key_matches(s[0], t, a) || has_balance_key(s.drop_first(), t, a)
    }
}

/// No two records share a key.
pub open spec fn unique_balance_keys(s: Seq<BalanceEntry>) -> bool {
    forall|i: int, j: int|
        #![trigger s[i], s[j]]
        0 <= i < j < s.len() ==> !(s[i].token == s[j].token && s[i].account == s[j].account)
}

/// The sum of all recorded balances of token `t`.
pub open spec fn sum_for_token(s: Seq<BalanceEntry>, t: TokenId) -> int
    decreases s.len(),
{
    if s.len() == 0 {
        0int
    } else {
        (if s[0].token == t {
            s[0].amount as int
        } else {
            0int
        }) + sum_for_token(s.drop_first(), t)
    }
}

pub proof fn lemma_sum_nonneg(s: Seq<BalanceEntry>, t: TokenId)
    ensures
        sum_for_token(s, t) >= 0,
    decreases s.len(),
{
    if s.len() > 0 {
        lemma_sum_nonneg(s.drop_first(), t);
    }
}

/// A single balance never exceeds the sum of all balances of its token.
pub proof fn lemma_find_le_sum(s: Seq<BalanceEntry>, t: TokenId, a: AccountId)
    ensures
        find_balance(s, t, a) <= sum_for_token(s, t),
    decreases s.len(),
{
    if s.len() > 0 {
        lemma_sum_nonneg(s.drop_first(), t);
        lemma_find_le_sum(s.drop_first(), t, a);
    }
}

/// A key is present exactly when some index carries it.
pub proof fn lemma_has_balance_key_exists(s: Seq<BalanceEntry>, t: TokenId, a: AccountId)
    ensures
        has_balance_key(s, t, a) <==> exists|i: int|
            0 <= i < s.len() && balance_key_matches(#[trigger] s[i], t, a),
    decreases s.len(),
{
    if s.len() > 0 {
        lemma_has_balance_key_exists(s.drop_first(), t, a);
        if balance_key_matches(s[0], t, a) {
            assert(balance_key_matches(s[0], t, a));
        } else if has_balance_key(s.drop_first(), t, a) {
            let i = choose|i: int|
                0 <= i < s.drop_first().len() && balance_key_matches(
                    #[trigger] s.drop_first()[i],
                    t,
                    a,
                );
            assert(balance_key_matches(s[i + 1], t, a));
        } else {
            assert forall|i: int| 0 <= i < s.len() implies !balance_key_matches(
                #[trigger] s[i],
                t,
                a,
            ) by {
                if i > 0 {
                    assert(s.drop_first()[i - 1] == s[i]);
                }
            }
        }
    }
}

/// An absent key reads as zero.
pub proof fn lemma_absent_balance_is_zero(s: Seq<BalanceEntry>, t: TokenId, a: AccountId)
    requires
        !has_balance_key(s, t, a),
    ensures
        find_balance(s, t, a) == 0,
    decreases s.len(),
{
    if s.len() > 0 {
        lemma_absent_balance_is_zero(s.drop_first(), t, a);
    }
}

/// Overwriting the record at `i` changes exactly that key's reading.
pub proof fn lemma_find_balance_update(
    s: Seq<BalanceEntry>,
    i: int,
    e: BalanceEntry,
    t: TokenId,
    a: AccountId,
)
    requires
        0 <= i < s.len(),
        s[i].token == e.token,
        s[i].account == e.account,
        unique_balance_keys(s),
    ensures
        find_balance(s.update(i, e), t, a) == if balance_key_matches(e, t, a) {
            e.amount
        } else {
            find_balance(s, t, a)
        },
    decreases s.len(),
{
    if i == 0 {
        assert(s.update(0, e).drop_first() =~= s.drop_first());
    } else {
        assert(s.update(i, e).drop_first() =~= s.drop_first().update(i - 1, e));
        assert forall|p: int, q: int|
            #![trigger s.drop_first()[p], s.drop_first()[q]]
            0 <= p < q < s.drop_first().len() implies !(s.drop_first()[p].token
            == s.drop_first()[q].token && s.drop_first()[p].account
            == s.drop_first()[q].account) by {
            assert(s.drop_first()[p] == s[p + 1]);
            assert(s.drop_first()[q] == s[q + 1]);
        }
        lemma_find_balance_update(s.drop_first(), i - 1, e, t, a);
        assert(s.drop_first()[i - 1] == s[i]);
        if balance_key_matches(s[0], t, a) {
            // The head answers the query; index i cannot share its key.
            assert(!(balance_key_matches(e, t, a)));
        }
    }
}

/// Overwriting the record at `i` shifts the token sum by the amount delta.
pub proof fn lemma_sum_update(s: Seq<BalanceEntry>, i: int, e: BalanceEntry, t: TokenId)
    requires
        0 <= i < s.len(),
        s[i].token == e.token,
    ensures
        sum_for_token(s.update(i, e), t) == sum_for_token(s, t) + (if e.token == t {
            e.amount - s[i].amount
        } else {
            0int
        }),
    decreases s.len(),
{
    if i == 0 {
        assert(s.update(0, e).drop_first() =~= s.drop_first());
    } else {
        assert(s.update(i, e).drop_first() =~= s.drop_first().update(i - 1, e));
        lemma_sum_update(s.drop_first(), i - 1, e, t);
        assert(s.drop_first()[i - 1] == s[i]);
    }
}

/// Appending a record leaves present keys unchanged and adds the new one.
pub proof fn lemma_find_balance_push(s: Seq<BalanceEntry>, e: BalanceEntry, t: TokenId, a: AccountId)
    ensures
        find_balance(s.push(e), t, a) == if has_balance_key(s, t, a) {
            find_balance(s, t, a)
        } else if balance_key_matches(e, t, a) {
            e.amount
        } else {
            0
        },
    decreases s.len(),
{
    if s.len() == 0 {
        assert(s.push(e)[0] == e);
        assert(s.push(e).drop_first() =~= Seq::<BalanceEntry>::empty());
        assert(find_balance(Seq::<BalanceEntry>::empty(), t, a) == 0);
    } else {
        assert(s.push(e)[0] == s[0]);
        assert(s.push(e).drop_first() =~= s.drop_first().push(e));
        lemma_find_balance_push(s.drop_first(), e, t, a);
    }
}

/// Appending a record adds its amount to its token's sum.
pub proof fn lemma_sum_push(s: Seq<BalanceEntry>, e: BalanceEntry, t: TokenId)
    ensures
        sum_for_token(s.push(e), t) == sum_for_token(s, t) + (if e.token == t {
            e.amount as int
        } else {
            0int
        }),
    decreases s.len(),
{
    if s.len() == 0 {
        assert(s.push(e)[0] == e);
        assert(s.push(e).drop_first() =~= Seq::<BalanceEntry>::empty());
        assert(sum_for_token(Seq::<BalanceEntry>::empty(), t) == 0);
    } else {
        assert(s.push(e)[0] == s[0]);
        assert(s.push(e).drop_first() =~= s.drop_first().push(e));
        lemma_sum_push(s.drop_first(), e, t);
    }
}

/// Whether `e` is the record of `(t, owner, spender)`.
pub open spec fn allowance_key_matches(
    e: AllowanceEntry,
    t: TokenId,
    owner: AccountId,
    spender: AccountId,
) -> bool {
    e.token == t && e.owner == owner && e.spender == spender
}

/// The allowance recorded for `(t, owner, spender)`, zero when absent.
pub open spec fn find_allowance(
    s: Seq<AllowanceEntry>,
    t: TokenId,
    owner: AccountId,
    spender: AccountId,
) -> Balance
    decreases s.len(),
{
    if s.len() == 0 {
        0
    } else if allowance_key_matches(s[0], t, owner, spender) {
        s[0].amount
    } else {
        find_allowance(s.drop_first(), t, owner, spender)
    }
}

/// Whether some record carries the key `(t, owner, spender)`.
pub open spec fn has_allowance_key(
    s: Seq<AllowanceEntry>,
    t: TokenId,
    owner: AccountId,
    spender: AccountId,
) -> bool
    decreases s.len(),
{
    if s.len() == 0 {
        false
    } else {
        allowance_key_matches(s[0], t, owner, spender) || has_allowance_key(
            s.drop_first(),
            t,
            owner,
            spender,
        )
    }
}

/// No two records share a key.
pub open spec fn unique_allowance_keys(s: Seq<AllowanceEntry>) -> bool {
    forall|i: int, j: int|
        #![trigger s[i], s[j]]
        0 <= i < j < s.len() ==> !(s[i].token == s[j].token && s[i].owner == s[j].owner
            && s[i].spender == s[j].spender)
}

/// A key is present exactly when some index carries it.
pub proof fn lemma_has_allowance_key_exists(
    s: Seq<AllowanceEntry>,
    t: TokenId,
    owner: AccountId,
    spender: AccountId,
)
    ensures
        has_allowance_key(s, t, owner, spender) <==> exists|i: int|
            0 <= i < s.len() && allowance_key_matches(#[trigger] s[i], t, owner, spender),
    decreases s.len(),
{
    if s.len() > 0 {
        lemma_has_allowance_key_exists(s.drop_first(), t, owner, spender);
        if allowance_key_matches(s[0], t, owner, spender) {
            assert(allowance_key_matches(s[0], t, owner, spender));
        } else if has_allowance_key(s.drop_first(), t, owner, spender) {
            let i = choose|i: int|
                0 <= i < s.drop_first().len() && allowance_key_matches(
                    #[trigger] s.drop_first()[i],
                    t,
                    owner,
                    spender,
                );
            assert(allowance_key_matches(s[i + 1], t, owner, spender));
        } else {
            assert forall|i: int| 0 <= i < s.len() implies !allowance_key_matches(
                #[trigger] s[i],
                t,
                owner,
                spender,
            ) by {
                if i > 0 {
                    assert(s.drop_first()[i - 1] == s[i]);
                }
            }
        }
    }
}

/// An absent key reads as zero.
pub proof fn lemma_absent_allowance_is_zero(
    s: Seq<AllowanceEntry>,
    t: TokenId,
    owner: AccountId,
    spender: AccountId,
)
    requires
        !has_allowance_key(s, t, owner, spender),
    ensures
        find_allowance(s, t, owner, spender) == 0,
    decreases s.len(),
{
    if s.len() > 0 {
        lemma_absent_allowance_is_zero(s.drop_first(), t, owner, spender);
    }
}

/// Overwriting the record at `i` changes exactly that key's reading.
pub proof fn lemma_find_allowance_update(
    s: Seq<AllowanceEntry>,
    i: int,
    e: AllowanceEntry,
    t: TokenId,
    owner: AccountId,
    spender: AccountId,
)
    requires
        0 <= i < s.len(),
        s[i].token == e.token,
        s[i].owner == e.owner,
        s[i].spender == e.spender,
        unique_allowance_keys(s),
    ensures
        find_allowance(s.update(i, e), t, owner, spender) == if allowance_key_matches(
            e,
            t,
            owner,
            spender,
        ) {
            e.amount
        } else {
            find_allowance(s, t, owner, spender)
        },
    decreases s.len(),
{
    if i == 0 {
        assert(s.update(0, e).drop_first() =~= s.drop_first());
    } else {
        assert(s.update(i, e).drop_first() =~= s.drop_first().update(i - 1, e));
        assert forall|p: int, q: int|
            #![trigger s.drop_first()[p], s.drop_first()[q]]
            0 <= p < q < s.drop_first().len() implies !(s.drop_first()[p].token
            == s.drop_first()[q].token && s.drop_first()[p].owner == s.drop_first()[q].owner
            && s.drop_first()[p].spender == s.drop_first()[q].spender) by {
            assert(s.drop_first()[p] == s[p + 1]);
            assert(s.drop_first()[q] == s[q + 1]);
        }
        lemma_find_allowance_update(s.drop_first(), i - 1, e, t, owner, spender);
        assert(s.drop_first()[i - 1] == s[i]);
        if allowance_key_matches(s[0], t, owner, spender) {
            assert(!(allowance_key_matches(e, t, owner, spender)));
        }
    }
}

/// Appending a record leaves present keys unchanged and adds the new one.
pub proof fn lemma_find_allowance_push(
    s: Seq<AllowanceEntry>,
    e: AllowanceEntry,
    t: TokenId,
    owner: AccountId,
    spender: AccountId,
)
    ensures
        find_allowance(s.push(e), t, owner, spender) == if has_allowance_key(s, t, owner, spender) {
            find_allowance(s, t, owner, spender)
        } else if allowance_key_matches(e, t, owner, spender) {
            e.amount
        } else {
            0
        },
    decreases s.len(),
{
    if s.len() == 0 {
        assert(s.push(e)[0] == e);
        assert(s.push(e).drop_first() =~= Seq::<AllowanceEntry>::empty());
        assert(find_allowance(Seq::<AllowanceEntry>::empty(), t, owner, spender) == 0);
    } else {
        assert(s.push(e)[0] == s[0]);
        assert(s.push(e).drop_first() =~= s.drop_first().push(e));
        lemma_find_allowance_push(s.drop_first(), e, t, owner, spender);
    }
}

/// Reading the first record that carries a key gives that key's balance.
pub proof fn lemma_find_balance_present(s: Seq<BalanceEntry>, i: int, t: TokenId, a: AccountId)
    requires
        0 <= i < s.len(),
        balance_key_matches(s[i], t, a),
        unique_balance_keys(s),
    ensures
        find_balance(s, t, a) == s[i].amount,
    decreases i,
{
    if i > 0 {
        assert forall|p: int, q: int|
            #![trigger s.drop_first()[p], s.drop_first()[q]]
            0 <= p < q < s.drop_first().len() implies !(s.drop_first()[p].token
            == s.drop_first()[q].token && s.drop_first()[p].account
            == s.drop_first()[q].account) by {
            assert(s.drop_first()[p] == s[p + 1]);
            assert(s.drop_first()[q] == s[q + 1]);
        }
        assert(s.drop_first()[i - 1] == s[i]);
        lemma_find_balance_present(s.drop_first(), i - 1, t, a);
    }
}

/// Reading the first record that carries a key gives that key's allowance.
pub proof fn lemma_find_allowance_present(
    s: Seq<AllowanceEntry>,
    i: int,
    t: TokenId,
    owner: AccountId,
    spender: AccountId,
)
    requires
        0 <= i < s.len(),
        allowance_key_matches(s[i], t, owner, spender),
        unique_allowance_keys(s),
    ensures
        find_allowance(s, t, owner, spender) == s[i].amount,
    decreases i,
{
    if i > 0 {
        assert forall|p: int, q: int|
            #![trigger s.drop_first()[p], s.drop_first()[q]]
            0 <= p < q < s.drop_first().len() implies !(s.drop_first()[p].token
            == s.drop_first()[q].token && s.drop_first()[p].owner == s.drop_first()[q].owner
            && s.drop_first()[p].spender == s.drop_first()[q].spender) by {
            assert(s.drop_first()[p] == s[p + 1]);
            assert(s.drop_first()[q] == s[q + 1]);
        }
        assert(s.drop_first()[i - 1] == s[i]);
        lemma_find_allowance_present(s.drop_first(), i - 1, t, owner, spender);
    }
}

/// All balances as one total map; a key never written reads as zero.
pub open spec fn balance_map(s: Seq<BalanceEntry>) -> Map<(TokenId, AccountId), int> {
    Map::new(
        |k: (TokenId, AccountId)| true,
        |k: (TokenId, AccountId)| find_balance(s, k.0, k.1) as int,
    )
}

/// All allowances as one total map; a key never written reads as zero.
pub open spec fn allowance_map(s: Seq<AllowanceEntry>) -> Map<(TokenId, AccountId, AccountId), int> {
    Map::new(
        |k: (TokenId, AccountId, AccountId)| true,
        |k: (TokenId, AccountId, AccountId)| find_allowance(s, k.0, k.1, k.2) as int,
    )
}

/// The two balance writes of one transfer, composed on the map model:
/// first the debit of `from`, then the credit of `to` read from the map
/// after the debit. The composition is exact even when `from == to`.
pub open spec fn transfer_upd(
    m: Map<(TokenId, AccountId), int>,
    id: TokenId,
    from: AccountId,
    to: AccountId,
    amount: int,
) -> Map<(TokenId, AccountId), int> {
    let debited = m.insert((id, from), m[(id, from)] - amount);
    debited.insert((id, to), debited[(id, to)] + amount)
}

/// The ledger store. All fields are reachable for inspection, but every
/// mutation goes through the executors, which keep `wf`.
#[derive(Clone, Debug)]
pub struct Ledger {
    /// The next token id to allocate; strictly increasing.
    pub token_count: TokenId,
    /// Total supply of token `t`, at index `t`.
    pub supplies: Vec<Balance>,
    /// Every balance record ever written; an absent key reads as zero.
    pub balances: Vec<BalanceEntry>,
    /// All allowance records.
    pub allowances: Vec<AllowanceEntry>,
}

impl Ledger {
    /// Total supply of token `t`: zero for a token not yet created.
    pub open spec fn spec_supply(self, t: TokenId) -> Balance {
        if (t as int) < self.supplies@.len() {
            self.supplies@[t as int]
        } else {
            0
        }
    }

    /// Balance of `a` in token `t`.
    pub open spec fn spec_balance(self, t: TokenId, a: AccountId) -> Balance {
        find_balance(self.balances@, t, a)
    }

    /// Allowance of `spender` over `owner`'s balance of token `t`.
    pub open spec fn spec_allowance(self, t: TokenId, owner: AccountId, spender: AccountId) -> Balance {
        find_allowance(self.allowances@, t, owner, spender)
    }

    /// All balances as one total map.
    pub open spec fn balances_map(self) -> Map<(TokenId, AccountId), int> {
        balance_map(self.balances@)
    }

    /// All allowances as one total map.
    pub open spec fn allowances_map(self) -> Map<(TokenId, AccountId, AccountId), int> {
        allowance_map(self.allowances@)
    }

    /// Well-formedness: one supply slot per created token, unique record
    /// keys, and the conservation law — for every token (created or not),
    /// the total supply equals the sum of all account balances of it.
    pub open spec fn wf(self) -> bool {
        &&& self.supplies@.len() == self.token_count
        &&& unique_balance_keys(self.balances@)
        &&& unique_allowance_keys(self.allowances@)
        &&& forall|t: TokenId| #[trigger] sum_for_token(self.balances@, t) == self.spec_supply(t)
    }

    /// An empty ledger: no tokens, no balances, no allowances.
    pub fn new() -> (r: Ledger)
        ensures
            r.wf(),
            r.token_count == 0,
            r.supplies@.len() == 0,
            r.balances@.len() == 0,
            r.allowances@.len() == 0,
    {
        let r = Ledger {
            token_count: 0,
            supplies: Vec::new(),
            balances: Vec::new(),
            allowances: Vec::new(),
        };
        proof {
            assert forall|t: TokenId| #[trigger] sum_for_token(r.balances@, t) == r.spec_supply(
                t,
            ) by {
                assert(sum_for_token(r.balances@, t) == 0);
            }
        }
        r
    }

    /// The number of tokens created so far, which is also the next id.
    pub fn token_count(&self) -> (r: TokenId)
        ensures
            r == self.token_count,
    {
        self.token_count
    }

    /// Total supply of token `id`; zero for a token not yet created.
    pub fn total_supply(&self, id: TokenId) -> (r: Balance)
        ensures
            r == self.spec_supply(id),
    {
        let n = self.supplies.len();
        if id < n as u128 {
            self.supplies[id as usize]
        } else {
            0
        }
    }

    /// Index of the record of `(id, account)`, if one exists.
    fn find_balance_index(&self, id: TokenId, account: &AccountId) -> (r: Option<usize>)
        ensures
            match r {
                Some(i) => i < self.balances@.len() && balance_key_matches(
                    self.balances@[i as int],
                    id,
                    *account,
                ),
                None => !has_balance_key(self.balances@, id, *account),
            },
    {
        let n = self.balances.len();
        let mut i: usize = 0;
        while i < n
            invariant
                i <= n,
                n == self.balances@.len(),
                forall|j: int| 0 <= j < i ==> !balance_key_matches(
                    #[trigger] self.balances@[j],
                    id,
                    *account,
                ),
            decreases n - i,
        {
            let e = &self.balances[i];
            if e.token == id && e.account == *account {
                return Some(i);
            }
            i = i + 1;
        }
        proof {
            lemma_has_balance_key_exists(self.balances@, id, *account);
        }
        None
    }

    /// Balance of `account` in token `id`; zero when no record exists.
    pub fn balance_of(&self, id: TokenId, account: &AccountId) -> (r: Balance)
        requires
            unique_balance_keys(self.balances@),
        ensures
            r == self.spec_balance(id, *account),
    {
        match self.find_balance_index(id, account) {
            Some(i) => {
                proof {
                    lemma_find_balance_present(self.balances@, i as int, id, *account);
                }
                self.balances[i].amount
            },
            None => {
                proof {
                    lemma_absent_balance_is_zero(self.balances@, id, *account);
                }
                0
            },
        }
    }

    /// Writes the balance of `(id, account)`, keeping every other key and
    /// shifting `id`'s token sum by the delta. Internal: callers are the
    /// executors, which restore conservation.
    fn set_balance(&mut self, id: TokenId, account: AccountId, value: Balance)
        requires
            unique_balance_keys(old(self).balances@),
        ensures
            unique_balance_keys(final(self).balances@),
            final(self).balances_map() == old(self).balances_map().insert(
                (id, account),
                value as int,
            ),
            forall|t: TokenId, a: AccountId|
                #[trigger] find_balance(final(self).balances@, t, a) == if t == id && a == account {
                    value
                } else {
                    find_balance(old(self).balances@, t, a)
                },
            forall|t: TokenId|
                #[trigger] sum_for_token(final(self).balances@, t) == sum_for_token(
                    old(self).balances@,
                    t,
                ) + (if t == id {
                    value - find_balance(old(self).balances@, id, account)
                } else {
                    0int
                }),
            final(self).supplies@ == old(self).supplies@,
            final(self).token_count == old(self).token_count,
            final(self).allowances@ == old(self).allowances@,
    {
        let ghost s0 = self.balances@;
        let e = BalanceEntry { token: id, account, amount: value };
        match self.find_balance_index(id, &account) {
            Some(i) => {
                proof {
                    lemma_find_balance_present(s0, i as int, id, account);
                }
                self.balances[i] = e;
                proof {
                    assert forall|t: TokenId, a: AccountId|
                        #[trigger] find_balance(self.balances@, t, a) == if t == id && a
                            == account {
                            value
                        } else {
                            find_balance(s0, t, a)
                        } by {
                        lemma_find_balance_update(s0, i as int, e, t, a);
                    }
                    assert forall|t: TokenId|
                        #[trigger] sum_for_token(self.balances@, t) == sum_for_token(s0, t) + (
                        if t == id {
                            value - find_balance(s0, id, account)
                        } else {
                            0int
                        }) by {
                        lemma_sum_update(s0, i as int, e, t);
                    }
                }
            },
            None => {
                proof {
                    lemma_absent_balance_is_zero(s0, id, account);
                    lemma_has_balance_key_exists(s0, id, account);
                }
                self.balances.push(e);
                proof {
                    assert(self.balances@ == s0.push(e));
                    assert forall|p: int, q: int|
                        #![trigger self.balances@[p], self.balances@[q]]
                        0 <= p < q < self.balances@.len() implies !(self.balances@[p].token
                        == self.balances@[q].token && self.balances@[p].account
                        == self.balances@[q].account) by {
                        if q < s0.len() {
                            assert(self.balances@[p] == s0[p]);
                            assert(self.balances@[q] == s0[q]);
                        } else {
                            assert(self.balances@[q] == e);
                            assert(self.balances@[p] == s0[p]);
                        }
                    }
                    assert forall|t: TokenId, a: AccountId|
                        #[trigger] find_balance(self.balances@, t, a) == if t == id && a
                            == account {
                            value
                        } else {
                            find_balance(s0, t, a)
                        } by {
                        lemma_find_balance_push(s0, e, t, a);
                        if !(t == id && a == account) && !has_balance_key(s0, t, a) {
                            lemma_absent_balance_is_zero(s0, t, a);
                        }
                    }
                    assert forall|t: TokenId|
                        #[trigger] sum_for_token(self.balances@, t) == sum_for_token(s0, t) + (
                        if t == id {
                            value - find_balance(s0, id, account)
                        } else {
                            0int
                        }) by {
                        lemma_sum_push(s0, e, t);
                    }
                }
            },
        }
        proof {
            assert(self.balances_map() =~= old(self).balances_map().insert(
                (id, account),
                value as int,
            ));
        }
    }

    /// Index of the record of `(id, owner, spender)`, if one exists.
    fn find_allowance_index(&self, id: TokenId, owner: &AccountId, spender: &AccountId) -> (r:
        Option<usize>)
        ensures
            match r {
                Some(i) => i < self.allowances@.len() && allowance_key_matches(
                    self.allowances@[i as int],
                    id,
                    *owner,
                    *spender,
                ),
                None => !has_allowance_key(self.allowances@, id, *owner, *spender),
            },
    {
        let n = self.allowances.len();
        let mut i: usize = 0;
        while i < n
            invariant
                i <= n,
                n == self.allowances@.len(),
                forall|j: int| 0 <= j < i ==> !allowance_key_matches(
                    #[trigger] self.allowances@[j],
                    id,
                    *owner,
                    *spender,
                ),
            decreases n - i,
        {
            let e = &self.allowances[i];
            if e.token == id && e.owner == *owner && e.spender == *spender {
                return Some(i);
            }
            i = i + 1;
        }
        proof {
            lemma_has_allowance_key_exists(self.allowances@, id, *owner, *spender);
        }
        None
    }

    /// Allowance of `spender` over `owner`'s balance of token `id`; zero
    /// when no approval was ever recorded.
    pub fn allowance_of(&self, id: TokenId, owner: &AccountId, spender: &AccountId) -> (r: Balance)
        requires
            unique_allowance_keys(self.allowances@),
        ensures
            r == self.spec_allowance(id, *owner, *spender),
    {
        match self.find_allowance_index(id, owner, spender) {
            Some(i) => {
                proof {
                    lemma_find_allowance_present(self.allowances@, i as int, id, *owner, *spender);
                }
                self.allowances[i].amount
            },
            None => {
                proof {
                    lemma_absent_allowance_is_zero(self.allowances@, id, *owner, *spender);
                }
                0
            },
        }
    }

    /// Overwrites the allowance of `(id, owner, spender)`, keeping every
    /// other key. Internal: the executors call it.
    pub(crate) fn set_allowance(&mut self, id: TokenId, owner: AccountId, spender: AccountId, value: Balance)
        requires
            unique_allowance_keys(old(self).allowances@),
        ensures
            unique_allowance_keys(final(self).allowances@),
            final(self).allowances_map() == old(self).allowances_map().insert(
                (id, owner, spender),
                value as int,
            ),
            forall|t: TokenId, o: AccountId, sp: AccountId|
                #[trigger] find_allowance(final(self).allowances@, t, o, sp) == if t == id && o
                    == owner && sp == spender {
                    value
                } else {
                    find_allowance(old(self).allowances@, t, o, sp)
                },
            final(self).supplies@ == old(self).supplies@,
            final(self).token_count == old(self).token_count,
            final(self).balances@ == old(self).balances@,
    {
        let ghost s0 = self.allowances@;
        let e = AllowanceEntry { token: id, owner, spender, amount: value };
        match self.find_allowance_index(id, &owner, &spender) {
            Some(i) => {
                self.allowances[i] = e;
                proof {
                    assert forall|t: TokenId, o: AccountId, sp: AccountId|
                        #[trigger] find_allowance(self.allowances@, t, o, sp) == if t == id && o
                            == owner && sp == spender {
                            value
                        } else {
                            find_allowance(s0, t, o, sp)
                        } by {
                        lemma_find_allowance_update(s0, i as int, e, t, o, sp);
                    }
                }
            },
            None => {
                proof {
                    lemma_has_allowance_key_exists(s0, id, owner, spender);
                }
                self.allowances.push(e);
                proof {
                    assert(self.allowances@ == s0.push(e));
                    assert forall|p: int, q: int|
                        #![trigger self.allowances@[p], self.allowances@[q]]
                        0 <= p < q < self.allowances@.len() implies !(self.allowances@[p].token
                        == self.allowances@[q].token && self.allowances@[p].owner
                        == self.allowances@[q].owner && self.allowances@[p].spender
                        == self.allowances@[q].spender) by {
                        if q < s0.len() {
                            assert(self.allowances@[p] == s0[p]);
                            assert(self.allowances@[q] == s0[q]);
                        } else {
                            assert(self.allowances@[q] == e);
                            assert(self.allowances@[p] == s0[p]);
                        }
                    }
                    assert forall|t: TokenId, o: AccountId, sp: AccountId|
                        #[trigger] find_allowance(self.allowances@, t, o, sp) == if t == id && o
                            == owner && sp == spender {
                            value
                        } else {
                            find_allowance(s0, t, o, sp)
                        } by {
                        lemma_find_allowance_push(s0, e, t, o, sp);
                        if !(t == id && o == owner && sp == spender) && !has_allowance_key(
                            s0,
                            t,
                            o,
                            sp,
                        ) {
                            lemma_absent_allowance_is_zero(s0, t, o, sp);
                        }
                    }
                }
            },
        }
        proof {
            assert(self.allowances_map() =~= old(self).allowances_map().insert(
                (id, owner, spender),
                value as int,
            ));
        }
    }

    /// Moves `amount` of `id` from `from` to `to`, on a sufficiency the
    /// caller already checked. The two writes, composed in order, give
    /// `transfer_upd`; conservation and all other keys are untouched.
    pub(crate) fn do_transfer(&mut self, id: TokenId, from: AccountId, to: AccountId, amount: Balance)
        requires
            old(self).wf(),
            old(self).spec_balance(id, from) >= amount,
        ensures
            final(self).wf(),
            final(self).balances_map() == transfer_upd(
                old(self).balances_map(),
                id,
                from,
                to,
                amount as int,
            ),
            final(self).supplies@ == old(self).supplies@,
            final(self).token_count == old(self).token_count,
            final(self).allowances@ == old(self).allowances@,
    {
        let from_balance = self.balance_of(id, &from);
        self.set_balance(id, from, from_balance - amount);
        let ghost mid = *self;
        let to_balance = self.balance_of(id, &to);
        proof {
            lemma_find_le_sum(mid.balances@, id, to);
        }
        self.set_balance(id, to, to_balance + amount);
        proof {
            assert forall|t: TokenId| #[trigger] sum_for_token(self.balances@, t)
                == self.spec_supply(t) by {
                assert(sum_for_token(old(self).balances@, t) == old(self).spec_supply(t));
            }
            assert(self.balances_map() =~= transfer_upd(
                old(self).balances_map(),
                id,
                from,
                to,
                amount as int,
            ));
        }
    }

    /// The transfer executor: moves `amount` of token `id` between two
    /// accounts, failing with `InsufficientBalance` — and writing nothing —
    /// when `from` holds less than `amount`.
    pub fn make_transfer(&mut self, id: TokenId, from: AccountId, to: AccountId, amount: Balance) -> (r:
        Result<(), Error>)
        requires
            old(self).wf(),
        ensures
            final(self).wf(),
            r is Ok <==> old(self).spec_balance(id, from) >= amount,
            r is Ok ==> final(self).balances_map() == transfer_upd(
                old(self).balances_map(),
                id,
                from,
                to,
                amount as int,
            ) && final(self).supplies@ == old(self).supplies@ && final(self).token_count == old(
                self,
            ).token_count && final(self).allowances@ == old(self).allowances@,
            r is Err ==> r == Err::<(), Error>(Error::InsufficientBalance) && *final(self) == *old(
                self,
            ),
    {
        let from_balance = self.balance_of(id, &from);
        if from_balance < amount {
            return Err(Error::InsufficientBalance);
        }
        self.do_transfer(id, from, to, amount);
        Ok(())
    }

    /// The token lifecycle: allocates the next token id, records its total
    /// supply and mints all of it to `creator`. Fails with
    /// `TokenLimitExceeded` — and writes nothing — exactly when the id
    /// counter would overflow its range.
    pub(crate) fn create_token(&mut self, creator: AccountId, total_supply: Balance) -> (r: Result<
        TokenId,
        Error,
    >)
        requires
            old(self).wf(),
        ensures
            final(self).wf(),
            r is Ok <==> old(self).token_count < u128::MAX,
            r is Err ==> r == Err::<TokenId, Error>(Error::TokenLimitExceeded) && *final(self)
                == *old(self),
            r is Ok ==> {
                &&& r == Ok::<TokenId, Error>(old(self).token_count)
                &&& final(self).token_count == old(self).token_count + 1
                &&& final(self).spec_supply(old(self).token_count) == total_supply
                &&& forall|t: TokenId| t != old(self).token_count ==> final(self).spec_supply(t)
                    == #[trigger] old(self).spec_supply(t)
                &&& final(self).balances_map() == old(self).balances_map().insert(
                    (old(self).token_count, creator),
                    total_supply as int,
                )
                &&& final(self).allowances@ == old(self).allowances@
            },
    {
        if self.token_count == u128::MAX {
            return Err(Error::TokenLimitExceeded);
        }
        let current_id = self.token_count;
        proof {
            // The new token's balances sum to zero: its supply slot does
            // not exist yet, and conservation covers every token id.
            assert(sum_for_token(self.balances@, current_id) == self.spec_supply(current_id));
            lemma_find_le_sum(self.balances@, current_id, creator);
            lemma_sum_nonneg(self.balances@, current_id);
        }
        self.supplies.push(total_supply);
        self.token_count = current_id + 1;
        let ghost mid = *self;
        self.set_balance(current_id, creator, total_supply);
        proof {
            assert forall|t: TokenId| #[trigger] sum_for_token(self.balances@, t)
                == self.spec_supply(t) by {
                assert(sum_for_token(old(self).balances@, t) == old(self).spec_supply(t));
                assert(sum_for_token(mid.balances@, t) == sum_for_token(old(self).balances@, t));
                if t == current_id {
                    assert(self.spec_supply(t) == total_supply);
                } else if (t as int) < old(self).supplies@.len() {
                    assert(mid.supplies@[t as int] == old(self).supplies@[t as int]);
                } else {
                    assert(self.spec_supply(t) == 0);
                }
            }
        }
        Ok(current_id)
    }
}

} // verus!
