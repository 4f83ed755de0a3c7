//! Per-account replay counters.
//!
//! Each account has a monotonic nonce, starting at zero. A signed order
//! embeds the nonce it was made for; the engine executes it only when that
//! value equals the signer's current nonce, and advances the counter by
//! exactly one — only after the order's side effects have fully succeeded.
//! The counter wraps at the top of its range, so the advanced value always
//! differs from the one before it.

use vstd::prelude::*;

use crate::types::AccountId;

verus! {

/// One replay-counter record.
#[derive(Clone, Copy, PartialEq, Eq, Structural, Debug)]
pub struct NonceEntry {
    pub account: AccountId,
    pub value: u128,
}

/// The nonce recorded for `a`, zero when absent.
pub open spec fn find_nonce(s: Seq<NonceEntry>, a: AccountId) -> u128
    decreases s.len(),
{
    if s.len() == 0 {
        0
    } else if s[0].account == a {
        s[0].value
    } else {
        find_nonce(s.drop_first(), a)
    }
}

/// Whether some record carries account `a`.
pub open spec fn has_nonce_key(s: Seq<NonceEntry>, a: AccountId) -> bool
    decreases s.len(),
{
    if s.len() == 0 {
        false
    } else {
        s[0].account == a || has_nonce_key(s.drop_first(), a)
    }
}

/// No two records share an account.
pub open spec fn unique_nonce_keys(s: Seq<NonceEntry>) -> bool {
    forall|i: int, j: int|
        #![trigger s[i], s[j]]
        0 <= i < j < s.len() ==> s[i].account != s[j].account
}

/// The value that follows `n`: one more, wrapping at the top of the range.
/// Whatever `n` is, `next_nonce(n) != n`, which is what replay rejection
/// rests on.
pub open spec fn next_nonce(n: u128) -> u128 {
    if n == u128::MAX {
        0
    } else {
        (n + 1) as u128
    }
}

/// A key is present exactly when some index carries it.
pub proof fn lemma_has_nonce_key_exists(s: Seq<NonceEntry>, a: AccountId)
    ensures
        has_nonce_key(s, a) <==> exists|i: int| 0 <= i < s.len() && (#[trigger] s[i]).account == a,
    decreases s.len(),
{
    if s.len() > 0 {
        lemma_has_nonce_key_exists(s.drop_first(), a);
        if s[0].account == a {
            assert(s[0].account == a);
        } else if has_nonce_key(s.drop_first(), a) {
            let i = choose|i: int|
                0 <= i < s.drop_first().len() && (#[trigger] s.drop_first()[i]).account == a;
            assert(s[i + 1].account == a);
        } else {
            assert forall|i: int| 0 <= i < s.len() implies (#[trigger] s[i]).account != a by {
                if i > 0 {
                    assert(s.drop_first()[i - 1] == s[i]);
                }
            }
        }
    }
}

/// An absent account reads as zero.
pub proof fn lemma_absent_nonce_is_zero(s: Seq<NonceEntry>, a: AccountId)
    requires
        !has_nonce_key(s, a),
    ensures
        find_nonce(s, a) == 0,
    decreases s.len(),
{
    if s.len() > 0 {
        lemma_absent_nonce_is_zero(s.drop_first(), a);
    }
}

/// Reading the record that carries an account gives that account's nonce.
pub proof fn lemma_find_nonce_present(s: Seq<NonceEntry>, i: int, a: AccountId)
    requires
        0 <= i < s.len(),
        s[i].account == a,
        unique_nonce_keys(s),
    ensures
        find_nonce(s, a) == s[i].value,
    decreases i,
{
    if i > 0 {
        assert forall|p: int, q: int|
            #![trigger s.drop_first()[p], s.drop_first()[q]]
            0 <= p < q < s.drop_first().len() implies s.drop_first()[p].account
            != s.drop_first()[q].account by {
            assert(s.drop_first()[p] == s[p + 1]);
            assert(s.drop_first()[q] == s[q + 1]);
        }
        assert(s.drop_first()[i - 1] == s[i]);
        lemma_find_nonce_present(s.drop_first(), i - 1, a);
    }
}

/// Overwriting the record at `i` changes exactly that account's reading.
pub proof fn lemma_find_nonce_update(s: Seq<NonceEntry>, i: int, e: NonceEntry, a: AccountId)
    requires
        0 <= i < s.len(),
        s[i].account == e.account,
        unique_nonce_keys(s),
    ensures
        find_nonce(s.update(i, e), a) == if e.account == a {
            e.value
        } else {
            find_nonce(s, a)
        },
    decreases s.len(),
{
    if i == 0 {
        assert(s.update(0, e).drop_first() =~= s.drop_first());
    } else {
        assert(s.update(i, e).drop_first() =~= s.drop_first().update(i - 1, e));
        assert forall|p: int, q: int|
            #![trigger s.drop_first()[p], s.drop_first()[q]]
            0 <= p < q < s.drop_first().len() implies s.drop_first()[p].account
            != s.drop_first()[q].account by {
            assert(s.drop_first()[p] == s[p + 1]);
            assert(s.drop_first()[q] == s[q + 1]);
        }
        lemma_find_nonce_update(s.drop_first(), i - 1, e, a);
        assert(s.drop_first()[i - 1] == s[i]);
    }
}

/// Appending a record leaves present accounts unchanged and adds the new one.
pub proof fn lemma_find_nonce_push(s: Seq<NonceEntry>, e: NonceEntry, a: AccountId)
    ensures
        find_nonce(s.push(e), a) == if has_nonce_key(s, a) {
            find_nonce(s, a)
        } else if e.account == a {
            e.value
        } else {
            0
        },
    decreases s.len(),
{
    if s.len() == 0 {
        assert(s.push(e)[0] == e);
        assert(s.push(e).drop_first() =~= Seq::<NonceEntry>::empty());
        assert(find_nonce(Seq::<NonceEntry>::empty(), a) == 0);
    } else {
        assert(s.push(e)[0] == s[0]);
        assert(s.push(e).drop_first() =~= s.drop_first().push(e));
        lemma_find_nonce_push(s.drop_first(), e, a);
    }
}

/// The replay-counter registry. In the chain this ledger serves the
/// counters live with the external identity system; here they are the
/// part of the engine state that the signed-order verifier reads and the
/// executors advance.
#[derive(Clone, Debug)]
pub struct Nonces {
    pub entries: Vec<NonceEntry>,
}

impl Nonces {
    /// The nonce of account `a`.
    pub open spec fn spec_nonce(self, a: AccountId) -> u128 {
        find_nonce(self.entries@, a)
    }

    /// All nonces as one total map.
    pub open spec fn nonces_map(self) -> Map<AccountId, int> {
        Map::new(|a: AccountId| true, |a: AccountId| find_nonce(self.entries@, a) as int)
    }

    /// Well-formedness: one record per account.
    pub open spec fn wf(self) -> bool {
        unique_nonce_keys(self.entries@)
    }

    /// An empty registry: every account's nonce is zero.
    pub fn new() -> (r: Nonces)
        ensures
            r.wf(),
            r.entries@.len() == 0,
    {
        Nonces { entries: Vec::new() }
    }

    /// Index of the record of `a`, if one exists.
    fn find_index(&self, a: &AccountId) -> (r: Option<usize>)
        ensures
            match r {
                Some(i) => i < self.entries@.len() && self.entries@[i as int].account == *a,
                None => !has_nonce_key(self.entries@, *a),
            },
    {
        let n = self.entries.len();
        let mut i: usize = 0;
        while i < n
            invariant
                i <= n,
                n == self.entries@.len(),
                forall|j: int| 0 <= j < i ==> (#[trigger] self.entries@[j]).account != *a,
            decreases n - i,
        {
            if self.entries[i].account == *a {
                return Some(i);
            }
            i = i + 1;
        }
        proof {
            lemma_has_nonce_key_exists(self.entries@, *a);
        }
        None
    }

    /// The current replay counter of `account`; zero for an account never
    /// seen.
    pub fn account_nonce(&self, account: &AccountId) -> (r: u128)
        requires
            self.wf(),
        ensures
            r == self.spec_nonce(*account),
    {
        match self.find_index(account) {
            Some(i) => {
                proof {
                    lemma_find_nonce_present(self.entries@, i as int, *account);
                }
                self.entries[i].value
            },
            None => {
                proof {
                    lemma_absent_nonce_is_zero(self.entries@, *account);
                }
                0
            },
        }
    }

    /// Advances `account`'s counter by exactly one (wrapping at the top of
    /// the range), leaving every other account unchanged. Called only
    /// after a signed order's side effects have fully succeeded.
    pub(crate) fn increment_nonce(&mut self, account: AccountId)
        requires
            old(self).wf(),
        ensures
            final(self).wf(),
            forall|a: AccountId|
                #[trigger] find_nonce(final(self).entries@, a) == if a == account {
                    next_nonce(find_nonce(old(self).entries@, a))
                } else {
                    find_nonce(old(self).entries@, a)
                },
            final(self).nonces_map() == old(self).nonces_map().insert(
                account,
                next_nonce(find_nonce(old(self).entries@, account)) as int,
            ),
    {
        let ghost s0 = self.entries@;
        let current = self.account_nonce(&account);
        let bumped: u128 = if current == u128::MAX {
            0
        } else {
            current + 1
        };
        let e = NonceEntry { account, value: bumped };
        match self.find_index(&account) {
            Some(i) => {
                proof {
                    lemma_find_nonce_present(s0, i as int, account);
                }
                self.entries[i] = e;
                proof {
                    assert forall|a: AccountId|
                        #[trigger] find_nonce(self.entries@, a) == if a == account {
                            next_nonce(find_nonce(s0, a))
                        } else {
                            find_nonce(s0, a)
                        } by {
                        lemma_find_nonce_update(s0, i as int, e, a);
                    }
                }
            },
            None => {
                proof {
                    lemma_absent_nonce_is_zero(s0, account);
                    lemma_has_nonce_key_exists(s0, account);
                }
                self.entries.push(e);
                proof {
                    assert(self.entries@ == s0.push(e));
                    assert forall|p: int, q: int|
                        #![trigger self.entries@[p], self.entries@[q]]
                        0 <= p < q < self.entries@.len() implies self.entries@[p].account
                        != self.entries@[q].account by {
                        if q < s0.len() {
                            assert(self.entries@[p] == s0[p]);
                            assert(self.entries@[q] == s0[q]);
                        } else {
                            assert(self.entries@[q] == e);
                            assert(self.entries@[p] == s0[p]);
                        }
                    }
                    assert forall|a: AccountId|
                        #[trigger] find_nonce(self.entries@, a) == if a == account {
                            next_nonce(find_nonce(s0, a))
                        } else {
                            find_nonce(s0, a)
                        } by {
                        lemma_find_nonce_push(s0, e, a);
                        if a != account && !has_nonce_key(s0, a) {
                            lemma_absent_nonce_is_zero(s0, a);
                        }
                    }
                }
            },
        }
        proof {
            assert(self.nonces_map() =~= old(self).nonces_map().insert(
                account,
                next_nonce(find_nonce(old(self).entries@, account)) as int,
            ));
        }
    }
}

} // verus!
