//! Batched transfers under both insufficiency policies.

use prc20::AccountId;
use prc20::BatchPolicy;
use prc20::Engine;
use prc20::Error;
use prc20::Event;
use prc20::TokenTransferDetails;

fn account(n: u128) -> AccountId {
    AccountId { lo: n, hi: 0 }
}

#[test]
fn lib_multi_transfer_works() {
    let mut engine = Engine::new();
    let sender = account(0);
    let one = account(1);
    let two = account(2);
    // the sender starts with 10000
    assert!(engine.create_token(sender, 10000).is_ok());
    // create first transfer details struct
    let first_transfer = TokenTransferDetails { amount: 1000, to: one };
    // create second transfer details struct
    let second_transfer = TokenTransferDetails { amount: 5, to: two };
    // Create a vector of these transfer details structs
    let transfer_vec = vec![first_transfer, second_transfer];
    // Do a multi transfer
    assert!(engine
        .multi_transfer(sender, 0, &transfer_vec, BatchPolicy::SkipAndReport)
        .is_ok());
    // 1 has 1000 balance
    assert_eq!(engine.balance_of(0, &one), 1000);
    // 2 has 5 balance
    assert_eq!(engine.balance_of(0, &two), 5);
    // 0 has total - 1005 balance
    assert_eq!(engine.balance_of(0, &sender), 8995);
}

#[test]
fn multi_transfer_fails_when_over_limit() {
    let mut engine = Engine::new();
    let sender = account(0);
    let one = account(1);
    let first_transfer = TokenTransferDetails { amount: 1000, to: one };
    // Create a vector over the limit (current limit set to 100)
    let mut transfer_vec = Vec::new();
    for _x in 0..200 {
        transfer_vec.push(first_transfer);
    }
    // Do a multi transfer, assert it errors saying limit exceeded
    assert_eq!(
        engine.multi_transfer(sender, 0, &transfer_vec, BatchPolicy::SkipAndReport),
        Err(Error::LimitExceeded)
    );
}

#[test]
fn lib_multi_transfer_fails_sequentially() {
    // if the sender cannot cover all items, the first items in the vec
    // have priority and go through
    let mut engine = Engine::new();
    let sender = account(0);
    let one = account(1);
    let two = account(2);
    assert!(engine.create_token(sender, 10000).is_ok());
    let first_transfer = TokenTransferDetails { amount: 10000, to: one };
    let second_transfer = TokenTransferDetails { amount: 100, to: two };
    let transfer_vec = vec![first_transfer, second_transfer];
    assert!(engine
        .multi_transfer(sender, 0, &transfer_vec, BatchPolicy::SkipAndReport)
        .is_ok());
    // 1 should have 10000
    assert_eq!(engine.balance_of(0, &one), 10000);
    // 2 didn't receive anything since 0 ran out
    assert_eq!(engine.balance_of(0, &two), 0);
    // 0 has nothing left
    assert_eq!(engine.balance_of(0, &sender), 0);
}

#[test]
fn misc_multi_transfer_works() {
    let mut engine = Engine::new();
    let sender = account(0);
    let one = account(1);
    let two = account(2);
    assert!(engine.create_token(sender, 10000).is_ok());
    let first_transfer = TokenTransferDetails { amount: 1000, to: one };
    let second_transfer = TokenTransferDetails { amount: 5, to: two };
    let transfer_vec = vec![first_transfer, second_transfer];
    assert!(engine
        .multi_transfer(sender, 0, &transfer_vec, BatchPolicy::SkipAndReport)
        .is_ok());
    assert_eq!(engine.balance_of(0, &one), 1000);
    assert_eq!(engine.balance_of(0, &two), 5);
    assert_eq!(engine.balance_of(0, &sender), 8995);
}

#[test]
fn multi_transfer_fails_sequentiallyy() {
    let mut engine = Engine::new();
    let sender = account(0);
    let one = account(1);
    let two = account(2);
    assert!(engine.create_token(sender, 10000).is_ok());
    let first_transfer = TokenTransferDetails { amount: 10000, to: one };
    let second_transfer = TokenTransferDetails { amount: 100, to: two };
    let transfer_vec = vec![first_transfer, second_transfer];
    assert!(engine
        .multi_transfer(sender, 0, &transfer_vec, BatchPolicy::SkipAndReport)
        .is_ok());
    // 1 has 10000
    assert_eq!(engine.balance_of(0, &one), 10000);
    // 2 didn't receive anything since 0 ran out
    assert_eq!(engine.balance_of(0, &two), 0);
    // 0 has total - 0
    assert_eq!(engine.balance_of(0, &sender), 0);
}

#[test]
fn token_multi_transfer_works() {
    let mut engine = Engine::new();
    let alice = account(1);
    let bob = account(2);
    let charlie = account(3);
    // Alice creates token 0
    assert!(engine.create_token(alice, 10000).is_ok());
    let first_transfer = TokenTransferDetails { amount: 5, to: bob };
    let second_transfer = TokenTransferDetails { amount: 5, to: charlie };
    let transfer_vec = vec![first_transfer, second_transfer];
    // do a multi transfer from alice's account
    assert!(engine
        .multi_transfer(alice, 0, &transfer_vec, BatchPolicy::SkipAndReport)
        .is_ok());
    // Bob has 5 token 0
    assert_eq!(engine.balance_of(0, &bob), 5);
    // Charlie has 5 token 0
    assert_eq!(engine.balance_of(0, &charlie), 5);
    // Alice has 9990 token 0
    assert_eq!(engine.balance_of(0, &alice), 9990);
}

#[test]
fn token_multi_transfer_fails_sequentially() {
    let mut engine = Engine::new();
    let alice = account(1);
    let bob = account(2);
    let charlie = account(3);
    // Alice creates token 0
    assert!(engine.create_token(alice, 10000).is_ok());
    let first_transfer = TokenTransferDetails { amount: 10000, to: bob };
    let second_transfer = TokenTransferDetails { amount: 5, to: charlie };
    let transfer_vec = vec![first_transfer, second_transfer];
    let _partial_transfer_result =
        engine.multi_transfer(alice, 0, &transfer_vec, BatchPolicy::SkipAndReport);
    // Bob has 10000 token 0
    assert_eq!(engine.balance_of(0, &bob), 10000);
    // Alice has 0 token 0
    assert_eq!(engine.balance_of(0, &alice), 0);
    // Charlie has 0 token 0 since the second transfer failed
    assert_eq!(engine.balance_of(0, &charlie), 0);
}

#[test]
fn fail_closed_batch_stops_at_first_failure() {
    let mut engine = Engine::new();
    let sender = account(1);
    let a = account(2);
    let b = account(3);
    assert!(engine.create_token(sender, 10000).is_ok());
    let items = vec![
        TokenTransferDetails { amount: 10000, to: a },
        TokenTransferDetails { amount: 5, to: b },
    ];
    // The first item drains the sender, so the second propagates its
    // failure; the first keeps its effect.
    assert_eq!(
        engine.multi_transfer(sender, 0, &items, BatchPolicy::FailClosed),
        Err(Error::InsufficientBalance)
    );
    assert_eq!(engine.balance_of(0, &a), 10000);
    assert_eq!(engine.balance_of(0, &sender), 0);
    assert_eq!(engine.balance_of(0, &b), 0);
}

#[test]
fn skip_and_report_batch_reports_in_order() {
    let mut engine = Engine::new();
    let sender = account(1);
    let a = account(2);
    let b = account(3);
    assert!(engine.create_token(sender, 10000).is_ok());
    let items = vec![
        TokenTransferDetails { amount: 10000, to: a },
        TokenTransferDetails { amount: 5, to: b },
    ];
    let result = engine
        .multi_transfer(sender, 0, &items, BatchPolicy::SkipAndReport)
        .unwrap();
    assert_eq!(
        result,
        Event::MultiTransfer(sender, vec![(a, 10000, true), (b, 5, false)])
    );
}

#[test]
fn fail_closed_batch_reports_all_successes() {
    let mut engine = Engine::new();
    let sender = account(1);
    let a = account(2);
    let b = account(3);
    assert!(engine.create_token(sender, 10000).is_ok());
    let items = vec![
        TokenTransferDetails { amount: 5, to: a },
        TokenTransferDetails { amount: 7, to: b },
    ];
    let result = engine
        .multi_transfer(sender, 0, &items, BatchPolicy::FailClosed)
        .unwrap();
    assert_eq!(
        result,
        Event::MultiTransfer(sender, vec![(a, 5, true), (b, 7, true)])
    );
    assert_eq!(engine.balance_of(0, &sender), 9988);
}
