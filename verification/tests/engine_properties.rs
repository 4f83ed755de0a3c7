//! Scenario tests for the engine's stated properties: replay rejection,
//! allowance consumption, error inputs, the canonical encoding, and
//! conservation across a mixed sequence of operations.

use prc20::encode_account;
use prc20::encode_offer;
use prc20::AccountId;
use prc20::BatchPolicy;
use prc20::Command;
use prc20::DelegatedTransferDetails;
use prc20::Engine;
use prc20::Error;
use prc20::Event;
use prc20::Offer;
use prc20::SignedDelegatedTransferDetails;
use prc20::SignedOffer;
use prc20::TokenTransferDetails;
use schnorrkel::ExpansionMode;
use schnorrkel::MiniSecretKey;
use schnorrkel::PublicKey;
use schnorrkel::SecretKey;

const SIGNING_CONTEXT: &[u8] = b"substrate";

fn account(n: u128) -> AccountId {
    AccountId { lo: n, hi: 0 }
}

fn keyring(seed: u8) -> (SecretKey, PublicKey) {
    let mini = MiniSecretKey::from_bytes(&[seed; 32]).unwrap();
    let secret = mini.expand(ExpansionMode::Ed25519);
    let public = secret.to_public();
    (secret, public)
}

fn account_of(public: &PublicKey) -> AccountId {
    let bytes = public.to_bytes();
    let mut lo = [0u8; 16];
    let mut hi = [0u8; 16];
    lo.copy_from_slice(&bytes[0..16]);
    hi.copy_from_slice(&bytes[16..32]);
    AccountId {
        lo: u128::from_le_bytes(lo),
        hi: u128::from_le_bytes(hi),
    }
}

fn sign_offer(secret: &SecretKey, public: &PublicKey, offer: &Offer) -> Vec<u8> {
    let message = encode_offer(offer);
    secret
        .sign_simple(SIGNING_CONTEXT, &message, public)
        .to_bytes()
        .to_vec()
}

#[test]
fn token_creation_scenario() {
    let mut engine = Engine::new();
    let alice = account(1);
    assert_eq!(
        engine.create_token(alice, 10000),
        Ok(Event::NewToken(0, alice, 10000))
    );
    assert_eq!(engine.token_count(), 1);
    assert_eq!(engine.balance_of(0, &alice), 10000);
    assert_eq!(engine.total_supply(0), 10000);
}

#[test]
fn replayed_offer_succeeds_once_then_incorrect_nonce() {
    let mut engine = Engine::new();
    let (_, alice_pk) = keyring(1);
    let (bob_secret, bob_pk) = keyring(2);
    let alice = account_of(&alice_pk);
    let bob = account_of(&bob_pk);
    assert!(engine.create_token(alice, 10000).is_ok());
    assert!(engine.create_token(bob, 10000).is_ok());
    let offer = Offer {
        offer_token: 1,
        offer_amount: 100,
        requested_token: 0,
        requested_amount: 50,
        nonce: 0,
    };
    let signed_offer = SignedOffer {
        offer,
        signer: bob,
        signature: sign_offer(&bob_secret, &bob_pk, &offer),
    };
    // The first submission executes
    assert!(engine.swap(alice, &signed_offer).is_ok());
    // The identical second submission is rejected: bob's nonce advanced
    assert_eq!(
        engine.swap(alice, &signed_offer),
        Err(Error::IncorrectNonce)
    );
    // and the rejection changed nothing
    assert_eq!(engine.balance_of(0, &bob), 50);
    assert_eq!(engine.balance_of(1, &bob), 9900);
    assert_eq!(engine.balance_of(0, &alice), 9950);
    assert_eq!(engine.balance_of(1, &alice), 100);
    assert_eq!(engine.account_nonce(&bob), 1);
}

#[test]
fn swap_with_corrupted_signature_is_rejected() {
    let mut engine = Engine::new();
    let (_, alice_pk) = keyring(1);
    let (bob_secret, bob_pk) = keyring(2);
    let alice = account_of(&alice_pk);
    let bob = account_of(&bob_pk);
    assert!(engine.create_token(alice, 10000).is_ok());
    assert!(engine.create_token(bob, 10000).is_ok());
    let offer = Offer {
        offer_token: 1,
        offer_amount: 100,
        requested_token: 0,
        requested_amount: 50,
        nonce: 0,
    };
    let mut signature = sign_offer(&bob_secret, &bob_pk, &offer);
    // flip one bit of the otherwise valid signature
    signature[0] ^= 1;
    let signed_offer = SignedOffer {
        offer,
        signer: bob,
        signature,
    };
    assert_eq!(
        engine.swap(alice, &signed_offer),
        Err(Error::InvalidSignature)
    );
    // nothing moved and the nonce did not advance
    assert_eq!(engine.balance_of(1, &bob), 10000);
    assert_eq!(engine.account_nonce(&bob), 0);
}

#[test]
fn swap_with_zero_amount_leg_is_permitted() {
    // A zero offer leg models a free gift, unlike a plain transfer which
    // rejects amount zero.
    let mut engine = Engine::new();
    let (_, alice_pk) = keyring(1);
    let (bob_secret, bob_pk) = keyring(2);
    let alice = account_of(&alice_pk);
    let bob = account_of(&bob_pk);
    assert!(engine.create_token(alice, 10000).is_ok());
    assert!(engine.create_token(bob, 10000).is_ok());
    let offer = Offer {
        offer_token: 1,
        offer_amount: 100,
        requested_token: 0,
        requested_amount: 0,
        nonce: 0,
    };
    let signed_offer = SignedOffer {
        offer,
        signer: bob,
        signature: sign_offer(&bob_secret, &bob_pk, &offer),
    };
    assert!(engine.swap(alice, &signed_offer).is_ok());
    assert_eq!(engine.balance_of(1, &alice), 100);
    assert_eq!(engine.balance_of(1, &bob), 9900);
    assert_eq!(engine.balance_of(0, &alice), 10000);
}

#[test]
fn allowance_consumed_exactly() {
    let mut engine = Engine::new();
    let owner = account(1);
    let spender = account(2);
    let to = account(3);
    assert!(engine.create_token(owner, 10000).is_ok());
    assert!(engine.approve(owner, spender, 0, 10).is_ok());
    let before = engine.balance_of(0, &to);
    assert!(engine.transfer_from(spender, owner, to, 0, 10).is_ok());
    // the allowance is fully consumed and the recipient got exactly 10
    assert_eq!(engine.allowance_of(0, &owner, &spender), 0);
    assert_eq!(engine.balance_of(0, &to), before + 10);
}

#[test]
fn transfer_of_zero_amount_is_rejected() {
    let mut engine = Engine::new();
    let alice = account(1);
    let bob = account(2);
    assert!(engine.create_token(alice, 10000).is_ok());
    assert_eq!(engine.transfer(alice, bob, 0, 0), Err(Error::ZeroAmount));
    assert_eq!(engine.balance_of(0, &alice), 10000);
}

#[test]
fn transfer_from_beyond_allowance_underflows() {
    let mut engine = Engine::new();
    let owner = account(1);
    let spender = account(2);
    let to = account(3);
    assert!(engine.create_token(owner, 10000).is_ok());
    assert!(engine.approve(owner, spender, 0, 5).is_ok());
    assert_eq!(
        engine.transfer_from(spender, owner, to, 0, 10),
        Err(Error::AllowanceUnderflow)
    );
    // the allowance was not touched
    assert_eq!(engine.allowance_of(0, &owner, &spender), 5);
    assert_eq!(engine.balance_of(0, &to), 0);
}

#[test]
fn token_limit_exceeded_at_counter_bound() {
    // Start from a state whose id counter sits at the top of its range.
    let mut engine = Engine::new();
    engine.ledger.token_count = u128::MAX;
    assert_eq!(
        engine.create_token(account(1), 10),
        Err(Error::TokenLimitExceeded)
    );
}

#[test]
fn apply_dispatches_commands() {
    let mut engine = Engine::new();
    let alice = account(1);
    let bob = account(2);
    assert_eq!(
        engine.apply(Command::CreateToken {
            origin: alice,
            total_supply: 10000
        }),
        Ok(Event::NewToken(0, alice, 10000))
    );
    assert_eq!(
        engine.apply(Command::Transfer {
            origin: alice,
            to: bob,
            id: 0,
            amount: 25
        }),
        Ok(Event::Transfer(0, alice, bob, 25))
    );
    assert_eq!(
        engine.apply(Command::Approve {
            origin: alice,
            spender: bob,
            id: 0,
            value: 7
        }),
        Ok(Event::Approval(0, alice, bob, 7))
    );
    assert_eq!(
        engine.apply(Command::TransferFrom {
            origin: bob,
            from: alice,
            to: bob,
            id: 0,
            value: 7
        }),
        Ok(Event::Transfer(0, alice, bob, 7))
    );
    assert_eq!(
        engine.apply(Command::MultiTransfer {
            origin: alice,
            id: 0,
            details: vec![TokenTransferDetails { amount: 3, to: bob }],
            policy: BatchPolicy::FailClosed
        }),
        Ok(Event::MultiTransfer(alice, vec![(bob, 3, true)]))
    );
    assert_eq!(engine.balance_of(0, &bob), 35);
    assert_eq!(engine.allowance_of(0, &alice, &bob), 0);
}

#[test]
fn apply_dispatches_signed_commands() {
    let mut engine = Engine::new();
    let (_, alice_pk) = keyring(1);
    let (bob_secret, bob_pk) = keyring(2);
    let alice = account_of(&alice_pk);
    let bob = account_of(&bob_pk);
    assert!(engine.create_token(alice, 1000).is_ok());
    assert!(engine.create_token(bob, 1000).is_ok());
    let offer = Offer {
        offer_token: 1,
        offer_amount: 10,
        requested_token: 0,
        requested_amount: 5,
        nonce: 0,
    };
    let signed_offer = SignedOffer {
        offer,
        signer: bob,
        signature: sign_offer(&bob_secret, &bob_pk, &offer),
    };
    assert_eq!(
        engine.apply(Command::Swap {
            origin: alice,
            signed_offer
        }),
        Ok(Event::Swap(1, 10, 0, 5, bob, alice))
    );
    let dtd = DelegatedTransferDetails {
        amount: 2,
        to: alice,
        nonce: 1,
    };
    let message = prc20::encode_delegated_transfer(&dtd);
    let signed = SignedDelegatedTransferDetails {
        transfer: dtd,
        signer: bob,
        signature: bob_secret
            .sign_simple(SIGNING_CONTEXT, &message, &bob_pk)
            .to_bytes()
            .to_vec(),
    };
    assert_eq!(
        engine.apply(Command::DelegatedTransfer {
            origin: alice,
            id: 0,
            signed
        }),
        Ok(Event::DelegatedTransfer(alice, bob, alice, 2))
    );
    assert_eq!(engine.account_nonce(&bob), 2);
}

#[test]
fn offer_encoding_is_five_little_endian_words() {
    let offer = Offer {
        offer_token: 1,
        offer_amount: 2,
        requested_token: 3,
        requested_amount: 0x0102,
        nonce: 5,
    };
    let bytes = encode_offer(&offer);
    let mut expected = Vec::new();
    expected.extend_from_slice(&1u128.to_le_bytes());
    expected.extend_from_slice(&2u128.to_le_bytes());
    expected.extend_from_slice(&3u128.to_le_bytes());
    expected.extend_from_slice(&0x0102u128.to_le_bytes());
    expected.extend_from_slice(&5u128.to_le_bytes());
    assert_eq!(bytes, expected);
    assert_eq!(bytes.len(), 80);
}

#[test]
fn pot_account_spells_the_module_tag() {
    let pot = prc20::pot::Module::account_id();
    let mut expected = Vec::new();
    expected.extend_from_slice(b"modlpy/burns");
    expected.extend_from_slice(&[0u8; 20]);
    assert_eq!(encode_account(&pot), expected);
}

#[test]
fn conservation_holds_across_a_mixed_sequence() {
    let mut engine = Engine::new();
    let (_, alice_pk) = keyring(1);
    let (bob_secret, bob_pk) = keyring(2);
    let alice = account_of(&alice_pk);
    let bob = account_of(&bob_pk);
    let carol = account(7);
    assert!(engine.create_token(alice, 10000).is_ok());
    assert!(engine.create_token(bob, 500).is_ok());
    assert!(engine.transfer(alice, carol, 0, 123).is_ok());
    assert!(engine.approve(alice, bob, 0, 50).is_ok());
    assert!(engine.transfer_from(bob, alice, bob, 0, 50).is_ok());
    let offer = Offer {
        offer_token: 1,
        offer_amount: 10,
        requested_token: 0,
        requested_amount: 20,
        nonce: 0,
    };
    let signed_offer = SignedOffer {
        offer,
        signer: bob,
        signature: sign_offer(&bob_secret, &bob_pk, &offer),
    };
    assert!(engine.swap(alice, &signed_offer).is_ok());
    // Every token's supply equals the sum over the accounts involved.
    for token in 0..2u128 {
        let sum = engine.balance_of(token, &alice)
            + engine.balance_of(token, &bob)
            + engine.balance_of(token, &carol);
        assert_eq!(sum, engine.total_supply(token));
    }
}
