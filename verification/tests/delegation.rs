//! Delegated transfers: a payer signs off-chain, a relayer submits.

use prc20::AccountId;
use prc20::DelegatedTransferDetails;
use prc20::Engine;
use prc20::Error;
use prc20::SignedDelegatedTransferDetails;
use schnorrkel::ExpansionMode;
use schnorrkel::MiniSecretKey;
use schnorrkel::PublicKey;
use schnorrkel::SecretKey;

const SIGNING_CONTEXT: &[u8] = b"substrate";

fn keyring(seed: u8) -> (SecretKey, PublicKey) {
    let mini = MiniSecretKey::from_bytes(&[seed; 32]).unwrap();
    let secret = mini.expand(ExpansionMode::Ed25519);
    let public = secret.to_public();
    (secret, public)
}

fn account_of(public: &PublicKey) -> AccountId {
    let bytes = public.to_bytes();
    let mut lo = [0u8; 16];
    let mut hi = [0u8; 16];
    lo.copy_from_slice(&bytes[0..16]);
    hi.copy_from_slice(&bytes[16..32]);
    AccountId {
        lo: u128::from_le_bytes(lo),
        hi: u128::from_le_bytes(hi),
    }
}

fn sign_dtd(
    secret: &SecretKey,
    public: &PublicKey,
    dtd: &DelegatedTransferDetails,
) -> Vec<u8> {
    let message = prc20::encode_delegated_transfer(dtd);
    secret
        .sign_simple(SIGNING_CONTEXT, &message, public)
        .to_bytes()
        .to_vec()
}

/// Token 0 with alice and bob each holding 1000.
fn setup(alice: AccountId, bob: AccountId) -> Engine {
    let mut engine = Engine::new();
    assert!(engine.create_token(alice, 2000).is_ok());
    assert!(engine.transfer(alice, bob, 0, 1000).is_ok());
    engine
}

#[test]
fn delegated_transfer_works() {
    // Bob tries a free transfer to his friend Eve; Alice acts as the fee
    // delegator interacting with the ledger.
    let (_, alice_pk) = keyring(1);
    let (bob_secret, bob_pk) = keyring(2);
    let (_, eve_pk) = keyring(5);
    let alice = account_of(&alice_pk);
    let bob = account_of(&bob_pk);
    let eve = account_of(&eve_pk);
    let mut engine = setup(alice, bob);
    let bob_balance = engine.balance_of(0, &bob);
    let eve_balance = engine.balance_of(0, &eve);
    let alice_balance = engine.balance_of(0, &alice);
    let transfer_amount = 100;
    // Bob creates a delegated transfer detail
    let dtd = DelegatedTransferDetails {
        amount: transfer_amount,
        to: eve,
        nonce: 0,
    };
    // Bob signs this dtd
    let signed_dtd = SignedDelegatedTransferDetails {
        transfer: dtd,
        signer: bob,
        signature: sign_dtd(&bob_secret, &bob_pk, &dtd),
    };
    // Fee delegator Alice broadcasts this transaction for Bob
    assert!(engine.delegated_transfer(alice, 0, &signed_dtd).is_ok());
    // Bob's balance is reduced
    assert_eq!(engine.balance_of(0, &bob), bob_balance - transfer_amount);
    // Eve's balance is increased
    assert_eq!(engine.balance_of(0, &eve), eve_balance + transfer_amount);
    // Alice's balance is unchanged
    assert_eq!(engine.balance_of(0, &alice), alice_balance);
    // Bob's nonce advanced
    assert_eq!(engine.account_nonce(&bob), 1);
}

#[test]
fn delegated_transfer_fails_if_wrong_nonce() {
    let (_, alice_pk) = keyring(1);
    let (_, bob_pk) = keyring(2);
    let (eve_secret, eve_pk) = keyring(5);
    let alice = account_of(&alice_pk);
    let bob = account_of(&bob_pk);
    let eve = account_of(&eve_pk);
    let mut engine = setup(alice, bob);
    let bob_balance = engine.balance_of(0, &bob);
    let eve_balance = engine.balance_of(0, &eve);
    let alice_balance = engine.balance_of(0, &alice);
    let transfer_amount = 100;
    // Eve creates a delegated transfer detail with the wrong nonce!
    let dtd = DelegatedTransferDetails {
        amount: transfer_amount,
        to: bob,
        nonce: 5,
    };
    // Eve signs this dtd
    let signed_dtd = SignedDelegatedTransferDetails {
        transfer: dtd,
        signer: eve,
        signature: sign_dtd(&eve_secret, &eve_pk, &dtd),
    };
    // assert it errors saying incorrect nonce
    assert_eq!(
        engine.delegated_transfer(alice, 0, &signed_dtd),
        Err(Error::IncorrectNonce)
    );
    // Everyone's balance is unchanged
    assert_eq!(engine.balance_of(0, &bob), bob_balance);
    assert_eq!(engine.balance_of(0, &eve), eve_balance);
    assert_eq!(engine.balance_of(0, &alice), alice_balance);
}

#[test]
fn delegated_transfer_fails_if_wrong_signature() {
    let (_, alice_pk) = keyring(1);
    let (bob_secret, bob_pk) = keyring(2);
    let (_, eve_pk) = keyring(5);
    let alice = account_of(&alice_pk);
    let bob = account_of(&bob_pk);
    let eve = account_of(&eve_pk);
    let mut engine = setup(alice, bob);
    let bob_balance = engine.balance_of(0, &bob);
    let eve_balance = engine.balance_of(0, &eve);
    let alice_balance = engine.balance_of(0, &alice);
    let transfer_amount = 100;
    let dtd = DelegatedTransferDetails {
        amount: transfer_amount,
        to: bob,
        nonce: 5,
    };
    // Bob signs this dtd, though Eve is the claimed signer: an invalid
    // signature
    let signed_dtd = SignedDelegatedTransferDetails {
        transfer: dtd,
        signer: eve,
        signature: sign_dtd(&bob_secret, &bob_pk, &dtd),
    };
    // assert it errors saying wrong signature
    assert_eq!(
        engine.delegated_transfer(alice, 0, &signed_dtd),
        Err(Error::InvalidSignature)
    );
    // Everyone's balance is unchanged
    assert_eq!(engine.balance_of(0, &bob), bob_balance);
    assert_eq!(engine.balance_of(0, &eve), eve_balance);
    assert_eq!(engine.balance_of(0, &alice), alice_balance);
}
