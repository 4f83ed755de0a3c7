//! Signed-order verification.
//!
//! A signed order carries a body, a signature and a claimed signer. The
//! engine recomputes the body's canonical byte encoding and checks the
//! signature against the signer's public key (the bytes of the account id)
//! under the signing context used for ledger orders. The cryptographic
//! primitive itself is consumed, not implemented: an sr25519 verification
//! supplied by an outside library, trusted through a single wrapper.

use vstd::prelude::*;

use crate::encoding::account_bytes;
use crate::encoding::delegated_transfer_bytes;
use crate::encoding::encode_delegated_transfer;
use crate::encoding::encode_offer;
use crate::encoding::offer_bytes;
use crate::types::SignedDelegatedTransferDetails;
use crate::types::SignedOffer;

verus! {

/// Whether `signature` is a valid sr25519 signature on `message` by the
/// holder of `public_key`, under this ledger's signing context. The
/// verification is a pure function of the three byte strings; its
/// definition is the outside library's.
pub uninterp spec fn sr25519_verified(
    public_key: Seq<u8>,
    message: Seq<u8>,
    signature: Seq<u8>,
) -> bool;

/// Relies on schnorrkel's `PublicKey::verify_simple` (with
/// `PublicKey::from_bytes` and `Signature::from_bytes`): verification is
/// deterministic in the key, message and signature bytes alone, and a key
/// or signature that does not parse verifies nothing. The context bytes
/// `b"substrate"` match the convention of the chain this ledger serves.
#[verifier::external_body]
fn sr25519_verify(public_key: &Vec<u8>, message: &Vec<u8>, signature: &Vec<u8>) -> (r: bool)
    ensures
        r == sr25519_verified(public_key@, message@, signature@),
{
    let key = match schnorrkel::PublicKey::from_bytes(public_key.as_slice()) {
        Ok(key) => key,
        Err(_) => return false,
    };
    let sig = match schnorrkel::Signature::from_bytes(signature.as_slice()) {
        Ok(sig) => sig,
        Err(_) => return false,
    };
    key.verify_simple(b"substrate", message.as_slice(), &sig).is_ok()
}

/// Whether a signed offer's signature is valid: the claimed signer's key
/// over the offer's canonical encoding.
pub open spec fn offer_signature_valid(so: SignedOffer) -> bool {
    sr25519_verified(account_bytes(so.signer), offer_bytes(so.offer), so.signature@)
}

/// Whether a signed delegated transfer's signature is valid: the claimed
/// signer's key over the transfer body's canonical encoding.
pub open spec fn delegated_transfer_signature_valid(sd: SignedDelegatedTransferDetails) -> bool {
    sr25519_verified(
        account_bytes(sd.signer),
        delegated_transfer_bytes(sd.transfer),
        sd.signature@,
    )
}

/// Checks that `so.signature` was made by `so.signer` over the canonical
/// encoding of `so.offer`.
pub fn verify_offer_signature(so: &SignedOffer) -> (r: bool)
    ensures
        r == offer_signature_valid(*so),
{
    let message = encode_offer(&so.offer);
    let key = crate::encoding::encode_account(&so.signer);
    sr25519_verify(&key, &message, &so.signature)
}

/// Checks that `sd.signature` was made by `sd.signer` over the canonical
/// encoding of `sd.transfer`.
pub fn verify_dtd_signature(sd: &SignedDelegatedTransferDetails) -> (r: bool)
    ensures
        r == delegated_transfer_signature_valid(*sd),
{
    let message = encode_delegated_transfer(&sd.transfer);
    let key = crate::encoding::encode_account(&sd.signer);
    sr25519_verify(&key, &message, &sd.signature)
}

} // verus!
