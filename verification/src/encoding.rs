//! Canonical byte encoding of signed payloads.
//!
//! A signed order is authorized by a signature over a deterministic byte
//! serialization of its body; signer and verifier must produce identical
//! bytes. Every integer field is laid out as 16 little-endian bytes, and a
//! struct is the concatenation of its fields in declaration order, so the
//! encoding of an [`Offer`] is 80 bytes and the encoding of a
//! [`DelegatedTransferDetails`] is 64 bytes.

use vstd::prelude::*;

use crate::types::AccountId;
use crate::types::DelegatedTransferDetails;
use crate::types::Offer;

verus! {

/// The 16 little-endian bytes of `x`: byte `i` holds bits `8*i .. 8*i+8`.
pub open spec fn u128_le_bytes(x: u128) -> Seq<u8> {
    Seq::new(16, |i: int| (x >> (8 * i)) as u8)
}

/// The 32 bytes of an account id: the `lo` word first, then the `hi` word,
/// each little-endian. These are the bytes of the account's public key.
pub open spec fn account_bytes(a: AccountId) -> Seq<u8> {
    u128_le_bytes(a.lo) + u128_le_bytes(a.hi)
}

/// Canonical encoding of an offer: its five fields, in order.
pub open spec fn offer_bytes(o: Offer) -> Seq<u8> {
    u128_le_bytes(o.offer_token) + u128_le_bytes(o.offer_amount) + u128_le_bytes(
        o.requested_token,
    ) + u128_le_bytes(o.requested_amount) + u128_le_bytes(o.nonce)
}

/// Canonical encoding of a delegated transfer body: amount, recipient,
/// nonce, in order.
pub open spec fn delegated_transfer_bytes(d: DelegatedTransferDetails) -> Seq<u8> {
    u128_le_bytes(d.amount) + account_bytes(d.to) + u128_le_bytes(d.nonce)
}

/// Appends the 16 little-endian bytes of `x` to `out`.
fn push_u128_le(out: &mut Vec<u8>, x: u128)
    ensures
        final(out)@ == old(out)@ + u128_le_bytes(x),
{
    let ghost base = out@;
    let mut i: usize = 0;
    while i < 16
        invariant
            i <= 16,
            out@.len() == base.len() + i,
            forall|j: int| 0 <= j < base.len() ==> out@[j] == base[j],
            forall|j: int|
                0 <= j < i ==> out@[base.len() + j] == #[trigger] u128_le_bytes(x)[j],
        decreases 16 - i,
    {
        let shift: u32 = 8 * (i as u32);
        let byte: u8 = (x >> shift) as u8;
        out.push(byte);
        i = i + 1;
    }
    proof {
        assert(out@ =~= base + u128_le_bytes(x));
    }
}

/// Appends the 32 bytes of `a` to `out`.
fn push_account(out: &mut Vec<u8>, a: &AccountId)
    ensures
        final(out)@ == old(out)@ + account_bytes(*a),
{
    push_u128_le(out, a.lo);
    push_u128_le(out, a.hi);
    proof {
        assert(out@ =~= old(out)@ + account_bytes(*a));
    }
}

/// The canonical 32 bytes of an account id, used as its public key.
pub fn encode_account(a: &AccountId) -> (r: Vec<u8>)
    ensures
        r@ == account_bytes(*a),
{
    let mut out: Vec<u8> = Vec::new();
    push_account(&mut out, a);
    proof {
        assert(out@ =~= account_bytes(*a));
    }
    out
}

/// The canonical 80 bytes of an offer: what a maker signs and what the
/// swap executor verifies.
pub fn encode_offer(o: &Offer) -> (r: Vec<u8>)
    ensures
        r@ == offer_bytes(*o),
{
    let mut out: Vec<u8> = Vec::new();
    push_u128_le(&mut out, o.offer_token);
    push_u128_le(&mut out, o.offer_amount);
    push_u128_le(&mut out, o.requested_token);
    push_u128_le(&mut out, o.requested_amount);
    push_u128_le(&mut out, o.nonce);
    proof {
        assert(out@ =~= offer_bytes(*o));
    }
    out
}

/// The canonical 64 bytes of a delegated transfer body: what the paying
/// sender signs and what the executor verifies.
pub fn encode_delegated_transfer(d: &DelegatedTransferDetails) -> (r: Vec<u8>)
    ensures
        r@ == delegated_transfer_bytes(*d),
{
    let mut out: Vec<u8> = Vec::new();
    push_u128_le(&mut out, d.amount);
    push_account(&mut out, &d.to);
    push_u128_le(&mut out, d.nonce);
    proof {
        assert(out@ =~= delegated_transfer_bytes(*d));
    }
    out
}

} // verus!
