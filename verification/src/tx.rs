//! Transactions at the signing boundary. The binary codec is the outside
//! library's business; here a transaction is modelled by what the codec
//! guarantees to preserve: the body bytes, the ordered list of key witnesses,
//! the validity flag and the auxiliary data. Signing appends one witness —
//! the signer's public key and its signature over the transaction hash —
//! and never drops or replaces an existing one.

use vstd::prelude::*;

use crate::cbor::cbor_well_formed;
use crate::cbor::tx_sections_ok;
use crate::keys::SigningKey;
use crate::keys::public_key_of;

verus! {

#[verifier::external_type_specification]
#[verifier::external_body]
pub struct ExFixedTransaction(cardano_serialization_lib::FixedTransaction);

/// One key witness: a public key and its signature.
pub ghost struct WitnessView {
    pub vkey: Seq<u8>,
    pub sig: Seq<u8>,
}

/// What the codec reads out of, and writes back into, a transaction.
pub ghost struct TxView {
    /// The body bytes, kept verbatim.
    pub body: Seq<u8>,
    /// The key witnesses, in order.
    pub wits: Seq<WitnessView>,
    /// The validity flag.
    pub is_valid: bool,
    /// The auxiliary data bytes, if any.
    pub aux: Option<Seq<u8>>,
    /// An abstract stand-in for everything else the codec reads and
    /// preserves — the witness set's other sections (bootstrap witnesses,
    /// scripts, redeemers) and their encoding detail. Signing leaves it
    /// untouched.
    pub rest: Seq<u8>,
}

/// What a byte string parses to, or nothing when it is not a valid
/// transaction encoding.
pub uninterp spec fn tx_parse(bytes: Seq<u8>) -> Option<TxView>;

/// The hash of a transaction body, the payload every witness signs.
pub uninterp spec fn tx_hash_of(body: Seq<u8>) -> Seq<u8>;

/// The signature a raw signing key produces over a message.
pub uninterp spec fn signature_of(key: Seq<u8>, message: Seq<u8>) -> Seq<u8>;

/// Whether a signature verifies over a message under a public key.
pub uninterp spec fn sig_verifies(public_key: Seq<u8>, message: Seq<u8>, sig: Seq<u8>) -> bool;

/// The witness a signing key contributes to a transaction: its public key,
/// and its signature over the transaction hash.
pub open spec fn witness_for(v: TxView, key: Seq<u8>) -> WitnessView {
    WitnessView { vkey: public_key_of(key), sig: signature_of(key, tx_hash_of(v.body)) }
}

/// Witness attachment is additive and idempotent: an already-present witness
/// is not added twice, and no existing witness is dropped.
pub open spec fn add_witness_spec(wits: Seq<WitnessView>, w: WitnessView) -> Seq<WitnessView> {
    if wits.contains(w) {
        wits
    } else {
        wits.push(w)
    }
}

/// A transaction with its signable body and witness set, parsed and held by
/// the outside codec. Its view is the model above; beside it the bytes it
/// was parsed from and the keys whose witnesses were added since, which
/// together determine the codec's serialization of it.
pub struct Transaction {
    inner: cardano_serialization_lib::FixedTransaction,
    model: Ghost<TxView>,
    origin: Ghost<Seq<u8>>,
    signed_with: Ghost<Seq<Seq<u8>>>,
}

impl View for Transaction {
    type V = TxView;

    closed spec fn view(&self) -> TxView {
        self.model@
    }
}

impl Transaction {
    /// The bytes this transaction was parsed from.
    pub closed spec fn origin(&self) -> Seq<u8> {
        self.origin@
    }

    /// The raw signing keys whose witnesses were added since parsing, in
    /// order.
    pub closed spec fn signed_with(&self) -> Seq<Seq<u8>> {
        self.signed_with@
    }
}

/// The bytes the codec serializes a transaction to, as a function of the
/// bytes it was parsed from and the keys signed with since, in order —
/// parsing, signing and serialization are all deterministic.
pub uninterp spec fn tx_bytes_of(origin: Seq<u8>, keys: Seq<Seq<u8>>) -> Seq<u8>;

/// Relies on FixedTransaction::from_bytes: parsing is a function of the bytes
/// alone and fails exactly when they are not a valid transaction encoding.
/// Its deserializer unwraps some primitive reads — byte-string reads, the
/// break assertion of the two witness-list loops, and the first byte of an
/// address — so it is only handed bytes that passed the structural scan:
/// one complete CBOR item, definite string lengths only, no reserved
/// length forms, no empty byte string inside the body element, no major-7
/// item inside the witness-set element. Within such an item every
/// primitive read returns, the witness loops never meet a stray special
/// value, and every address read has a first byte.
#[verifier::external_body]
pub(crate) fn tx_from_bytes(bytes: &Vec<u8>) -> (r: Option<Transaction>)
    requires
        cbor_well_formed(bytes@),
        tx_sections_ok(bytes@),
    ensures
        r is Some <==> tx_parse(bytes@) is Some,
        r is Some ==> r->0@ == tx_parse(bytes@)->0,
        r is Some ==> r->0.origin() == bytes@ && r->0.signed_with() == Seq::<Seq<u8>>::empty(),
{
    match cardano_serialization_lib::FixedTransaction::from_bytes(bytes.clone()) {
        Ok(inner) => {
            let ghost m = TxView { body: Seq::empty(), wits: Seq::empty(), is_valid: true, aux: Option::None, rest: Seq::empty() };
            Some(Transaction { inner, model: Ghost(m), origin: Ghost(Seq::empty()), signed_with: Ghost(Seq::empty()) })
        },
        Err(_) => None,
    }
}

/// Relies on FixedTransaction::sign_and_add_vkey_signature, which builds the
/// witness with make_vkey_witness (PrivateKey::to_public, PrivateKey::sign
/// over the transaction hash) and appends it with Vkeywitnesses::add, a
/// no-op when an identical witness is already present; nothing else of the
/// transaction changes. The last clause relies on Ed25519 sign/verify
/// consistency: a signature verifies under the signing key's public key.
#[verifier::external_body]
pub(crate) fn sign_and_add_witness(tx: &mut Transaction, key: &SigningKey)
    ensures
        final(tx)@ == (TxView {
            wits: add_witness_spec(old(tx)@.wits, witness_for(old(tx)@, key@)),
            ..old(tx)@
        }),
        sig_verifies(
            public_key_of(key@),
            tx_hash_of(old(tx)@.body),
            signature_of(key@, tx_hash_of(old(tx)@.body)),
        ),
        final(tx).origin() == old(tx).origin(),
        final(tx).signed_with() == old(tx).signed_with().push(key@),
{
    let _ = tx.inner.sign_and_add_vkey_signature(key.inner());
}

/// Relies on FixedTransaction::to_bytes: it serializes the body, auxiliary
/// bytes and untouched witness sections verbatim and the key witnesses
/// canonically, so the bytes parse back to the same transaction; and it is
/// deterministic, a function of the state left by parsing and signing.
#[verifier::external_body]
pub(crate) fn tx_to_bytes(tx: &Transaction) -> (r: Vec<u8>)
    ensures
        tx_parse(r@) == Some(tx@),
        r@ == tx_bytes_of(tx.origin(), tx.signed_with()),
{
    tx.inner.to_bytes()
}

} // verus!
