//! The library's laws, stated over the same spec functions the public
//! contracts use and proved from them.

use vstd::prelude::*;

use crate::SignerError;
use crate::hexcode::hex_decode_spec;
use crate::hexcode::hex_encode_spec;
use crate::keys::mnemonic_entropy_of;
use crate::keys::public_key_of;
use crate::path::all_digits;
use crate::path::dec_value;
use crate::path::lemma_path_equivalence;
use crate::path::parse_path_spec;
use crate::path::payment_path_spec;
use crate::path::payment_path_string;
use crate::signer::Signer;
use crate::signer::mnemonic_key;
use crate::signer::parsed_tx;
use crate::signer::signed_tx_text;
use crate::signer::signed_view;
use crate::tx::TxView;
use crate::tx::WitnessView;
use crate::tx::sig_verifies;
use crate::tx::signature_of;
use crate::tx::tx_hash_of;
use crate::tx::tx_parse;
use crate::tx::witness_for;

verus! {

/// Law: derivation is deterministic. Any two signers built from the same
/// mnemonic and the same account and key indices hold the same raw key —
/// the constructors pin the key as a function of those inputs alone — so
/// `get_public_key` returns the same string for both, in any process.
pub proof fn lemma_mnemonic_determinism(
    s1: Signer,
    s2: Signer,
    phrase: Seq<char>,
    account_index: u32,
    key_index: u32,
)
    requires
        s1.key_view() == mnemonic_key(phrase, payment_path_spec(account_index, key_index)),
        s2.key_view() == mnemonic_key(phrase, payment_path_spec(account_index, key_index)),
    ensures
        s1.key_view() == s2.key_view(),
        hex_encode_spec(public_key_of(s1.key_view())) == hex_encode_spec(
            public_key_of(s2.key_view()),
        ),
{
}

/// Law: the public key export is idempotent. The string `get_public_key`
/// returns is pinned by its contract as a function of the signer alone, so
/// any two results from one signer are identical.
pub proof fn lemma_public_key_idempotent(s: Signer, r1: Seq<char>, r2: Seq<char>)
    requires
        r1 == hex_encode_spec(public_key_of(s.key_view())),
        r2 == hex_encode_spec(public_key_of(s.key_view())),
    ensures
        r1 == r2,
{
}

/// Law: path equivalence. A signer built from a mnemonic and the path
/// string `m/1852'/1815'/<a>'/0/<k>` holds the same key as one built from
/// the same mnemonic and the index pair `(a, k)`, for any decimal spellings
/// of `a` and `k`.
pub proof fn lemma_signer_path_equivalence(
    phrase: Seq<char>,
    sa: Seq<char>,
    sk: Seq<char>,
    account_index: u32,
    key_index: u32,
)
    requires
        sa.len() > 0,
        all_digits(sa),
        dec_value(sa) == account_index,
        account_index < 0x8000_0000,
        sk.len() > 0,
        all_digits(sk),
        dec_value(sk) == key_index,
        key_index < 0x8000_0000,
    ensures
        parse_path_spec(payment_path_string(sa, sk)) is Some,
        mnemonic_key(phrase, parse_path_spec(payment_path_string(sa, sk))->0) == mnemonic_key(
            phrase,
            payment_path_spec(account_index, key_index),
        ),
{
    lemma_path_equivalence(sa, sk, account_index, key_index);
}

proof fn lemma_witness_stays(ws: Seq<WitnessView>, w: WitnessView, x: WitnessView)
    ensures
        crate::tx::add_witness_spec(ws, w).contains(w),
        ws.contains(x) ==> crate::tx::add_witness_spec(ws, w).contains(x),
{
    if ws.contains(w) {
    } else {
        assert(ws.push(w)[ws.len() as int] == w);
        if ws.contains(x) {
            let i = choose|i: int| 0 <= i < ws.len() && ws[i] == x;
            assert(ws.push(w)[i] == x);
        }
    }
}

/// Law: signing is additive. Attaching a second signer's witness keeps
/// every witness that was already in the set — in particular the first
/// signer's — and adds the second signer's own; the body is untouched
/// throughout, so both witnesses sign the same payload.
pub proof fn lemma_multi_sign_additive(v: TxView, key1: Seq<u8>, key2: Seq<u8>)
    ensures
        signed_view(signed_view(v, key1), key2).wits.contains(witness_for(v, key1)),
        signed_view(signed_view(v, key1), key2).wits.contains(witness_for(v, key2)),
        forall|x: WitnessView|
            v.wits.contains(x) ==> #[trigger] signed_view(signed_view(v, key1), key2).wits.contains(
                x,
            ),
        signed_view(signed_view(v, key1), key2).body == v.body,
        witness_for(signed_view(v, key1), key2) == witness_for(v, key2),
{
    let v1 = signed_view(v, key1);
    let w1 = witness_for(v, key1);
    let w2 = witness_for(v1, key2);
    assert(v1.body == v.body);
    lemma_witness_stays(v.wits, w1, w1);
    lemma_witness_stays(v1.wits, w2, w1);
    assert forall|x: WitnessView| v.wits.contains(x) implies #[trigger] signed_view(
        signed_view(v, key1),
        key2,
    ).wits.contains(x) by {
        lemma_witness_stays(v.wits, w1, x);
        lemma_witness_stays(v1.wits, w2, x);
    }
}

/// Law: round-trip signing. When a transaction parses and is signed, the
/// returned hex decodes and parses back to the same transaction with the
/// signer's witness in its witness set; that witness carries the signer's
/// public key and a signature over the transaction hash that verifies
/// under it. The requires are exactly what `sign_transaction` ensures of a
/// success.
pub proof fn lemma_round_trip_signing(s: Signer, tx_hex: Seq<char>, out: Seq<char>)
    requires
        parsed_tx(tx_hex) is Some,
        hex_decode_spec(out) is Some,
        tx_parse(hex_decode_spec(out)->0) == Some(signed_view(parsed_tx(tx_hex)->0, s.key_view())),
        sig_verifies(
            public_key_of(s.key_view()),
            tx_hash_of(parsed_tx(tx_hex)->0.body),
            signature_of(s.key_view(), tx_hash_of(parsed_tx(tx_hex)->0.body)),
        ),
    ensures
        ({
            let v = parsed_tx(tx_hex)->0;
            let sv = tx_parse(hex_decode_spec(out)->0)->0;
            let w = witness_for(v, s.key_view());
            &&& sv.body == v.body
            &&& sv.wits.contains(w)
            &&& w.vkey == public_key_of(s.key_view())
            &&& sig_verifies(w.vkey, tx_hash_of(sv.body), w.sig)
        }),
{
    let v = parsed_tx(tx_hex)->0;
    let w = witness_for(v, s.key_view());
    lemma_witness_stays(v.wits, w, w);
}

/// Law: signing is deterministic. The string a successful sign returns is
/// pinned as a function of the transaction bytes and the held raw key
/// alone, so two calls with the same input — repeated on one signer, or on
/// two signers holding the same key, in any process — return the identical
/// string.
pub proof fn lemma_sign_deterministic(
    s1: Signer,
    s2: Signer,
    tx_hex: Seq<char>,
    r1: Seq<char>,
    r2: Seq<char>,
)
    requires
        s1.key_view() == s2.key_view(),
        r1 == signed_tx_text(tx_hex, s1.key_view()),
        r2 == signed_tx_text(tx_hex, s2.key_view()),
    ensures
        r1 == r2,
{
}

/// Law: an invalid mnemonic is rejected. With a resolvable path and a
/// phrase that fails validation, the constructor's contract forces the
/// mnemonic error and no signer, so no key is ever derived from the
/// phrase. The requires are exactly what `new_mnemonic_signer` ensures.
pub proof fn lemma_invalid_mnemonic_rejected(
    r: Result<Signer, SignerError>,
    phrase: Seq<char>,
    path: Seq<char>,
)
    requires
        parse_path_spec(path) is Some,
        mnemonic_entropy_of(phrase) is None,
        r is Ok <==> parse_path_spec(path) is Some && mnemonic_entropy_of(phrase) is Some,
        r is Err ==> r->Err_0 == (if parse_path_spec(path) is None {
            SignerError::InvalidDerivationPath
        } else {
            SignerError::InvalidMnemonic
        }),
    ensures
        r is Err,
        r->Err_0 == SignerError::InvalidMnemonic,
{
}

/// Law: malformed transaction hex is rejected. For an input that does not
/// decode to one well-formed item that parses, `sign_transaction`'s
/// contract forces the transaction error — and the call reads the signer
/// only, so nothing is mutated either way. The requires are exactly what
/// `sign_transaction` ensures.
pub proof fn lemma_invalid_transaction_rejected(
    r: Result<String, SignerError>,
    tx_hex: Seq<char>,
)
    requires
        parsed_tx(tx_hex) is None,
        r is Ok <==> parsed_tx(tx_hex) is Some,
        r is Err ==> r->Err_0 == SignerError::InvalidTransactionEncoding,
    ensures
        r is Err,
        r->Err_0 == SignerError::InvalidTransactionEncoding,
{
}

} // verus!
