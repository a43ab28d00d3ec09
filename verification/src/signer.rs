//! The signer: a stateful handle holding exactly one raw key pair, derived
//! from a mnemonic, from a bech32 extended private key, or supplied directly
//! as hex. It is immutable after construction; signing reads the key and
//! never changes the signer, so one signer may sign any number of
//! transactions, and the exported public key never changes.

use vstd::prelude::*;

use crate::SignerError;
use crate::cbor::cbor_well_formed;
use crate::cbor::check_tx_bytes;
use crate::cbor::tx_sections_ok;
use crate::hexcode::decode_hex;
use crate::hexcode::encode_hex;
use crate::hexcode::hex_decode_spec;
use crate::hexcode::hex_encode_spec;
use crate::hexcode::lemma_hex_round_trip;
use crate::keys::SigningKey;
use crate::keys::bech32_xprv_of;
use crate::keys::derive_path;
use crate::keys::derive_seq;
use crate::keys::entropy_from_mnemonic;
use crate::keys::master_from_entropy;
use crate::keys::master_key_of;
use crate::keys::mnemonic_entropy_of;
use crate::keys::public_key_bytes;
use crate::keys::public_key_of;
use crate::keys::raw_key_from_extended_bytes;
use crate::keys::raw_key_from_normal_bytes;
use crate::keys::raw_key_from_xprv;
use crate::keys::xprv_from_bech32;
use crate::path::DerivationPath;
use crate::path::parse_path_spec;
use crate::path::payment_path_spec;
use crate::tx::TxView;
use crate::tx::add_witness_spec;
use crate::tx::sig_verifies;
use crate::tx::sign_and_add_witness;
use crate::tx::signature_of;
use crate::tx::tx_from_bytes;
use crate::tx::tx_hash_of;
use crate::tx::tx_bytes_of;
use crate::tx::tx_parse;
use crate::tx::tx_to_bytes;
use crate::tx::witness_for;

verus! {

/// The raw signing key a mnemonic resolves to along a path: the master key
/// grown from the phrase's entropy, walked down the path, reduced to a raw
/// key — the derived extended key's first 64 bytes.
pub open spec fn mnemonic_key(phrase: Seq<char>, path: Seq<u32>) -> Seq<u8>
    recommends
        mnemonic_entropy_of(phrase) is Some,
{
    derive_seq(master_key_of(mnemonic_entropy_of(phrase)->0), path).subrange(0, 64)
}

/// The raw signing key a bech32 extended private key resolves to along a
/// path.
pub open spec fn bech32_key(text: Seq<char>, path: Seq<u32>) -> Seq<u8>
    recommends
        bech32_xprv_of(text) is Some,
{
    derive_seq(bech32_xprv_of(text)->0, path).subrange(0, 64)
}

/// The raw signing key a hex text stands for: its bytes, which must be a
/// 32-byte plain key or a 64-byte extended one.
pub open spec fn cli_key(s: Seq<char>) -> Option<Seq<u8>> {
    match hex_decode_spec(s) {
        Option::Some(b) => if b.len() == 32 || b.len() == 64 {
            Option::Some(b)
        } else {
            Option::None
        },
        Option::None => Option::None,
    }
}

/// What a transaction hex text parses to: its bytes must be one
/// well-formed CBOR item whose body element holds no empty byte string and
/// whose witness-set element holds no major-7 form, and those bytes must
/// parse as a transaction.
pub open spec fn parsed_tx(s: Seq<char>) -> Option<TxView> {
    match hex_decode_spec(s) {
        Option::Some(b) => if cbor_well_formed(b) && tx_sections_ok(b) {
            tx_parse(b)
        } else {
            Option::None
        },
        Option::None => Option::None,
    }
}

/// The hex text `sign_transaction` returns for a transaction hex that
/// parses: the codec's serialization after one witness by `key`.
pub open spec fn signed_tx_text(tx_hex: Seq<char>, key: Seq<u8>) -> Seq<char> {
    hex_encode_spec(tx_bytes_of(hex_decode_spec(tx_hex)->0, seq![key]))
}

/// A transaction after one signer's witness is attached.
pub open spec fn signed_view(v: TxView, key: Seq<u8>) -> TxView {
    TxView { wits: add_witness_spec(v.wits, witness_for(v, key)), ..v }
}

/// A handle holding one raw key pair. The public half is kept beside the
/// key and always equals the key's public key.
pub struct Signer {
    key: SigningKey,
    public_key: Vec<u8>,
}

impl Signer {
    /// The held raw signing key, as its serialization.
    pub closed spec fn key_view(self) -> Seq<u8> {
        self.key@
    }

    #[verifier::type_invariant]
    spec fn wf(self) -> bool {
        self.public_key@ == public_key_of(self.key@)
    }

    fn from_signing_key(key: SigningKey) -> (r: Signer)
        ensures
            r.key_view() == key@,
    {
        let public_key = public_key_bytes(&key);
        Signer { key, public_key }
    }

    /// The held public key, hex-encoded. A pure read: the result is a
    /// function of the held key alone, so repeated calls return the
    /// identical string.
    pub fn get_public_key(&self) -> (r: String)
        ensures
            r@ == hex_encode_spec(public_key_of(self.key_view())),
    {
        proof {
            use_type_invariant(self);
        }
        encode_hex(&self.public_key)
    }

    /// Sign a hex-encoded transaction: decode it, check that the bytes are
    /// one well-formed CBOR item, parse them, attach this signer's witness
    /// to the witness set, and return the re-encoded result.
    /// Succeeds exactly when the input decodes and parses; the signer itself
    /// is unchanged. The result decodes to the input transaction with this
    /// signer's witness added — existing witnesses all stay — and the new
    /// witness's signature verifies under this signer's public key.
    pub fn sign_transaction(&self, tx_hex: &str) -> (r: Result<String, SignerError>)
        ensures
            r is Ok <==> parsed_tx(tx_hex@) is Some,
            r is Err ==> r->Err_0 == SignerError::InvalidTransactionEncoding,
            r is Ok ==> hex_decode_spec(r->Ok_0@) is Some && tx_parse(
                hex_decode_spec(r->Ok_0@)->0,
            ) == Some(signed_view(parsed_tx(tx_hex@)->0, self.key_view())),
            r is Ok ==> sig_verifies(
                public_key_of(self.key_view()),
                tx_hash_of(parsed_tx(tx_hex@)->0.body),
                signature_of(self.key_view(), tx_hash_of(parsed_tx(tx_hex@)->0.body)),
            ),
            r is Ok ==> r->Ok_0@ == signed_tx_text(tx_hex@, self.key_view()),
    {
        let bytes = match decode_hex(tx_hex) {
            Option::Some(b) => b,
            Option::None => {
                return Err(SignerError::InvalidTransactionEncoding);
            },
        };
        if !check_tx_bytes(&bytes) {
            return Err(SignerError::InvalidTransactionEncoding);
        }
        let mut tx = match tx_from_bytes(&bytes) {
            Option::Some(t) => t,
            Option::None => {
                return Err(SignerError::InvalidTransactionEncoding);
            },
        };
        sign_and_add_witness(&mut tx, &self.key);
        let out = tx_to_bytes(&tx);
        let encoded = encode_hex(&out);
        proof {
            lemma_hex_round_trip(out@);
            assert(tx.signed_with() =~= seq![self.key_view()]);
        }
        Ok(encoded)
    }
}

/// Build a signer from a mnemonic phrase and a path string. Fails with
/// `InvalidDerivationPath` exactly when the path does not resolve, else with
/// `InvalidMnemonic` exactly when the phrase fails validation.
pub fn new_mnemonic_signer(mnemonic_phrase: &str, derivation_path: &str) -> (r: Result<
    Signer,
    SignerError,
>)
    ensures
        r is Ok <==> parse_path_spec(derivation_path@) is Some && mnemonic_entropy_of(
            mnemonic_phrase@,
        ) is Some,
        r is Ok ==> r->Ok_0.key_view() == mnemonic_key(
            mnemonic_phrase@,
            parse_path_spec(derivation_path@)->0,
        ),
        r is Err ==> r->Err_0 == (if parse_path_spec(derivation_path@) is None {
            SignerError::InvalidDerivationPath
        } else {
            SignerError::InvalidMnemonic
        }),
{
    let path = match DerivationPath::parse(derivation_path) {
        Ok(p) => p,
        Err(e) => {
            return Err(e);
        },
    };
    mnemonic_signer_at(mnemonic_phrase, path)
}

/// Build a signer from a mnemonic phrase and the fixed payment path for an
/// account and key index. Fails with `InvalidDerivationPath` exactly when an
/// index has the hardening bit set, else with `InvalidMnemonic` exactly when
/// the phrase fails validation.
pub fn new_mnemonic_signer_indexed(
    mnemonic_phrase: &str,
    account_index: u32,
    key_index: u32,
) -> (r: Result<Signer, SignerError>)
    ensures
        r is Ok <==> account_index < 0x8000_0000 && key_index < 0x8000_0000
            && mnemonic_entropy_of(mnemonic_phrase@) is Some,
        r is Ok ==> r->Ok_0.key_view() == mnemonic_key(
            mnemonic_phrase@,
            payment_path_spec(account_index, key_index),
        ),
        r is Err ==> r->Err_0 == (if !(account_index < 0x8000_0000 && key_index < 0x8000_0000) {
            SignerError::InvalidDerivationPath
        } else {
            SignerError::InvalidMnemonic
        }),
{
    let path = match DerivationPath::from_indices(account_index, key_index) {
        Ok(p) => p,
        Err(e) => {
            return Err(e);
        },
    };
    mnemonic_signer_at(mnemonic_phrase, path)
}

fn mnemonic_signer_at(mnemonic_phrase: &str, path: DerivationPath) -> (r: Result<
    Signer,
    SignerError,
>)
    ensures
        r is Ok <==> mnemonic_entropy_of(mnemonic_phrase@) is Some,
        r is Ok ==> r->Ok_0.key_view() == mnemonic_key(mnemonic_phrase@, path@),
        r is Err ==> r->Err_0 == SignerError::InvalidMnemonic,
{
    let entropy = match entropy_from_mnemonic(mnemonic_phrase) {
        Option::Some(e) => e,
        Option::None => {
            return Err(SignerError::InvalidMnemonic);
        },
    };
    let root = master_from_entropy(&entropy);
    let key = raw_key_from_xprv(derive_path(root, &path));
    Ok(Signer::from_signing_key(key))
}

/// Build a signer from a bech32 extended private key and a path string.
/// Fails with `InvalidDerivationPath` exactly when the path does not
/// resolve, else with `InvalidKeyEncoding` exactly when the text does not
/// decode to an extended private key.
pub fn new_bech32_signer(root_private_key: &str, derivation_path: &str) -> (r: Result<
    Signer,
    SignerError,
>)
    ensures
        r is Ok <==> parse_path_spec(derivation_path@) is Some && bech32_xprv_of(
            root_private_key@,
        ) is Some,
        r is Ok ==> r->Ok_0.key_view() == bech32_key(
            root_private_key@,
            parse_path_spec(derivation_path@)->0,
        ),
        r is Err ==> r->Err_0 == (if parse_path_spec(derivation_path@) is None {
            SignerError::InvalidDerivationPath
        } else {
            SignerError::InvalidKeyEncoding
        }),
{
    let path = match DerivationPath::parse(derivation_path) {
        Ok(p) => p,
        Err(e) => {
            return Err(e);
        },
    };
    bech32_signer_at(root_private_key, path)
}

/// Build a signer from a bech32 extended private key and the fixed payment
/// path for an account and key index.
pub fn new_bech32_signer_indexed(
    root_private_key: &str,
    account_index: u32,
    key_index: u32,
) -> (r: Result<Signer, SignerError>)
    ensures
        r is Ok <==> account_index < 0x8000_0000 && key_index < 0x8000_0000 && bech32_xprv_of(
            root_private_key@,
        ) is Some,
        r is Ok ==> r->Ok_0.key_view() == bech32_key(
            root_private_key@,
            payment_path_spec(account_index, key_index),
        ),
        r is Err ==> r->Err_0 == (if !(account_index < 0x8000_0000 && key_index < 0x8000_0000) {
            SignerError::InvalidDerivationPath
        } else {
            SignerError::InvalidKeyEncoding
        }),
{
    let path = match DerivationPath::from_indices(account_index, key_index) {
        Ok(p) => p,
        Err(e) => {
            return Err(e);
        },
    };
    bech32_signer_at(root_private_key, path)
}

fn bech32_signer_at(root_private_key: &str, path: DerivationPath) -> (r: Result<
    Signer,
    SignerError,
>)
    ensures
        r is Ok <==> bech32_xprv_of(root_private_key@) is Some,
        r is Ok ==> r->Ok_0.key_view() == bech32_key(root_private_key@, path@),
        r is Err ==> r->Err_0 == SignerError::InvalidKeyEncoding,
{
    let root = match xprv_from_bech32(root_private_key) {
        Option::Some(k) => k,
        Option::None => {
            return Err(SignerError::InvalidKeyEncoding);
        },
    };
    let key = raw_key_from_xprv(derive_path(root, &path));
    Ok(Signer::from_signing_key(key))
}

/// Build a signer directly from a hex-encoded raw signing key: 32 bytes for
/// a plain key, 64 for an extended one. No derivation applies. Fails with
/// `InvalidKeyEncoding` exactly when the hex does not decode or the length
/// fits neither kind.
pub fn new_cli_signer(ed25519_key: &str) -> (r: Result<Signer, SignerError>)
    ensures
        r is Ok <==> cli_key(ed25519_key@) is Some,
        r is Ok ==> r->Ok_0.key_view() == cli_key(ed25519_key@)->0,
        r is Err ==> r->Err_0 == SignerError::InvalidKeyEncoding,
{
    let bytes = match decode_hex(ed25519_key) {
        Option::Some(b) => b,
        Option::None => {
            return Err(SignerError::InvalidKeyEncoding);
        },
    };
    let key = if bytes.len() == 32 {
        match raw_key_from_normal_bytes(&bytes) {
            Option::Some(k) => k,
            Option::None => {
                return Err(SignerError::InvalidKeyEncoding);
            },
        }
    } else if bytes.len() == 64 {
        match raw_key_from_extended_bytes(&bytes) {
            Option::Some(k) => k,
            Option::None => {
                return Err(SignerError::InvalidKeyEncoding);
            },
        }
    } else {
        return Err(SignerError::InvalidKeyEncoding);
    };
    Ok(Signer::from_signing_key(key))
}

} // verus!
