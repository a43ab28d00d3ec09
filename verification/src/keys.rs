//! Key material: extended private keys, raw signing keys, and the child-key
//! derivation chain. The cryptography lives in the outside library; each call
//! into it stands behind a trusted item whose contract names the result as a
//! function of the serialized key bytes. The derivation chain itself — one
//! child step per path level, in path order — is verified here.
//!
//! A raw signing key is modelled by its byte serialization: 32 bytes for a
//! plain key, 64 for an extended one, and the length tells the two kinds
//! apart. An extended private key is modelled by its 96-byte serialization.

use vstd::prelude::*;

use crate::path::DerivationPath;

verus! {

#[verifier::external_type_specification]
#[verifier::external_body]
pub struct ExBip32PrivateKey(cardano_serialization_lib::Bip32PrivateKey);

#[verifier::external_type_specification]
#[verifier::external_body]
pub struct ExPrivateKey(cardano_serialization_lib::PrivateKey);

/// The entropy a mnemonic phrase stands for, or nothing when the phrase
/// fails wordlist or checksum validation.
pub uninterp spec fn mnemonic_entropy_of(phrase: Seq<char>) -> Option<Seq<u8>>;

/// The master extended private key grown from entropy with an empty password.
pub uninterp spec fn master_key_of(entropy: Seq<u8>) -> Seq<u8>;

/// The extended private key a bech32 text stands for, or nothing when the
/// text is not a valid encoding of one.
pub uninterp spec fn bech32_xprv_of(text: Seq<char>) -> Option<Seq<u8>>;

/// The child extended private key at one index.
pub uninterp spec fn child_key_of(parent: Seq<u8>, index: u32) -> Seq<u8>;

/// The public key of a raw signing key.
pub uninterp spec fn public_key_of(raw: Seq<u8>) -> Seq<u8>;

/// An extended private key (key material plus chain code) of the outside
/// library. Its view is its 96-byte serialization.
pub struct ExtendedKey {
    key: cardano_serialization_lib::Bip32PrivateKey,
    repr: Ghost<Seq<u8>>,
}

impl View for ExtendedKey {
    type V = Seq<u8>;

    closed spec fn view(&self) -> Seq<u8> {
        self.repr@
    }
}

/// A raw signing key of the outside library. Its view is its serialization:
/// 32 bytes for a plain key, 64 for an extended one.
pub struct SigningKey {
    key: cardano_serialization_lib::PrivateKey,
    repr: Ghost<Seq<u8>>,
}

impl View for SigningKey {
    type V = Seq<u8>;

    closed spec fn view(&self) -> Seq<u8> {
        self.repr@
    }
}

impl SigningKey {
    /// Borrow the underlying key for a trusted call.
    pub(crate) fn inner(&self) -> &cardano_serialization_lib::PrivateKey {
        &self.key
    }
}

/// Relies on bip39::Mnemonic::from_phrase with the English wordlist, and on
/// Mnemonic::entropy: validation and the entropy are functions of the phrase
/// alone, and from_phrase fails exactly when the phrase fails wordlist or
/// checksum validation.
#[verifier::external_body]
pub(crate) fn entropy_from_mnemonic(phrase: &str) -> (r: Option<Vec<u8>>)
    ensures
        r is Some <==> mnemonic_entropy_of(phrase@) is Some,
        r is Some ==> r->0@ == mnemonic_entropy_of(phrase@)->0,
{
    match bip39::Mnemonic::from_phrase(phrase, bip39::Language::English) {
        Ok(m) => Some(m.entropy().to_vec()),
        Err(_) => None,
    }
}

/// Relies on Bip32PrivateKey::from_bip39_entropy with an empty password: the
/// master key is a function of the entropy alone, serialized in 96 bytes.
#[verifier::external_body]
pub(crate) fn master_from_entropy(entropy: &Vec<u8>) -> (r: ExtendedKey)
    ensures
        r@ == master_key_of(entropy@),
        r@.len() == 96,
{
    ExtendedKey {
        key: cardano_serialization_lib::Bip32PrivateKey::from_bip39_entropy(
            entropy.as_slice(),
            &[],
        ),
        repr: Ghost(Seq::empty()),
    }
}

/// Relies on Bip32PrivateKey::from_bech32: decoding is a function of the text
/// alone, it fails exactly when the text is not a valid bech32 extended
/// private key, and a decoded key serializes in 96 bytes.
#[verifier::external_body]
pub(crate) fn xprv_from_bech32(text: &str) -> (r: Option<ExtendedKey>)
    ensures
        r is Some <==> bech32_xprv_of(text@) is Some,
        r is Some ==> r->0@ == bech32_xprv_of(text@)->0 && r->0@.len() == 96,
{
    match cardano_serialization_lib::Bip32PrivateKey::from_bech32(text) {
        Ok(key) => Some(ExtendedKey { key, repr: Ghost(Seq::empty()) }),
        Err(_) => None,
    }
}

/// Relies on Bip32PrivateKey::derive: the child key is a function of the
/// parent key and the index alone, serialized in 96 bytes. The parent is
/// consumed; key material does not outlive the chain.
#[verifier::external_body]
pub(crate) fn derive_child(parent: ExtendedKey, index: u32) -> (r: ExtendedKey)
    ensures
        r@ == child_key_of(parent@, index),
        r@.len() == 96,
{
    ExtendedKey { key: parent.key.derive(index), repr: Ghost(Seq::empty()) }
}

/// Relies on Bip32PrivateKey::to_raw_key: the raw extended signing key is
/// exactly the first 64 bytes of the 96-byte extended key — the extended
/// secret, without the chain code.
#[verifier::external_body]
pub(crate) fn raw_key_from_xprv(xprv: ExtendedKey) -> (r: SigningKey)
    requires
        xprv@.len() == 96,
    ensures
        r@ == xprv@.subrange(0, 64),
{
    SigningKey { key: xprv.key.to_raw_key(), repr: Ghost(Seq::empty()) }
}

/// Relies on PrivateKey::from_normal_bytes: it accepts exactly 32 bytes, and
/// the key then serializes back to those bytes.
#[verifier::external_body]
pub(crate) fn raw_key_from_normal_bytes(bytes: &Vec<u8>) -> (r: Option<SigningKey>)
    ensures
        r is Some <==> bytes@.len() == 32,
        r is Some ==> r->0@ == bytes@,
{
    match cardano_serialization_lib::PrivateKey::from_normal_bytes(bytes.as_slice()) {
        Ok(key) => Some(SigningKey { key, repr: Ghost(Seq::empty()) }),
        Err(_) => None,
    }
}

/// Relies on PrivateKey::from_extended_bytes: it accepts exactly 64 bytes,
/// and the key then serializes back to those bytes.
#[verifier::external_body]
pub(crate) fn raw_key_from_extended_bytes(bytes: &Vec<u8>) -> (r: Option<SigningKey>)
    ensures
        r is Some <==> bytes@.len() == 64,
        r is Some ==> r->0@ == bytes@,
{
    match cardano_serialization_lib::PrivateKey::from_extended_bytes(bytes.as_slice()) {
        Ok(key) => Some(SigningKey { key, repr: Ghost(Seq::empty()) }),
        Err(_) => None,
    }
}

/// Relies on PrivateKey::to_public and PublicKey::as_bytes: the public key is
/// a function of the signing key alone, 32 bytes.
#[verifier::external_body]
pub(crate) fn public_key_bytes(key: &SigningKey) -> (r: Vec<u8>)
    ensures
        r@ == public_key_of(key@),
        r@.len() == 32,
{
    key.key.to_public().as_bytes()
}

/// The key at the end of a derivation chain: child derivation applied once
/// per index, left to right.
pub open spec fn derive_seq(root: Seq<u8>, indices: Seq<u32>) -> Seq<u8>
    decreases indices.len(),
{
    if indices.len() == 0 {
        root
    } else {
        derive_seq(child_key_of(root, indices[0]), indices.drop_first())
    }
}

/// Walk the whole derivation path: a strict left fold of child derivation
/// over the path, consuming each intermediate key.
pub fn derive_path(root: ExtendedKey, path: &DerivationPath) -> (r: ExtendedKey)
    requires
        root@.len() == 96,
    ensures
        r@ == derive_seq(root@, path@),
        r@.len() == 96,
{
    let ghost goal: Seq<u8> = derive_seq(root@, path@);
    proof {
        assert(path@.skip(0) =~= path@);
    }
    let n = path.len();
    let mut cur = root;
    let mut i: usize = 0;
    while i < n
        invariant
            n == path@.len(),
            i <= n,
            cur@.len() == 96,
            derive_seq(cur@, path@.skip(i as int)) == goal,
        decreases n - i,
    {
        proof {
            assert(path@.skip(i as int)[0] == path@[i as int]);
            assert(path@.skip(i as int).drop_first() =~= path@.skip(i + 1));
        }
        cur = derive_child(cur, path.index_at(i));
        i = i + 1;
    }
    proof {
        assert(path@.skip(n as int) =~= Seq::<u32>::empty());
    }
    cur
}

} // verus!
