use cardano_serialization_lib as csl;
use hd_signer::SignerError;
use whisky_wallet::MnemonicWallet;
use whisky_wallet::Wallet;
use whisky_wallet::WalletType;
use whisky_wallet::derivation_indices::DerivationIndices;
use hd_signer::signer::new_bech32_signer;
use hd_signer::signer::new_bech32_signer_indexed;
use hd_signer::signer::new_cli_signer;
use hd_signer::signer::new_mnemonic_signer;
use hd_signer::signer::new_mnemonic_signer_indexed;

const MNEMONIC: &str =
    "abandon abandon abandon abandon abandon abandon abandon abandon abandon abandon abandon about";
const BAD_CHECKSUM: &str =
    "abandon abandon abandon abandon abandon abandon abandon abandon abandon abandon abandon abandon";
const PATH: &str = "m/1852'/1815'/0'/0/0";

#[test]
fn public_key_is_deterministic_across_constructions() {
    let s1 = new_mnemonic_signer(MNEMONIC, PATH).unwrap();
    let s2 = new_mnemonic_signer(MNEMONIC, PATH).unwrap();
    assert_eq!(s1.get_public_key(), s2.get_public_key());
}

#[test]
fn public_key_export_is_idempotent() {
    let s = new_mnemonic_signer(MNEMONIC, PATH).unwrap();
    let first = s.get_public_key();
    let second = s.get_public_key();
    assert_eq!(first, second);
}

#[test]
fn path_string_and_index_pair_agree() {
    let by_string = new_mnemonic_signer(MNEMONIC, PATH).unwrap();
    let by_indices = new_mnemonic_signer_indexed(MNEMONIC, 0, 0).unwrap();
    assert_eq!(by_string.get_public_key(), by_indices.get_public_key());
    let by_string7 = new_mnemonic_signer(MNEMONIC, "m/1852'/1815'/7'/0/3").unwrap();
    let by_indices7 = new_mnemonic_signer_indexed(MNEMONIC, 7, 3).unwrap();
    assert_eq!(by_string7.get_public_key(), by_indices7.get_public_key());
    assert_ne!(by_string.get_public_key(), by_string7.get_public_key());
}

#[test]
fn matches_reference_wallet_public_key() {
    let signer = new_mnemonic_signer_indexed(MNEMONIC, 0, 0).unwrap();
    let account = Wallet::get_account(&WalletType::MnemonicWallet(MnemonicWallet {
        mnemonic_phrase: MNEMONIC.to_string(),
        derivation_indices: DerivationIndices::payment(0, 0),
    }))
    .unwrap();
    assert_eq!(signer.get_public_key(), account.public_key.to_hex());
}

#[test]
fn bech32_root_key_agrees_with_mnemonic() {
    // The mnemonic above encodes all-zero entropy; growing the same master
    // key directly and walking the same path must give the same key pair.
    let root = csl::Bip32PrivateKey::from_bip39_entropy(&[0u8; 16], &[]);
    let bech = root.to_bech32();
    let from_bech = new_bech32_signer(&bech, PATH).unwrap();
    let from_mnemonic = new_mnemonic_signer(MNEMONIC, PATH).unwrap();
    assert_eq!(from_bech.get_public_key(), from_mnemonic.get_public_key());
    let indexed = new_bech32_signer_indexed(&bech, 0, 0).unwrap();
    assert_eq!(indexed.get_public_key(), from_bech.get_public_key());
}

#[test]
fn cli_signer_matches_reference_public_key() {
    let bytes: Vec<u8> = (1u8..33u8).collect();
    let hex: String = bytes.iter().map(|b| format!("{:02x}", b)).collect();
    let signer = new_cli_signer(&hex).unwrap();
    let reference = csl::PrivateKey::from_hex(&hex).unwrap();
    assert_eq!(signer.get_public_key(), reference.to_public().to_hex());
}

#[test]
fn cli_signer_accepts_extended_key() {
    let root = csl::Bip32PrivateKey::from_bip39_entropy(&[7u8; 16], &[]);
    let raw = root.to_raw_key();
    let hex = raw.to_hex();
    let signer = new_cli_signer(&hex).unwrap();
    assert_eq!(signer.get_public_key(), raw.to_public().to_hex());
}

#[test]
fn cli_signer_accepts_upper_case_hex() {
    let bytes: Vec<u8> = (1u8..33u8).collect();
    let lower: String = bytes.iter().map(|b| format!("{:02x}", b)).collect();
    let upper = lower.to_uppercase();
    let a = new_cli_signer(&lower).unwrap();
    let b = new_cli_signer(&upper).unwrap();
    assert_eq!(a.get_public_key(), b.get_public_key());
}

#[test]
fn public_key_is_lower_case_hex() {
    let s = new_mnemonic_signer(MNEMONIC, PATH).unwrap();
    let pk = s.get_public_key();
    assert_eq!(pk.len(), 64);
    assert!(pk.chars().all(|c| c.is_ascii_hexdigit() && !c.is_ascii_uppercase()));
}

#[test]
fn wrong_checksum_mnemonic_is_rejected() {
    assert_eq!(
        new_mnemonic_signer(BAD_CHECKSUM, PATH).err().unwrap(),
        SignerError::InvalidMnemonic
    );
    assert_eq!(
        new_mnemonic_signer_indexed(BAD_CHECKSUM, 0, 0).err().unwrap(),
        SignerError::InvalidMnemonic
    );
    assert_eq!(
        new_mnemonic_signer("not a phrase", PATH).err().unwrap(),
        SignerError::InvalidMnemonic
    );
}

#[test]
fn bad_path_is_rejected_before_the_phrase() {
    assert_eq!(
        new_mnemonic_signer(MNEMONIC, "m/oops").err().unwrap(),
        SignerError::InvalidDerivationPath
    );
    assert_eq!(
        new_mnemonic_signer(BAD_CHECKSUM, "m/oops").err().unwrap(),
        SignerError::InvalidDerivationPath
    );
    assert_eq!(
        new_mnemonic_signer_indexed(MNEMONIC, 0x8000_0000, 0).err().unwrap(),
        SignerError::InvalidDerivationPath
    );
}

#[test]
fn bad_bech32_key_is_rejected() {
    assert_eq!(
        new_bech32_signer("not-bech32", PATH).err().unwrap(),
        SignerError::InvalidKeyEncoding
    );
    assert_eq!(
        new_bech32_signer_indexed("not-bech32", 0, 0).err().unwrap(),
        SignerError::InvalidKeyEncoding
    );
}

#[test]
fn bad_cli_key_is_rejected() {
    assert_eq!(new_cli_signer("zz").err().unwrap(), SignerError::InvalidKeyEncoding);
    assert_eq!(new_cli_signer("abc").err().unwrap(), SignerError::InvalidKeyEncoding);
    // valid hex, but neither 32 nor 64 bytes
    assert_eq!(new_cli_signer("0011").err().unwrap(), SignerError::InvalidKeyEncoding);
}
