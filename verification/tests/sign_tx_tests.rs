use cardano_serialization_lib as csl;
use hd_signer::SignerError;
use whisky_wallet::MnemonicWallet;
use whisky_wallet::Wallet;
use whisky_wallet::WalletType;
use whisky_wallet::derivation_indices::DerivationIndices;
use hd_signer::signer::Signer;
use hd_signer::signer::new_mnemonic_signer_indexed;

const MNEMONIC: &str =
    "abandon abandon abandon abandon abandon abandon abandon abandon abandon abandon abandon about";

fn to_hex(bytes: &[u8]) -> String {
    bytes.iter().map(|b| format!("{:02x}", b)).collect()
}

fn from_hex(s: &str) -> Vec<u8> {
    (0..s.len())
        .step_by(2)
        .map(|i| u8::from_str_radix(&s[i..i + 2], 16).unwrap())
        .collect()
}

/// A minimal valid transaction: one input, one output, a fee.
fn sample_tx_hex() -> String {
    let tx_id = csl::TransactionHash::from_bytes(vec![9u8; 32]).unwrap();
    let input = csl::TransactionInput::new(&tx_id, 0);
    let mut inputs = csl::TransactionInputs::new();
    inputs.add(&input);
    let key_hash = csl::Ed25519KeyHash::from_bytes(vec![3u8; 28]).unwrap();
    let credential = csl::Credential::from_keyhash(&key_hash);
    let address = csl::EnterpriseAddress::new(0, &credential).to_address();
    let amount = csl::Value::new(&csl::BigNum::from(1_000_000u64));
    let output = csl::TransactionOutput::new(&address, &amount);
    let mut outputs = csl::TransactionOutputs::new();
    outputs.add(&output);
    let fee = csl::BigNum::from(170_000u64);
    let body = csl::TransactionBody::new_tx_body(&inputs, &outputs, &fee);
    let fixed = csl::FixedTransaction::new_from_body_bytes(&body.to_bytes()).unwrap();
    to_hex(&fixed.to_bytes())
}

fn decode_tx(hex: &str) -> csl::FixedTransaction {
    csl::FixedTransaction::from_bytes(from_hex(hex)).unwrap()
}

#[test]
fn signed_transaction_carries_a_verifying_witness() {
    let signer = new_mnemonic_signer_indexed(MNEMONIC, 0, 0).unwrap();
    let tx_hex = sample_tx_hex();
    let signed_hex = signer.sign_transaction(&tx_hex).unwrap();
    let original = decode_tx(&tx_hex);
    let signed = decode_tx(&signed_hex);
    assert_eq!(signed.raw_body(), original.raw_body());
    let vkeys = signed.witness_set().vkeys().unwrap();
    assert_eq!(vkeys.len(), 1);
    let witness = vkeys.get(0);
    let public_key = witness.vkey().public_key();
    assert_eq!(public_key.to_hex(), signer.get_public_key());
    let hash = signed.transaction_hash().to_bytes();
    assert!(public_key.verify(&hash, &witness.signature()));
}

#[test]
fn second_signer_keeps_the_first_witness() {
    let signer1 = new_mnemonic_signer_indexed(MNEMONIC, 0, 0).unwrap();
    let signer2 = new_mnemonic_signer_indexed(MNEMONIC, 1, 0).unwrap();
    assert_ne!(signer1.get_public_key(), signer2.get_public_key());
    let tx_hex = sample_tx_hex();
    let once = signer1.sign_transaction(&tx_hex).unwrap();
    let twice = signer2.sign_transaction(&once).unwrap();
    let signed = decode_tx(&twice);
    let vkeys = signed.witness_set().vkeys().unwrap();
    assert_eq!(vkeys.len(), 2);
    let keys: Vec<String> = (0..vkeys.len())
        .map(|i| vkeys.get(i).vkey().public_key().to_hex())
        .collect();
    assert!(keys.contains(&signer1.get_public_key()));
    assert!(keys.contains(&signer2.get_public_key()));
    let hash = signed.transaction_hash().to_bytes();
    for i in 0..vkeys.len() {
        let w = vkeys.get(i);
        assert!(w.vkey().public_key().verify(&hash, &w.signature()));
    }
}

#[test]
fn signing_twice_with_one_key_adds_one_witness() {
    let signer = new_mnemonic_signer_indexed(MNEMONIC, 0, 0).unwrap();
    let tx_hex = sample_tx_hex();
    let once = signer.sign_transaction(&tx_hex).unwrap();
    let twice = signer.sign_transaction(&once).unwrap();
    let vkeys = decode_tx(&twice).witness_set().vkeys().unwrap();
    assert_eq!(vkeys.len(), 1);
}

#[test]
fn signing_matches_reference_wallet() {
    let signer = new_mnemonic_signer_indexed(MNEMONIC, 0, 0).unwrap();
    let account = Wallet::get_account(&WalletType::MnemonicWallet(MnemonicWallet {
        mnemonic_phrase: MNEMONIC.to_string(),
        derivation_indices: DerivationIndices::payment(0, 0),
    }))
    .unwrap();
    let tx_hex = sample_tx_hex();
    let ours = signer.sign_transaction(&tx_hex).unwrap();
    let reference = account.sign_transaction(&tx_hex).unwrap();
    assert_eq!(ours, reference);
}

#[test]
fn signer_state_is_unchanged_by_signing() {
    let signer = new_mnemonic_signer_indexed(MNEMONIC, 0, 0).unwrap();
    let before = signer.get_public_key();
    let tx_hex = sample_tx_hex();
    let _ = signer.sign_transaction(&tx_hex).unwrap();
    let other = sample_tx_hex();
    let _ = signer.sign_transaction(&other).unwrap();
    assert_eq!(signer.get_public_key(), before);
}

#[test]
fn malformed_transaction_hex_is_rejected() {
    let signer: Signer = new_mnemonic_signer_indexed(MNEMONIC, 0, 0).unwrap();
    assert_eq!(
        signer.sign_transaction("zz").unwrap_err(),
        SignerError::InvalidTransactionEncoding
    );
    // odd length
    assert_eq!(
        signer.sign_transaction("abc").unwrap_err(),
        SignerError::InvalidTransactionEncoding
    );
    // valid hex, not a transaction
    assert_eq!(
        signer.sign_transaction("deadbeef").unwrap_err(),
        SignerError::InvalidTransactionEncoding
    );
}

#[test]
fn truncated_nested_byte_string_is_rejected_not_fatal() {
    let signer = new_mnemonic_signer_indexed(MNEMONIC, 0, 0).unwrap();
    // A transaction whose body holds an output in the legacy array form,
    // with a third element that declares a byte string far longer than the
    // input holds. The codec's own reader faults on such input, so the
    // structural scan must turn it away first.
    let mut tx: Vec<u8> = vec![
        0x84, // transaction: array(4)
        0xa3, // body: map(3)
        0x00, 0x80, // inputs: []
        0x01, 0x81, // outputs: array(1)
        0x83, // output: array(3)
        0x58, 0x1d, 0x61, // address: bytes(29), enterprise header
    ];
    tx.extend(vec![0x03u8; 28]);
    tx.push(0x00); // amount: 0
    tx.push(0x58);
    tx.push(0x63); // bytes(99), but only one byte follows
    tx.push(0x01);
    let hex: String = tx.iter().map(|b| format!("{:02x}", b)).collect();
    assert_eq!(
        signer.sign_transaction(&hex).unwrap_err(),
        SignerError::InvalidTransactionEncoding
    );
}

#[test]
fn indefinite_and_reserved_cbor_forms_are_rejected() {
    let signer = new_mnemonic_signer_indexed(MNEMONIC, 0, 0).unwrap();
    // indefinite-length byte string
    assert_eq!(
        signer.sign_transaction("5f4101ff").unwrap_err(),
        SignerError::InvalidTransactionEncoding
    );
    // reserved length encoding in an array header
    assert_eq!(
        signer.sign_transaction("9c").unwrap_err(),
        SignerError::InvalidTransactionEncoding
    );
    // trailing bytes after one complete item
    assert_eq!(
        signer.sign_transaction("0000").unwrap_err(),
        SignerError::InvalidTransactionEncoding
    );
    // declared array longer than the input
    assert_eq!(
        signer.sign_transaction("8402").unwrap_err(),
        SignerError::InvalidTransactionEncoding
    );
}

#[test]
fn stray_special_in_witness_list_is_rejected_not_fatal() {
    let signer = new_mnemonic_signer_indexed(MNEMONIC, 0, 0).unwrap();
    // A transaction whose witness set maps key 0 to the list [true]. The
    // codec's witness-list reader asserts that any major-7 item there is a
    // break marker and aborts otherwise, so the scan must turn this away.
    let tx: Vec<u8> = vec![
        0x84, // transaction: array(4)
        0xa3, 0x00, 0x80, 0x01, 0x80, 0x02, 0x00, // body: {0: [], 1: [], 2: 0}
        0xa1, 0x00, 0x81, 0xf5, // witness set: {0: [true]}
        0xf5, // is_valid: true
        0xf6, // auxiliary data: null
    ];
    let hex: String = tx.iter().map(|b| format!("{:02x}", b)).collect();
    assert_eq!(
        signer.sign_transaction(&hex).unwrap_err(),
        SignerError::InvalidTransactionEncoding
    );
}

#[test]
fn empty_address_bytes_are_rejected_not_fatal() {
    let signer = new_mnemonic_signer_indexed(MNEMONIC, 0, 0).unwrap();
    // A transaction whose single output carries a zero-length address. The
    // codec's address reader indexes the first byte without a check, so
    // the scan must turn the empty byte string away.
    let tx: Vec<u8> = vec![
        0x84, // transaction: array(4)
        0xa3, 0x00, 0x80, // body: {0: [],
        0x01, 0x81, 0x82, 0x40, 0x00, // 1: [[h'', 0]],
        0x02, 0x00, // 2: 0}
        0xa0, // witness set: {}
        0xf5, // is_valid: true
        0xf6, // auxiliary data: null
    ];
    let hex: String = tx.iter().map(|b| format!("{:02x}", b)).collect();
    assert_eq!(
        signer.sign_transaction(&hex).unwrap_err(),
        SignerError::InvalidTransactionEncoding
    );
}

#[test]
fn repeated_signing_returns_identical_text() {
    let signer = new_mnemonic_signer_indexed(MNEMONIC, 0, 0).unwrap();
    let tx_hex = sample_tx_hex();
    let first = signer.sign_transaction(&tx_hex).unwrap();
    let second = signer.sign_transaction(&tx_hex).unwrap();
    assert_eq!(first, second);
    let other = new_mnemonic_signer_indexed(MNEMONIC, 0, 0).unwrap();
    assert_eq!(first, other.sign_transaction(&tx_hex).unwrap());
}
