use hd_signer::SignerError;
use hd_signer::path::DerivationPath;

fn indices(p: &DerivationPath) -> Vec<u32> {
    let mut v: Vec<u32> = Vec::new();
    let mut i: usize = 0;
    while i < p.len() {
        v.push(p.index_at(i));
        i += 1;
    }
    v
}

#[test]
fn hardened_segment_gets_offset() {
    let p = DerivationPath::parse("44'").unwrap();
    assert_eq!(indices(&p), vec![0x8000_0000u32 + 44]);
    assert_eq!(indices(&p), vec![2147483692u32]);
}

#[test]
fn plain_segment_is_raw_index() {
    let p = DerivationPath::parse("44").unwrap();
    assert_eq!(indices(&p), vec![44u32]);
}

#[test]
fn leading_m_is_stripped() {
    let p = DerivationPath::parse("m/44'").unwrap();
    assert_eq!(indices(&p), vec![0x8000_0000u32 + 44]);
}

#[test]
fn full_payment_path_parses() {
    let p = DerivationPath::parse("m/1852'/1815'/0'/0/0").unwrap();
    assert_eq!(
        indices(&p),
        vec![0x8000_0000 + 1852, 0x8000_0000 + 1815, 0x8000_0000, 0, 0]
    );
}

#[test]
fn path_string_equals_index_pair() {
    let from_string = DerivationPath::parse("m/1852'/1815'/7'/0/3").unwrap();
    let from_indices = DerivationPath::from_indices(7, 3).unwrap();
    assert_eq!(indices(&from_string), indices(&from_indices));
}

#[test]
fn hardened_zero_parses() {
    let p = DerivationPath::parse("0'").unwrap();
    assert_eq!(indices(&p), vec![0x8000_0000u32]);
}

#[test]
fn largest_soft_index_parses() {
    let p = DerivationPath::parse("2147483647").unwrap();
    assert_eq!(indices(&p), vec![0x7FFF_FFFFu32]);
}

#[test]
fn index_past_31_bits_is_rejected() {
    assert_eq!(
        DerivationPath::parse("2147483648").unwrap_err(),
        SignerError::InvalidDerivationPath
    );
    assert_eq!(
        DerivationPath::parse("2147483648'").unwrap_err(),
        SignerError::InvalidDerivationPath
    );
    assert_eq!(
        DerivationPath::parse("99999999999999999999").unwrap_err(),
        SignerError::InvalidDerivationPath
    );
}

#[test]
fn empty_and_bare_m_are_rejected() {
    assert_eq!(DerivationPath::parse("").unwrap_err(), SignerError::InvalidDerivationPath);
    assert_eq!(DerivationPath::parse("m").unwrap_err(), SignerError::InvalidDerivationPath);
    assert_eq!(DerivationPath::parse("m/").unwrap_err(), SignerError::InvalidDerivationPath);
}

#[test]
fn bad_segments_are_rejected() {
    assert_eq!(DerivationPath::parse("abc").unwrap_err(), SignerError::InvalidDerivationPath);
    assert_eq!(
        DerivationPath::parse("m/1852'/1815'/x'/0/0").unwrap_err(),
        SignerError::InvalidDerivationPath
    );
    assert_eq!(DerivationPath::parse("44x").unwrap_err(), SignerError::InvalidDerivationPath);
    assert_eq!(DerivationPath::parse("'").unwrap_err(), SignerError::InvalidDerivationPath);
    assert_eq!(DerivationPath::parse("m/44''").unwrap_err(), SignerError::InvalidDerivationPath);
    assert_eq!(DerivationPath::parse("1852'/").unwrap_err(), SignerError::InvalidDerivationPath);
}

#[test]
fn from_indices_rejects_hardening_overflow() {
    assert_eq!(
        DerivationPath::from_indices(0x8000_0000, 0).unwrap_err(),
        SignerError::InvalidDerivationPath
    );
    assert_eq!(
        DerivationPath::from_indices(0, 0x8000_0000).unwrap_err(),
        SignerError::InvalidDerivationPath
    );
}

#[test]
fn leading_zeros_are_plain_decimal() {
    let p = DerivationPath::parse("m/007").unwrap();
    assert_eq!(indices(&p), vec![7u32]);
}
