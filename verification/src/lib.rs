use vstd::prelude::*;

pub mod cbor;
pub mod hexcode;
pub mod keys;
pub mod laws;
pub mod path;
pub mod signer;
pub mod tx;

verus! {

/// The ways building a signer or signing a transaction can fail.
#[derive(Debug, Clone, Copy, PartialEq, Eq, Structural)]
pub enum SignerError {
    /// The mnemonic phrase failed wordlist or checksum validation.
    InvalidMnemonic,
    /// The bech32 extended key or the raw key bytes are malformed.
    InvalidKeyEncoding,
    /// The derivation path string has an unparsable segment, or an index
    /// is outside the valid 31-bit range.
    InvalidDerivationPath,
    /// The transaction hex failed to decode or to parse.
    InvalidTransactionEncoding,
    /// The signing step itself reported an error.
    SigningFailed,
}

} // verus!

