//! Process-services constants: AES algorithm and key-slot selectors.

use vstd::prelude::*;

verus! {

/// Kind of AES algorithm to use.
#[derive(Debug, Clone, Copy, PartialEq, Eq)]
pub enum AESAlgorithm {
    /// CBC encryption.
    CbcEnc,
    /// CBC decryption.
    CbcDec,
    /// CTR encryption.
    CtrEnc,
    /// CTR decryption.
    CtrDec,
    /// CCM encryption.
    CcmEnc,
    /// CCM decryption.
    CcmDec,
}

/// Key slot to use.
#[derive(Debug, Clone, Copy, PartialEq, Eq)]
pub enum AESKeyType {
    /// Keyslot 0x0D.
    Keyslot0D,
    /// Keyslot 0x2D.
    Keyslot2D,
    /// Keyslot 0x2E.
    Keyslot2E,
    /// Keyslot 0x31.
    Keyslot31,
    /// Keyslot 0x32.
    Keyslot32,
    /// Keyslot 0x36.
    Keyslot36,
    /// Keyslot 0x38.
    Keyslot38,
    /// Keyslot 0x39 (DLP).
    Keyslot39Dlp,
    /// Keyslot 0x39 (NFC).
    Keyslot39Nfc,
    /// Invalid keyslot.
    KeyslotInvalid,
}

} // verus!
