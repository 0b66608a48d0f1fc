//! What can go wrong when the client encrypts or decrypts a field.

use vstd::prelude::*;
use vstd::string::StringExecFns;

verus! {

/// A failure of encryption or decryption.
#[derive(Clone, Copy, Debug, PartialEq, Eq, Structural)]
pub enum CryptoError {
    EncryptionError,
    DecryptionError,
    InvalidKeyLength,
    Base64Error,
}

impl CryptoError {
    /// The text of the error.
    pub open spec fn spec_message(self) -> Seq<char> {
        match self {
            CryptoError::EncryptionError => "加密失败"@,
            CryptoError::DecryptionError => "解密失败"@,
            CryptoError::InvalidKeyLength => "密钥长度错误"@,
            CryptoError::Base64Error => "Base64 解码错误"@,
        }
    }

    /// The text of the error.
    pub fn message(&self) -> (text: String)
        ensures
            text@ == self.spec_message(),
    {
        match self {
            CryptoError::EncryptionError => String::from_str("加密失败"),
            CryptoError::DecryptionError => String::from_str("解密失败"),
            CryptoError::InvalidKeyLength => String::from_str("密钥长度错误"),
            CryptoError::Base64Error => String::from_str("Base64 解码错误"),
        }
    }
}

} // verus!
