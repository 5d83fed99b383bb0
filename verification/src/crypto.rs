//! Trusted boundary to the OpenSSL primitives the protocol needs: the
//! AES-128-CFB8 stream cipher used for both directions of an established
//! session, RSA-PKCS1 public-key encryption used once during the handshake,
//! and the random generator that draws the shared secret.
//!
//! Every item here is believed, not verified; contracts state only what the
//! OpenSSL documentation promises, and nothing about cipher output contents.

use vstd::prelude::*;

verus! {

/// Errors from the cryptographic boundary.
#[derive(Debug, Clone, PartialEq, Eq, Structural)]
pub enum CryptoError {
    /// OpenSSL rejected the operation (bad key material, bad DER, ...).
    Backend,
    /// A decryption key was required but none has been supplied.
    NoKey,
}

#[verifier::external_type_specification]
#[verifier::external_body]
pub struct ExCipher(openssl::symm::Cipher);

#[verifier::external_type_specification]
#[verifier::external_body]
pub struct ExCrypter(openssl::symm::Crypter);

#[verifier::external_type_specification]
#[verifier::external_body]
pub struct ExPublic(openssl::pkey::Public);

#[verifier::external_type_specification]
#[verifier::external_body]
#[verifier::reject_recursive_types(T)]
pub struct ExRsa<T>(openssl::rsa::Rsa<T>);

/// Relies on openssl's Cipher::aes_128_cfb8: a handle for the AES-128-CFB8
/// stream cipher (block size one).
#[verifier::external_body]
pub(crate) fn cipher_aes_128_cfb8() -> openssl::symm::Cipher {
    openssl::symm::Cipher::aes_128_cfb8()
}

/// Relies on openssl's Crypter::new: builds a cipher context from the key,
/// which the protocol also uses as the initialisation vector. The mode is
/// encryption when `encrypt` holds, decryption otherwise. A key of the
/// wrong length for the cipher is an error, not a panic — but the length
/// itself must fit a C int (setting it panics past that), hence the
/// bound. Nothing is promised of the result.
#[verifier::external_body]
pub(crate) fn crypter_new(
    cipher: openssl::symm::Cipher,
    encrypt: bool,
    key: &[u8],
) -> (r: Result<openssl::symm::Crypter, CryptoError>)
    requires
        key@.len() < 0x7fffffff,
{
    let mode = if encrypt {
        openssl::symm::Mode::Encrypt
    } else {
        openssl::symm::Mode::Decrypt
    };
    openssl::symm::Crypter::new(cipher, mode, key, Some(key)).map_err(|_| CryptoError::Backend)
}

/// Relies on openssl's Crypter::update with the AES-128-CFB8 stream cipher:
/// one output byte for each input byte, so the transformation is
/// length-preserving. Nothing is claimed about the output bytes themselves.
/// The length clause leans on the cipher being a stream cipher of block
/// size one: the only `Cipher` value constructible in this crate comes
/// from `cipher_aes_128_cfb8`, and these wrappers are crate-private. On a
/// block cipher neither the claim nor the output sizing below would hold.
#[verifier::external_body]
pub(crate) fn crypter_update(
    crypter: &mut openssl::symm::Crypter,
    data: &[u8],
) -> (r: Result<Vec<u8>, CryptoError>)
    requires
        data@.len() < 0x7fffffff,
    ensures
        r matches Ok(v) ==> v@.len() == data@.len(),
{
    let mut out = vec![0u8; data.len() + 1];
    match crypter.update(data, &mut out) {
        Ok(n) => {
            out.truncate(n);
            Ok(out)
        },
        Err(_) => Err(CryptoError::Backend),
    }
}

/// Relies on openssl's Rsa::public_key_from_der: parses a DER-encoded
/// public key.
#[verifier::external_body]
pub(crate) fn rsa_public_key_from_der(
    der: &[u8],
) -> (r: Result<openssl::rsa::Rsa<openssl::pkey::Public>, CryptoError>) {
    openssl::rsa::Rsa::public_key_from_der(der).map_err(|_| CryptoError::Backend)
}

/// Relies on openssl's RsaRef::public_encrypt with PKCS1 padding (and on
/// RsaRef::size to size the output buffer, as its documentation requires).
/// PKCS1 encryption pads with random bytes, so nothing is claimed about the
/// output beyond what holds of every outcome.
#[verifier::external_body]
pub(crate) fn rsa_public_encrypt(
    rsa: &openssl::rsa::Rsa<openssl::pkey::Public>,
    from: &[u8],
) -> (r: Result<Vec<u8>, CryptoError>)
    requires
        from@.len() < 0x7fffffff,
{
    let mut out = vec![0u8; rsa.size() as usize];
    match rsa.public_encrypt(from, &mut out, openssl::rsa::Padding::PKCS1) {
        Ok(n) => {
            out.truncate(n);
            Ok(out)
        },
        Err(_) => Err(CryptoError::Backend),
    }
}

/// Relies on openssl's rand_bytes: fills the buffer from the process-wide
/// cryptographic random generator. Only the length of the result is known;
/// its contents differ from call to call.
#[verifier::external_body]
pub(crate) fn random_bytes_16() -> (r: Result<Vec<u8>, CryptoError>)
    ensures
        r matches Ok(v) ==> v@.len() == 16,
{
    let mut buf = vec![0u8; 16];
    match openssl::rand::rand_bytes(&mut buf) {
        Ok(()) => Ok(buf),
        Err(_) => Err(CryptoError::Backend),
    }
}

} // verus!
