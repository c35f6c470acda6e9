//! Why a package could not be made.

use vstd::prelude::*;

verus! {

/// An error of the readers and writers in `std::io`.
#[verifier::external_type_specification]
#[verifier::external_body]
pub struct ExIoError(std::io::Error);

/// An error of the PKCS#1 encodings in `rsa`.
#[verifier::external_type_specification]
#[verifier::external_body]
pub struct ExPkcs1Error(rsa::pkcs1::Error);

/// An error of the SubjectPublicKeyInfo encodings in `rsa`.
#[verifier::external_type_specification]
#[verifier::external_body]
pub struct ExSpkiError(rsa::pkcs8::spki::Error);

/// An error of the RSA operations in `rsa`.
#[verifier::external_type_specification]
#[verifier::external_body]
pub struct ExRsaError(rsa::Error);

/// An error of the signing keys in `rsa`.
#[verifier::external_type_specification]
#[verifier::external_body]
pub struct ExSignatureError(rsa::signature::Error);

/// Why a package could not be made.
#[derive(Debug)]
pub enum PackageError {
    /// An archive could not be written.
    Archive(std::io::Error),
    /// The private key is no PKCS#1 RSA private key in PEM form.
    PrivateKey(rsa::pkcs1::Error),
    /// The public key could not be encoded as PKCS#1 DER.
    PublicKeyPkcs1(rsa::pkcs1::Error),
    /// The public key could not be encoded as SubjectPublicKeyInfo DER.
    PublicKeySpki(rsa::pkcs8::spki::Error),
    /// The encoded public key does not fit into the area reserved for it.
    PublicKeyTooLarge { size: usize, limit: usize },
    /// The `uv` binary ends before the area reserved for the public key does.
    BinaryTooSmall { size: usize, minimum: u64 },
    /// The digest could not be signed.
    Signing(rsa::Error),
    /// The message could not be signed.
    SigningMessage(rsa::signature::Error),
    /// The file does not end where the signature should.
    FooterOffset { signature_end: u64, file_end: u64 },
}

/// Why a footer could not be read.
#[derive(Debug)]
pub enum ReadError {
    /// The input ended before the footer did.
    UnexpectedEof(std::io::Error),
    /// The reader failed otherwise.
    Other(std::io::Error),
}

} // verus!
