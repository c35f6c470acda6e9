//! Digests, keys and signatures.

use rsa::pkcs1::{DecodeRsaPrivateKey, EncodeRsaPublicKey};
use rsa::pkcs8::EncodePublicKey;
use rsa::signature::{RandomizedSigner, SignatureEncoding};
use rsa::traits::{PrivateKeyParts, PublicKeyParts};
use sha2::Digest;
use vstd::prelude::*;

use crate::archive::zeros;
use crate::error::PackageError;

verus! {

/// The length in bits from which on a modulus has room for a signature: for a
/// digest and a salt of 32 bytes each and two bytes of framing, one bit above 65
/// bytes.
pub const MIN_MODULUS_BITS: usize = 522;

/// The SHA-256 digest of `data`, as `sha2::Sha256` computes it.
pub uninterp spec fn sha256(data: Seq<u8>) -> Seq<u8>;

/// Whether `rsa::RsaPrivateKey::from_pkcs1_pem` accepts `pem`.
pub uninterp spec fn private_key_parses(pem: Seq<char>) -> bool;

/// What `rsa::pkcs1::EncodeRsaPublicKey::to_pkcs1_der` makes of the public half
/// of the private key `pem`, or nothing where it fails.
pub uninterp spec fn pkcs1_public_key(pem: Seq<char>) -> Option<Seq<u8>>;

/// What `rsa::pkcs8::EncodePublicKey::to_public_key_der` makes of the public
/// half of the private key `pem`, or nothing where it fails.
pub uninterp spec fn spki_public_key(pem: Seq<char>) -> Option<Seq<u8>>;

/// The two prime factors in the private key `pem`, in the order of
/// `rsa::traits::PrivateKeyParts::primes`. That they are primes is not tested
/// when the key is parsed.
pub uninterp spec fn prime_factors(pem: Seq<char>) -> (nat, nat);

/// Whether `rsa::pss::VerifyingKey::<Sha256>::verify`, with the public half of
/// the private key `pem`, accepts `signature` for `message`.
pub uninterp spec fn pss_accepts_message(
    pem: Seq<char>,
    message: Seq<u8>,
    signature: Seq<u8>,
) -> bool;

/// Whether `rsa::RsaPublicKey::verify` with `rsa::Pss::new::<Sha256>` and the
/// public half of the private key `pem` accepts `signature` for `digest`.
pub uninterp spec fn pss_accepts_digest(
    pem: Seq<char>,
    digest: Seq<u8>,
    signature: Seq<u8>,
) -> bool;

/// Whether there is a salt with which the `try_sign_with_rng` of
/// `rsa::pss::SigningKey::<Sha256>` fails to sign `message` with the key `pem`.
pub uninterp spec fn pss_refuses_message(pem: Seq<char>, message: Seq<u8>) -> bool;

/// Whether there is a salt with which `rsa::RsaPrivateKey::sign_with_rng` with
/// `rsa::Pss::new::<Sha256>` fails to sign `digest` with the key `pem`.
pub uninterp spec fn pss_refuses_digest(pem: Seq<char>, digest: Seq<u8>) -> bool;

/// The fewest bits in which `n` can be written.
pub open spec fn bit_length(n: nat) -> nat
    decreases n,
{
    if n == 0 {
        0
    } else {
        bit_length(n / 2) + 1
    }
}

/// `n` is a prime number.
pub open spec fn is_prime(n: nat) -> bool {
    n > 1 && forall|d: nat| 1 < d < n ==> #[trigger] (n % d) != 0
}

/// The length in bits of the modulus, which is the product of the prime factors.
pub open spec fn modulus_bits(pem: Seq<char>) -> nat {
    bit_length(prime_factors(pem).0 * prime_factors(pem).1)
}

/// The length in bytes of the modulus.
pub open spec fn modulus_size(pem: Seq<char>) -> nat {
    (modulus_bits(pem) + 7) / 8
}

/// The private key `pem` is one of RSA, with two different primes, and its
/// modulus has room for a signature.
pub open spec fn sound_key(pem: Seq<char>) -> bool {
    &&& private_key_parses(pem)
    &&& is_prime(prime_factors(pem).0)
    &&& is_prime(prime_factors(pem).1)
    &&& prime_factors(pem).0 != prime_factors(pem).1
    &&& modulus_bits(pem) >= MIN_MODULUS_BITS
}

/// `first` and `second` number the prime factors of the key `pem` so that the
/// second is no longer than the first.
pub open spec fn longer_first(pem: Seq<char>, first: int, second: int) -> bool {
    let lengths = (bit_length(prime_factors(pem).0), bit_length(prime_factors(pem).1));
    ||| first == 0 && second == 1 && lengths.1 <= lengths.0
    ||| first == 1 && second == 0 && lengths.0 <= lengths.1
}

/// `signature` signs the digest of `content` as a message, with the key `pem`.
pub open spec fn signs_message(pem: Seq<char>, content: Seq<u8>, signature: Seq<u8>) -> bool {
    &&& pss_accepts_message(pem, sha256(content), signature)
    &&& signature.len() == modulus_size(pem)
}

/// `signature` signs the digest of `content` as it is, with the key `pem`.
pub open spec fn signs_digest(pem: Seq<char>, content: Seq<u8>, signature: Seq<u8>) -> bool {
    &&& pss_accepts_digest(pem, sha256(content), signature)
    &&& signature.len() == modulus_size(pem)
}

/// `error` says why `content` was not signed by [`sign_content`]: the key does
/// not parse, or it does not sign with every salt and is not sound.
pub open spec fn explains_unsigned_message(
    error: PackageError,
    pem: Seq<char>,
    content: Seq<u8>,
) -> bool {
    if private_key_parses(pem) {
        &&& error is SigningMessage
        &&& pss_refuses_message(pem, sha256(content))
        &&& !sound_key(pem)
    } else {
        error is PrivateKey
    }
}

/// `error` says why `content` was not signed by [`sign_content_digest`]: the key
/// does not parse, or it does not sign with every salt and is not sound.
pub open spec fn explains_unsigned_digest(
    error: PackageError,
    pem: Seq<char>,
    content: Seq<u8>,
) -> bool {
    if private_key_parses(pem) {
        &&& error is Signing
        &&& pss_refuses_digest(pem, sha256(content))
        &&& !sound_key(pem)
    } else {
        error is PrivateKey
    }
}

/// `sha2::Sha256::digest` computes the SHA-256 digest of the whole buffer.
#[verifier::external_body]
fn sha256_of(data: &[u8]) -> (digest: [u8; 32])
    ensures
        digest@ == sha256(data@),
{
    sha2::Sha256::digest(data).into()
}

/// `rsa::RsaPrivateKey::from_pkcs1_pem`, `to_public_key` and `to_pkcs1_der`. The
/// outer result is that of the parse, the inner one that of the encoding; both
/// depend on the text of the key alone.
#[verifier::external_body]
fn public_key_pkcs1(pem: &str) -> (der: Result<
    Result<Vec<u8>, rsa::pkcs1::Error>,
    rsa::pkcs1::Error,
>)
    ensures
        der is Ok <==> private_key_parses(pem@),
        der matches Ok(der) ==> (der is Ok <==> pkcs1_public_key(pem@) is Some),
        der matches Ok(Ok(bytes)) ==> pkcs1_public_key(pem@) == Some(bytes@),
{
    let key = rsa::RsaPrivateKey::from_pkcs1_pem(pem)?;
    Ok(key.to_public_key().to_pkcs1_der().map(|der| der.as_bytes().to_vec()))
}

/// `rsa::RsaPrivateKey::from_pkcs1_pem`, `to_public_key` and
/// `to_public_key_der`. The outer result is that of the parse, the inner one
/// that of the encoding; both depend on the text of the key alone.
#[verifier::external_body]
fn public_key_spki(pem: &str) -> (der: Result<
    Result<Vec<u8>, rsa::pkcs8::spki::Error>,
    rsa::pkcs1::Error,
>)
    ensures
        der is Ok <==> private_key_parses(pem@),
        der matches Ok(der) ==> (der is Ok <==> spki_public_key(pem@) is Some),
        der matches Ok(Ok(bytes)) ==> spki_public_key(pem@) == Some(bytes@),
{
    let key = rsa::RsaPrivateKey::from_pkcs1_pem(pem)?;
    Ok(key.to_public_key().to_public_key_der().map(|der| der.as_bytes().to_vec()))
}

/// `rsa::RsaPrivateKey::from_pkcs1_pem` and the `primes` of
/// `rsa::traits::PrivateKeyParts`, each by its number of bits. A key that parses
/// has two prime factors.
#[verifier::external_body]
fn prime_lengths(pem: &str) -> (lengths: Result<(usize, usize), rsa::pkcs1::Error>)
    ensures
        lengths is Ok <==> private_key_parses(pem@),
        lengths matches Ok((first, second)) ==> first == bit_length(prime_factors(pem@).0)
            && second == bit_length(prime_factors(pem@).1),
{
    let key = rsa::RsaPrivateKey::from_pkcs1_pem(pem)?;
    Ok((key.primes()[0].bits(), key.primes()[1].bits()))
}

/// `rsa::RsaPrivateKey::from_pkcs1_pem` and the `try_sign_with_rng` of
/// `rsa::pss::SigningKey::<Sha256>`, which hashes `message` itself and draws a
/// salt from `rand::rngs::OsRng`. `from_components` builds the key with its
/// prime factors in the order `first`, `second`: the signature for a salt is the
/// same in either order, but the call counts up to the second factor in steps of
/// the first, so the longer one goes first.
///
/// Every signature that comes out verifies and is as long as the modulus. A
/// failure means that the key fails to sign the message with some salt. It
/// always comes if the modulus is too short for digest and salt, and never if
/// the key is sound: the modulus is then the product of two different primes and
/// raising to the one exponent undoes raising to the other. Which other keys fail
/// is not said.
#[verifier::external_body]
fn pss_sign_message(pem: &str, first: usize, second: usize, message: &[u8]) -> (signature: Result<
    Result<Vec<u8>, rsa::signature::Error>,
    rsa::pkcs1::Error,
>)
    requires
        private_key_parses(pem@),
        longer_first(pem@, first as int, second as int),
    ensures
        signature is Ok,
        signature matches Ok(Ok(bytes)) ==> pss_accepts_message(pem@, message@, bytes@)
            && bytes@.len() == modulus_size(pem@),
        signature matches Ok(Err(_)) ==> pss_refuses_message(pem@, message@),
        modulus_bits(pem@) < MIN_MODULUS_BITS ==> signature->Ok_0 is Err,
        sound_key(pem@) ==> signature->Ok_0 is Ok,
{
    let key = rsa::RsaPrivateKey::from_pkcs1_pem(pem)?;
    let primes = vec![key.primes()[first].clone(), key.primes()[second].clone()];
    let (n, e, d) = (key.n().clone(), key.e().clone(), key.d().clone());
    let key = match rsa::RsaPrivateKey::from_components(n, e, d, primes) {
        Ok(key) => key,
        Err(error) => return Ok(Err(error.into())),
    };
    let signer = rsa::pss::SigningKey::<rsa::sha2::Sha256>::new(key);
    let signature = signer.try_sign_with_rng(&mut rand::rngs::OsRng, message);
    Ok(signature.map(|signature| signature.to_vec()))
}

/// `rsa::RsaPrivateKey::from_pkcs1_pem` and `sign_with_rng` with
/// `rsa::Pss::new::<Sha256>`, which takes the digest as it is and draws a salt
/// from `rand::thread_rng`. `from_components` builds the key with its prime
/// factors in the order `first`, `second`: the signature for a salt is the same
/// in either order, but the call counts up to the second factor in steps of the
/// first, so the longer one goes first.
///
/// Every signature that comes out verifies and is as long as the modulus. A
/// failure means that the key fails to sign the digest with some salt. It always
/// comes if the modulus is too short for digest and salt, and never if the key is
/// sound and the digest has 32 bytes: the modulus is then the product of two
/// different primes and raising to the one exponent undoes raising to the other.
/// Which other keys fail is not said.
#[verifier::external_body]
fn pss_sign_digest(pem: &str, first: usize, second: usize, digest: &[u8]) -> (signature: Result<
    Result<Vec<u8>, rsa::Error>,
    rsa::pkcs1::Error,
>)
    requires
        private_key_parses(pem@),
        longer_first(pem@, first as int, second as int),
    ensures
        signature is Ok,
        signature matches Ok(Ok(bytes)) ==> pss_accepts_digest(pem@, digest@, bytes@)
            && bytes@.len() == modulus_size(pem@),
        signature matches Ok(Err(_)) ==> pss_refuses_digest(pem@, digest@),
        modulus_bits(pem@) < MIN_MODULUS_BITS ==> signature->Ok_0 is Err,
        sound_key(pem@) && digest@.len() == 32 ==> signature->Ok_0 is Ok,
{
    let key = rsa::RsaPrivateKey::from_pkcs1_pem(pem)?;
    let primes = vec![key.primes()[first].clone(), key.primes()[second].clone()];
    let (n, e, d) = (key.n().clone(), key.e().clone(), key.d().clone());
    let key = match rsa::RsaPrivateKey::from_components(n, e, d, primes) {
        Ok(key) => key,
        Err(error) => return Ok(Err(error)),
    };
    let padding = rsa::Pss::new::<sha2::Sha256>();
    Ok(key.sign_with_rng(&mut rand::thread_rng(), padding, digest))
}

/// The DER encoding (PKCS#1) of the public half of a private key.
pub fn derive_public_key_pkcs1(pem: &str) -> (der: Result<Vec<u8>, PackageError>)
    ensures
        der is Ok <==> private_key_parses(pem@) && pkcs1_public_key(pem@) is Some,
        der matches Ok(bytes) ==> pkcs1_public_key(pem@) == Some(bytes@),
        der matches Err(error) ==> if private_key_parses(pem@) {
            error is PublicKeyPkcs1
        } else {
            error is PrivateKey
        },
{
    match public_key_pkcs1(pem) {
        Ok(Ok(der)) => Ok(der),
        Ok(Err(error)) => Err(PackageError::PublicKeyPkcs1(error)),
        Err(error) => Err(PackageError::PrivateKey(error)),
    }
}

/// The DER encoding (SubjectPublicKeyInfo) of the public half of a private key.
pub fn derive_public_key_spki(pem: &str) -> (der: Result<Vec<u8>, PackageError>)
    ensures
        der is Ok <==> private_key_parses(pem@) && spki_public_key(pem@) is Some,
        der matches Ok(bytes) ==> spki_public_key(pem@) == Some(bytes@),
        der matches Err(error) ==> if private_key_parses(pem@) {
            error is PublicKeySpki
        } else {
            error is PrivateKey
        },
{
    match public_key_spki(pem) {
        Ok(Ok(der)) => Ok(der),
        Ok(Err(error)) => Err(PackageError::PublicKeySpki(error)),
        Err(error) => Err(PackageError::PrivateKey(error)),
    }
}

/// A public key, filled up with zeros to `size` bytes.
pub fn pad_public_key(der: &[u8], size: usize) -> (area: Result<Vec<u8>, PackageError>)
    ensures
        der@.len() <= size ==> (area matches Ok(bytes) && bytes@ == padded_key(der@, size as nat)),
        der@.len() > size ==> (area matches Err(PackageError::PublicKeyTooLarge { size: s, limit })
            && s == der@.len() && limit == size),
{
    if der.len() > size {
        return Err(PackageError::PublicKeyTooLarge { size: der.len(), limit: size });
    }
    let mut area: Vec<u8> = Vec::new();
    area.extend_from_slice(der);
    while area.len() < size
        invariant
            der@.len() <= area@.len() <= size,
            area@ == padded_key(der@, area@.len()),
        decreases size - area@.len(),
    {
        area.push(0);
        assert(area@ =~= padded_key(der@, area@.len()));
    }
    Ok(area)
}

/// `der`, filled up with zeros to `size` bytes.
pub open spec fn padded_key(der: Seq<u8>, size: nat) -> Seq<u8> {
    der + zeros((size - der.len()) as nat)
}

/// The numbers of the prime factors of a private key, the longer one first.
fn prime_order(pem: &str) -> (order: Result<(usize, usize), PackageError>)
    ensures
        order is Ok <==> private_key_parses(pem@),
        order matches Ok((first, second)) ==> longer_first(pem@, first as int, second as int),
        order matches Err(error) ==> error is PrivateKey,
{
    match prime_lengths(pem) {
        Ok((first, second)) => if second <= first {
            Ok((0, 1))
        } else {
            Ok((1, 0))
        },
        Err(error) => Err(PackageError::PrivateKey(error)),
    }
}

/// Signs the SHA-256 digest of `content` as a message of its own, which is
/// hashed once more.
pub fn sign_content(content: &[u8], pem: &str) -> (signature: Result<Vec<u8>, PackageError>)
    ensures
        signature matches Ok(bytes) ==> private_key_parses(pem@) && signs_message(
            pem@,
            content@,
            bytes@,
        ),
        signature matches Err(error) ==> explains_unsigned_message(error, pem@, content@),
        sound_key(pem@) ==> signature is Ok,
        modulus_bits(pem@) < MIN_MODULUS_BITS ==> signature is Err,
{
    let (first, second) = prime_order(pem)?;
    let digest = sha256_of(content);
    match pss_sign_message(pem, first, second, digest.as_slice()) {
        Ok(Ok(signature)) => Ok(signature),
        Ok(Err(error)) => Err(PackageError::SigningMessage(error)),
        Err(error) => Err(PackageError::PrivateKey(error)),
    }
}

/// Signs the SHA-256 digest of `content` as it is.
pub fn sign_content_digest(content: &[u8], pem: &str) -> (signature: Result<Vec<u8>, PackageError>)
    ensures
        signature matches Ok(bytes) ==> private_key_parses(pem@) && signs_digest(
            pem@,
            content@,
            bytes@,
        ),
        signature matches Err(error) ==> explains_unsigned_digest(error, pem@, content@),
        sound_key(pem@) ==> signature is Ok,
        modulus_bits(pem@) < MIN_MODULUS_BITS ==> signature is Err,
{
    let (first, second) = prime_order(pem)?;
    let digest = sha256_of(content);
    match pss_sign_digest(pem, first, second, digest.as_slice()) {
        Ok(Ok(signature)) => Ok(signature),
        Ok(Err(error)) => Err(PackageError::Signing(error)),
        Err(error) => Err(PackageError::PrivateKey(error)),
    }
}

/// A padded key is `size` bytes long, starts with the key, and goes on with zeros.
pub proof fn law_padded_key_is_the_key_and_zeros(der: Seq<u8>, size: nat)
    requires
        der.len() <= size,
    ensures
        padded_key(der, size).len() == size,
        padded_key(der, size).take(der.len() as int) == der,
        forall|i: int| der.len() <= i < size ==> #[trigger] padded_key(der, size)[i] == 0,
{
    assert(padded_key(der, size).take(der.len() as int) =~= der);
}

/// A signature that [`sign_content`] gives is as long as the product of the prime
/// factors of the key, in bytes, and is accepted for the SHA-256 digest of the
/// whole content as a message.
pub proof fn law_signed_message_is_the_digest(
    pem: Seq<char>,
    content: Seq<u8>,
    signature: Seq<u8>,
)
    ensures
        signs_message(pem, content, signature) <==> pss_accepts_message(
            pem,
            sha256(content),
            signature,
        ) && signature.len() == (bit_length(prime_factors(pem).0 * prime_factors(pem).1) + 7) / 8,
{
}

/// A signature that [`sign_content_digest`] gives is as long as the product of the
/// prime factors of the key, in bytes, and is accepted for the SHA-256 digest of
/// the whole content.
pub proof fn law_signed_digest_is_that_of_the_content(
    pem: Seq<char>,
    content: Seq<u8>,
    signature: Seq<u8>,
)
    ensures
        signs_digest(pem, content, signature) <==> pss_accepts_digest(
            pem,
            sha256(content),
            signature,
        ) && signature.len() == (bit_length(prime_factors(pem).0 * prime_factors(pem).1) + 7) / 8,
{
}

/// The error for content that was not signed tells a key that does not parse from
/// a signature that was refused for the digest of this content. Neither comes for
/// a sound key.
pub proof fn law_unsigned_content_is_explained(
    error: PackageError,
    pem: Seq<char>,
    content: Seq<u8>,
)
    ensures
        explains_unsigned_message(error, pem, content) ==> !sound_key(pem) && (error is PrivateKey
            <==> !private_key_parses(pem)) && (error is SigningMessage <==> private_key_parses(pem))
            && (private_key_parses(pem) ==> pss_refuses_message(pem, sha256(content))),
        explains_unsigned_digest(error, pem, content) ==> !sound_key(pem) && (error is PrivateKey
            <==> !private_key_parses(pem)) && (error is Signing <==> private_key_parses(pem)) && (
        private_key_parses(pem) ==> pss_refuses_digest(pem, sha256(content))),
{
}

} // verus!
