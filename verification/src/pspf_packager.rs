//! The self-unwrapping package: a `uv` binary behind its public key.

use vstd::prelude::*;

use crate::archive::{
    config_archive, create_metadata_tgz, create_payload_tgz, empty_payload_tgz, gunzipped,
    metadata_tgz, zeros,
};
use crate::error::PackageError;
use crate::pspf::{
    assemble_package, law_package_reads_back, package_file, section, signed_content,
    signed_package, trailing_footer, PSP_EOF_MAGIC,
};
use crate::signing::{
    derive_public_key_spki, explains_unsigned_message, modulus_bits, pad_public_key, padded_key,
    private_key_parses, sign_content, signs_message, sound_key, spki_public_key, MIN_MODULUS_BITS,
};

verus! {

/// The contents that a package is made of.
pub struct PspPackageInputs<'a> {
    /// The `uv` binary to package.
    pub uv_binary_to_package: &'a [u8],
    /// The serialized configuration.
    pub config_json: &'a [u8],
    /// A PKCS#1 RSA private key in PEM form.
    pub private_key_pem: &'a str,
    /// The size of the area in front of the binary that holds the public key.
    pub public_key_der_size: usize,
}

/// The binary segment of a package: the public key, filled up with zeros to
/// `key_size` bytes, and the `uv` binary.
pub open spec fn keyed_binary(der: Seq<u8>, key_size: nat, uv_binary: Seq<u8>) -> Seq<u8> {
    padded_key(der, key_size) + uv_binary
}

/// Puts the public key in front of the `uv` binary.
pub fn prepend_public_key(
    public_key_der: &[u8],
    public_key_der_size: usize,
    uv_binary: &[u8],
) -> (binary: Result<Vec<u8>, PackageError>)
    ensures
        public_key_der@.len() <= public_key_der_size ==> (binary matches Ok(bytes) && bytes@
            == keyed_binary(public_key_der@, public_key_der_size as nat, uv_binary@)),
        public_key_der@.len() > public_key_der_size ==> (binary matches Err(
            PackageError::PublicKeyTooLarge { size, limit },
        ) && size == public_key_der@.len() && limit == public_key_der_size),
{
    let mut binary = pad_public_key(public_key_der, public_key_der_size)?;
    binary.extend_from_slice(uv_binary);
    Ok(binary)
}

/// Signs the digest of binary segment, metadata and payload.
pub fn sign_data(
    modified_uv_binary: &[u8],
    metadata_tgz: &[u8],
    payload_tgz: &[u8],
    private_key_pem: &str,
) -> (signature: Result<Vec<u8>, PackageError>)
    ensures
        signature matches Ok(bytes) ==> private_key_parses(private_key_pem@) && signs_message(
            private_key_pem@,
            modified_uv_binary@ + metadata_tgz@ + payload_tgz@,
            bytes@,
        ),
        signature matches Err(error) ==> explains_unsigned_message(
            error,
            private_key_pem@,
            modified_uv_binary@ + metadata_tgz@ + payload_tgz@,
        ),
        sound_key(private_key_pem@) ==> signature is Ok,
        modulus_bits(private_key_pem@) < MIN_MODULUS_BITS ==> signature is Err,
{
    let mut content: Vec<u8> = Vec::new();
    content.extend_from_slice(modified_uv_binary);
    content.extend_from_slice(metadata_tgz);
    content.extend_from_slice(payload_tgz);
    assert(content@ =~= modified_uv_binary@ + metadata_tgz@ + payload_tgz@);
    sign_content(content.as_slice(), private_key_pem)
}

/// A signed package that starts with its own public key and a `uv` binary. The
/// payload is still empty.
pub fn create_pspf_package(inputs: &PspPackageInputs) -> (file: Result<Vec<u8>, PackageError>)
    ensures
        file matches Ok(bytes) ==> {
            &&& private_key_parses(inputs.private_key_pem@)
            &&& spki_public_key(inputs.private_key_pem@) matches Some(der)
            &&& der.len() <= inputs.public_key_der_size
            &&& gunzipped(metadata_tgz(inputs.config_json@)) == Some(
                config_archive(inputs.config_json@),
            )
            &&& gunzipped(empty_payload_tgz()) == Some(zeros(1024))
            &&& signed_package(
                bytes@,
                Seq::empty(),
                keyed_binary(
                    der,
                    inputs.public_key_der_size as nat,
                    inputs.uv_binary_to_package@,
                ),
                metadata_tgz(inputs.config_json@),
                empty_payload_tgz(),
                inputs.private_key_pem@,
            )
        },
        file matches Err(error) ==> if !private_key_parses(inputs.private_key_pem@) {
            error is PrivateKey
        } else if spki_public_key(inputs.private_key_pem@) is None {
            error is PublicKeySpki
        } else if spki_public_key(inputs.private_key_pem@)->0.len() > inputs.public_key_der_size {
            error matches PackageError::PublicKeyTooLarge { size, limit } && size
                == spki_public_key(inputs.private_key_pem@)->0.len() && limit
                == inputs.public_key_der_size
        } else {
            explains_unsigned_message(
                error,
                inputs.private_key_pem@,
                keyed_binary(
                    spki_public_key(inputs.private_key_pem@)->0,
                    inputs.public_key_der_size as nat,
                    inputs.uv_binary_to_package@,
                ) + metadata_tgz(inputs.config_json@) + empty_payload_tgz(),
            )
        },
        sound_key(inputs.private_key_pem@) && (spki_public_key(inputs.private_key_pem@) matches Some(
            der,
        ) && der.len() <= inputs.public_key_der_size) ==> file is Ok,
        modulus_bits(inputs.private_key_pem@) < MIN_MODULUS_BITS ==> file is Err,
{
    let public_key_der = derive_public_key_spki(inputs.private_key_pem)?;
    let modified_uv_binary = prepend_public_key(
        public_key_der.as_slice(),
        inputs.public_key_der_size,
        inputs.uv_binary_to_package,
    )?;
    let metadata_tgz = create_metadata_tgz(inputs.config_json)?;
    let payload_tgz = create_payload_tgz()?;
    let signature = sign_data(
        modified_uv_binary.as_slice(),
        metadata_tgz.as_slice(),
        payload_tgz.as_slice(),
        inputs.private_key_pem,
    )?;
    let no_launcher: Vec<u8> = Vec::new();
    proof {
        assert(signed_content(
            no_launcher@,
            modified_uv_binary@,
            metadata_tgz@,
            payload_tgz@,
        ) =~= modified_uv_binary@ + metadata_tgz@ + payload_tgz@);
    }
    Ok(
        assemble_package(
            no_launcher.as_slice(),
            modified_uv_binary.as_slice(),
            metadata_tgz.as_slice(),
            payload_tgz.as_slice(),
            signature.as_slice(),
        ),
    )
}

/// A self-unwrapping package reads back: the public key starts the file and the
/// `uv` binary follows it; the consistent footer before the end-of-file magic
/// leads to every part; and the signed content is the binary segment, the
/// metadata and the payload that the footer leads to.
pub proof fn law_self_unwrapping_package_reads_back(
    der: Seq<u8>,
    key_size: nat,
    uv_binary: Seq<u8>,
    metadata: Seq<u8>,
    payload: Seq<u8>,
    signature: Seq<u8>,
)
    requires
        der.len() <= key_size,
        key_size + uv_binary.len() + metadata.len() + payload.len() + signature.len() <= u64::MAX,
    ensures
        ({
            let binary = keyed_binary(der, key_size, uv_binary);
            let file = package_file(Seq::empty(), binary, metadata, payload, signature);
            let footer = trailing_footer(file);
            &&& file.subrange(file.len() - 8, file.len() as int) == PSP_EOF_MAGIC@
            &&& footer.consistent()
            &&& file.subrange(0, der.len() as int) == der
            &&& file.subrange(0, key_size as int) == padded_key(der, key_size)
            &&& file.subrange(key_size as int, (key_size + uv_binary.len()) as int) == uv_binary
            &&& footer.uv_binary_offset == 0
            &&& footer.uv_binary_size == key_size + uv_binary.len()
            &&& section(file, footer.metadata_tgz_offset, footer.metadata_tgz_size) == metadata
            &&& section(file, footer.payload_tgz_offset, footer.payload_tgz_size) == payload
            &&& section(file, footer.package_signature_offset, footer.package_signature_size)
                == signature
            &&& signed_content(Seq::empty(), binary, metadata, payload) == file.subrange(
                0,
                footer.uv_binary_size as int,
            ) + section(file, footer.metadata_tgz_offset, footer.metadata_tgz_size) + section(
                file,
                footer.payload_tgz_offset,
                footer.payload_tgz_size,
            )
        }),
{
    let binary = keyed_binary(der, key_size, uv_binary);
    let file = package_file(Seq::empty(), binary, metadata, payload, signature);
    let footer = trailing_footer(file);
    law_package_reads_back(Seq::empty(), binary, metadata, payload, signature);
    assert(file.subrange(0, footer.uv_binary_size as int) =~= binary);
    assert(file.subrange(0, key_size as int) =~= padded_key(der, key_size));
    assert(file.subrange(0, der.len() as int) =~= der);
    assert(file.subrange(key_size as int, (key_size + uv_binary.len()) as int) =~= uv_binary);
    assert(signed_content(Seq::empty(), binary, metadata, payload) =~= binary + metadata + payload);
}

/// The binary segment is the key, zeros up to the end of its area, and the `uv`
/// binary.
pub proof fn law_binary_segment_layout(der: Seq<u8>, key_size: nat, uv_binary: Seq<u8>)
    requires
        der.len() <= key_size,
    ensures
        ({
            let binary = keyed_binary(der, key_size, uv_binary);
            &&& binary.len() == key_size + uv_binary.len()
            &&& binary.take(der.len() as int) == der
            &&& forall|i: int| der.len() <= i < key_size ==> #[trigger] binary[i] == 0
            &&& binary.skip(key_size as int) == uv_binary
        }),
{
    let binary = keyed_binary(der, key_size, uv_binary);
    assert(binary.take(der.len() as int) =~= der);
    assert(binary.skip(key_size as int) =~= uv_binary);
}

} // verus!
