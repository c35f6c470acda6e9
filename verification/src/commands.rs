//! The `pspf package` command: a `uv` binary with the public key inside it.

use vstd::prelude::*;
use vstd::string::StringExecFns;

use crate::archive::{
    compress_archive, config_archive, create_metadata_tgz, entry_data, entry_named, gunzipped,
    gzip_stream, law_config_archive_reads_back, metadata_tgz, zeros,
};
use crate::checksum::crc32;
use crate::env::EnvVars;
use crate::error::PackageError;
use crate::le::le_value;
use crate::pspf_format::{
    footer_v1_of, law_footer_v1_decodes_what_it_encoded, law_footer_v1_fields_have_their_places,
    law_new_footer_v1_has_the_given_fields, PspFileFooterV1, PSPF_EOF_MAGIC_STRING,
    PUBLIC_KEY_EMBED_OFFSET, PUBLIC_KEY_MAX_SIZE,
};
use crate::signing::{
    derive_public_key_pkcs1, explains_unsigned_digest, modulus_bits, modulus_size, pad_public_key,
    padded_key, pkcs1_public_key, private_key_parses, pss_accepts_digest, sha256,
    sign_content_digest, signs_digest, sound_key, MIN_MODULUS_BITS,
};

verus! {

/// The configuration that `config.json` holds.
#[derive(Debug)]
pub struct PspConfig {
    pub entry_point: String,
    pub python_version: Option<String>,
    pub env_vars: Option<EnvVars>,
}

impl PspConfig {
    /// The configuration for an entry point and the Python version that was
    /// asked for, if any. Variables are given only where there are any.
    pub fn new(
        entry_point: String,
        python_version: Option<String>,
        env_vars: EnvVars,
    ) -> (config: Self)
        ensures
            config.entry_point@ == entry_point@,
            config.python_version == python_version,
            config.env_vars == if env_vars@ == Map::<Seq<char>, Seq<char>>::empty() {
                None::<EnvVars>
            } else {
                Some(env_vars)
            },
    {
        let env_vars = if env_vars.is_empty() {
            None
        } else {
            Some(env_vars)
        };
        PspConfig { entry_point, python_version, env_vars }
    }
}

/// The name of the package file if none is given.
pub fn default_output_name(project_name: &str) -> (name: String)
    ensures
        name@ == project_name@ + ".pspf"@,
{
    String::from_str(project_name).concat(".pspf")
}

/// The contents that a package is made of.
pub struct PspfPackageRequest<'a> {
    /// The `uv` binary to start the file with.
    pub uv_binary: &'a [u8],
    /// A PKCS#1 RSA private key in PEM form.
    pub private_key_pem: &'a str,
    /// The serialized [`PspConfig`].
    pub config_json: &'a [u8],
    /// The tar archive of the wheels.
    pub payload_tar: &'a [u8],
}

/// Where the area that is reserved for the public key ends.
pub open spec fn key_area_end() -> int {
    PUBLIC_KEY_EMBED_OFFSET + PUBLIC_KEY_MAX_SIZE
}

/// The `uv` binary with the public key, filled up with zeros, written over the
/// reserved area.
pub open spec fn keyed_binary(uv_binary: Seq<u8>, der: Seq<u8>) -> Seq<u8> {
    uv_binary.subrange(0, PUBLIC_KEY_EMBED_OFFSET as int) + padded_key(
        der,
        PUBLIC_KEY_MAX_SIZE as nat,
    ) + uv_binary.subrange(key_area_end(), uv_binary.len() as int)
}

/// What the signature of a package covers.
pub open spec fn signed_content(
    binary: Seq<u8>,
    metadata: Seq<u8>,
    payload: Seq<u8>,
) -> Seq<u8> {
    binary + metadata + payload
}

/// The footer of a package whose parts follow each other without gaps.
pub open spec fn package_footer(
    binary: Seq<u8>,
    metadata: Seq<u8>,
    payload: Seq<u8>,
    signature: Seq<u8>,
) -> PspFileFooterV1 {
    footer_v1_of(
        binary.len() as u64,
        metadata.len() as u64,
        binary.len() as u64,
        payload.len() as u64,
        (binary + metadata).len() as u64,
        signature.len() as u64,
        (binary + metadata + payload).len() as u64,
    )
}

/// A package file: its parts, the footer and the end-of-file magic.
pub open spec fn package_file(
    binary: Seq<u8>,
    metadata: Seq<u8>,
    payload: Seq<u8>,
    signature: Seq<u8>,
) -> Seq<u8> {
    signed_content(binary, metadata, payload) + signature + package_footer(
        binary,
        metadata,
        payload,
        signature,
    ).encoded() + PSPF_EOF_MAGIC_STRING@
}

/// The footer that a package file ends with, before the end-of-file magic.
pub open spec fn trailing_footer(file: Seq<u8>) -> PspFileFooterV1 {
    PspFileFooterV1::decoded(file.subrange(file.len() - 72, file.len() - 8))
}

/// A package up to the end of the signature, and the footer that describes it.
pub struct Package {
    pub body: Vec<u8>,
    pub footer: PspFileFooterV1,
}

impl Package {
    /// `self` is the package of these parts.
    pub open spec fn holds(
        self,
        binary: Seq<u8>,
        metadata: Seq<u8>,
        payload: Seq<u8>,
        signature: Seq<u8>,
    ) -> bool {
        &&& self.body@ == signed_content(binary, metadata, payload) + signature
        &&& self.footer == package_footer(binary, metadata, payload, signature)
    }

    /// `self` is the package of these parts with a signature that the public
    /// half of the key `pem` accepts for their digest.
    pub open spec fn signed(
        self,
        binary: Seq<u8>,
        metadata: Seq<u8>,
        payload: Seq<u8>,
        pem: Seq<char>,
    ) -> bool {
        exists|signature: Seq<u8>| #[trigger]
            signs_digest(pem, signed_content(binary, metadata, payload), signature)
                && self.holds(binary, metadata, payload, signature)
    }

    /// What follows the body in the file, once the file has been found to end
    /// where the signature does: the footer and the end-of-file magic.
    pub fn trailer(&self, file_end: u64) -> (trailer: Result<Vec<u8>, PackageError>)
        requires
            self.footer.signature_offset + self.footer.signature_size <= u64::MAX,
        ensures
            self.footer.signature_offset + self.footer.signature_size == file_end ==> (
            trailer matches Ok(bytes) && bytes@ == self.footer.encoded() + PSPF_EOF_MAGIC_STRING@),
            self.footer.signature_offset + self.footer.signature_size != file_end ==> (
            trailer matches Err(PackageError::FooterOffset { signature_end, file_end: end })
                && signature_end == self.footer.signature_offset + self.footer.signature_size
                && end == file_end),
    {
        let signature_end = self.footer.signature_offset + self.footer.signature_size;
        if signature_end != file_end {
            return Err(PackageError::FooterOffset { signature_end, file_end });
        }
        let mut trailer: Vec<u8> = Vec::new();
        match self.footer.write_to(&mut trailer) {
            Ok(_) => {},
            Err(error) => return Err(PackageError::Archive(error)),
        }
        trailer.extend_from_slice(PSPF_EOF_MAGIC_STRING.as_slice());
        assert(trailer@ =~= self.footer.encoded() + PSPF_EOF_MAGIC_STRING@);
        Ok(trailer)
    }
}

/// Writes the public key into the area of the `uv` binary that is reserved for
/// it.
pub fn embed_public_key(uv_binary: &[u8], public_key_der: &[u8]) -> (binary: Result<
    Vec<u8>,
    PackageError,
>)
    ensures
        public_key_der@.len() <= PUBLIC_KEY_MAX_SIZE && key_area_end() <= uv_binary@.len() ==> (
        binary matches Ok(bytes) && bytes@ == keyed_binary(uv_binary@, public_key_der@)),
        public_key_der@.len() > PUBLIC_KEY_MAX_SIZE ==> (binary matches Err(
            PackageError::PublicKeyTooLarge { size, limit },
        ) && size == public_key_der@.len() && limit == PUBLIC_KEY_MAX_SIZE),
        public_key_der@.len() <= PUBLIC_KEY_MAX_SIZE && key_area_end() > uv_binary@.len() ==> (
        binary matches Err(PackageError::BinaryTooSmall { size, minimum }) && size
            == uv_binary@.len() && minimum == key_area_end()),
{
    let area = pad_public_key(public_key_der, PUBLIC_KEY_MAX_SIZE)?;
    let minimum = PUBLIC_KEY_EMBED_OFFSET + PUBLIC_KEY_MAX_SIZE as u64;
    if (uv_binary.len() as u64) < minimum {
        return Err(PackageError::BinaryTooSmall { size: uv_binary.len(), minimum });
    }
    let mut binary: Vec<u8> = Vec::new();
    binary.extend_from_slice(&uv_binary[0..PUBLIC_KEY_EMBED_OFFSET as usize]);
    binary.extend_from_slice(area.as_slice());
    binary.extend_from_slice(&uv_binary[minimum as usize..uv_binary.len()]);
    assert(binary@ =~= keyed_binary(uv_binary@, public_key_der@));
    Ok(binary)
}

/// The package of the given parts.
pub fn assemble_package(
    binary: &[u8],
    metadata_tgz: &[u8],
    payload_tgz: &[u8],
    signature: &[u8],
) -> (package: Package)
    ensures
        package.holds(binary@, metadata_tgz@, payload_tgz@, signature@),
        package.footer.signature_offset + package.footer.signature_size == package.body@.len(),
{
    let mut body: Vec<u8> = Vec::new();
    body.extend_from_slice(binary);
    assert(body@ =~= binary@);
    let metadata_offset = body.len() as u64;
    body.extend_from_slice(metadata_tgz);
    let payload_offset = body.len() as u64;
    body.extend_from_slice(payload_tgz);
    let signature_offset = body.len() as u64;
    body.extend_from_slice(signature);
    let footer = PspFileFooterV1::new(
        binary.len() as u64,
        metadata_tgz.len() as u64,
        metadata_offset,
        payload_tgz.len() as u64,
        payload_offset,
        signature.len() as u64,
        signature_offset,
    );
    assert(body@ =~= signed_content(binary@, metadata_tgz@, payload_tgz@) + signature@);
    Package { body, footer }
}

/// A signed package: the `uv` binary with the public key inside it, the
/// metadata, the payload and the signature.
pub fn pspf_package(request: &PspfPackageRequest) -> (package: Result<Package, PackageError>)
    ensures
        package matches Ok(package) ==> {
            &&& private_key_parses(request.private_key_pem@)
            &&& pkcs1_public_key(request.private_key_pem@) matches Some(der)
            &&& der.len() <= PUBLIC_KEY_MAX_SIZE
            &&& key_area_end() <= request.uv_binary@.len()
            &&& gunzipped(metadata_tgz(request.config_json@)) == Some(
                config_archive(request.config_json@),
            )
            &&& gunzipped(gzip_stream(request.payload_tar@)) == Some(request.payload_tar@)
            &&& package.signed(
                keyed_binary(request.uv_binary@, der),
                metadata_tgz(request.config_json@),
                gzip_stream(request.payload_tar@),
                request.private_key_pem@,
            )
            &&& package.footer.signature_offset + package.footer.signature_size
                == package.body@.len()
        },
        package matches Err(error) ==> if !private_key_parses(request.private_key_pem@) {
            error is PrivateKey
        } else if pkcs1_public_key(request.private_key_pem@) is None {
            error is PublicKeyPkcs1
        } else if pkcs1_public_key(request.private_key_pem@)->0.len() > PUBLIC_KEY_MAX_SIZE {
            error matches PackageError::PublicKeyTooLarge { size, limit } && size
                == pkcs1_public_key(request.private_key_pem@)->0.len() && limit
                == PUBLIC_KEY_MAX_SIZE
        } else if key_area_end() > request.uv_binary@.len() {
            error matches PackageError::BinaryTooSmall { size, minimum } && size
                == request.uv_binary@.len() && minimum == key_area_end()
        } else {
            explains_unsigned_digest(
                error,
                request.private_key_pem@,
                signed_content(
                    keyed_binary(
                        request.uv_binary@,
                        pkcs1_public_key(request.private_key_pem@)->0,
                    ),
                    metadata_tgz(request.config_json@),
                    gzip_stream(request.payload_tar@),
                ),
            )
        },
        sound_key(request.private_key_pem@) && (pkcs1_public_key(
            request.private_key_pem@,
        ) matches Some(der) && der.len() <= PUBLIC_KEY_MAX_SIZE) && key_area_end()
            <= request.uv_binary@.len() ==> package is Ok,
        modulus_bits(request.private_key_pem@) < MIN_MODULUS_BITS ==> package is Err,
{
    let public_key_der = derive_public_key_pkcs1(request.private_key_pem)?;
    let binary = embed_public_key(request.uv_binary, public_key_der.as_slice())?;
    let metadata_tgz = create_metadata_tgz(request.config_json)?;
    let payload_tgz = compress_archive(request.payload_tar)?;
    let mut content: Vec<u8> = Vec::new();
    content.extend_from_slice(binary.as_slice());
    content.extend_from_slice(metadata_tgz.as_slice());
    content.extend_from_slice(payload_tgz.as_slice());
    assert(content@ =~= signed_content(binary@, metadata_tgz@, payload_tgz@));
    let signature = sign_content_digest(content.as_slice(), request.private_key_pem)?;
    Ok(
        assemble_package(
            binary.as_slice(),
            metadata_tgz.as_slice(),
            payload_tgz.as_slice(),
            signature.as_slice(),
        ),
    )
}

/// A package file reads back: it ends with the magic and, before it, a sealed
/// v0.1 footer of parts without gaps, which leads to every part, and the signed
/// content is everything before the signature.
#[verifier::rlimit(50)]
pub proof fn law_package_reads_back(
    binary: Seq<u8>,
    metadata: Seq<u8>,
    payload: Seq<u8>,
    signature: Seq<u8>,
)
    requires
        binary.len() + metadata.len() + payload.len() + signature.len() <= u64::MAX,
    ensures
        ({
            let file = package_file(binary, metadata, payload, signature);
            let footer = trailing_footer(file);
            &&& file.subrange(file.len() - 8, file.len() as int) == PSPF_EOF_MAGIC_STRING@
            &&& footer == package_footer(binary, metadata, payload, signature)
            &&& footer.sealed()
            &&& footer.metadata_offset == footer.uv_binary_size
            &&& footer.payload_offset == footer.metadata_offset + footer.metadata_size
            &&& footer.signature_offset == footer.payload_offset + footer.payload_size
            &&& file.len() == footer.signature_offset + footer.signature_size + 72
            &&& file.subrange(0, footer.uv_binary_size as int) == binary
            &&& file.subrange(
                footer.metadata_offset as int,
                footer.metadata_offset + footer.metadata_size,
            ) == metadata
            &&& file.subrange(
                footer.payload_offset as int,
                footer.payload_offset + footer.payload_size,
            ) == payload
            &&& file.subrange(
                footer.signature_offset as int,
                footer.signature_offset + footer.signature_size,
            ) == signature
            &&& file.subrange(0, footer.signature_offset as int) == signed_content(
                binary,
                metadata,
                payload,
            )
        }),
{
    let file = package_file(binary, metadata, payload, signature);
    let footer = package_footer(binary, metadata, payload, signature);
    law_footer_v1_decodes_what_it_encoded(footer);
    assert(file.subrange(file.len() - 72, file.len() - 8) =~= footer.encoded());
    assert(file.subrange(file.len() - 8, file.len() as int) =~= PSPF_EOF_MAGIC_STRING@);
    assert(file.subrange(0, footer.uv_binary_size as int) =~= binary);
    assert(file.subrange(
        footer.metadata_offset as int,
        footer.metadata_offset + footer.metadata_size,
    ) =~= metadata);
    assert(file.subrange(
        footer.payload_offset as int,
        footer.payload_offset + footer.payload_size,
    ) =~= payload);
    assert(file.subrange(
        footer.signature_offset as int,
        footer.signature_offset + footer.signature_size,
    ) =~= signature);
    assert(file.subrange(0, footer.signature_offset as int) =~= signed_content(
        binary,
        metadata,
        payload,
    ));
}

/// Writing the trailer of a package behind its body makes the package file.
pub proof fn law_body_and_trailer_make_the_file(
    package: Package,
    binary: Seq<u8>,
    metadata: Seq<u8>,
    payload: Seq<u8>,
    signature: Seq<u8>,
)
    requires
        package.holds(binary, metadata, payload, signature),
    ensures
        package.body@ + (package.footer.encoded() + PSPF_EOF_MAGIC_STRING@) == package_file(
            binary,
            metadata,
            payload,
            signature,
        ),
{
    assert(package.body@ + (package.footer.encoded() + PSPF_EOF_MAGIC_STRING@) =~= package_file(
        binary,
        metadata,
        payload,
        signature,
    ));
}

/// What is needed to verify a signed package stands in its file: the footer
/// before the end-of-file magic is sealed, the signature that it leads to is as
/// long as the modulus of the key and is accepted for the digest of everything
/// before the signature, and `config.json` reads back from the metadata that it
/// leads to.
#[verifier::rlimit(50)]
pub proof fn law_signed_package_verifies(
    package: Package,
    binary: Seq<u8>,
    metadata: Seq<u8>,
    payload: Seq<u8>,
    pem: Seq<char>,
    config_json: Seq<u8>,
)
    requires
        package.signed(binary, metadata, payload, pem),
        gunzipped(metadata) == Some(config_archive(config_json)),
        package.body@.len() <= u64::MAX,
        config_json.len() <= u64::MAX,
    ensures
        ({
            let file = package.body@ + (package.footer.encoded() + PSPF_EOF_MAGIC_STRING@);
            let footer = trailing_footer(file);
            let archive = gunzipped(
                file.subrange(
                    footer.metadata_offset as int,
                    footer.metadata_offset + footer.metadata_size,
                ),
            )->0;
            &&& file.subrange(file.len() - 8, file.len() as int) == PSPF_EOF_MAGIC_STRING@
            &&& footer.sealed()
            &&& file.subrange(0, footer.uv_binary_size as int) == binary
            &&& pss_accepts_digest(
                pem,
                sha256(file.subrange(0, footer.signature_offset as int)),
                file.subrange(
                    footer.signature_offset as int,
                    footer.signature_offset + footer.signature_size,
                ),
            )
            &&& footer.signature_size == modulus_size(pem)
            &&& entry_named(archive, "config.json"@)
            &&& entry_data(archive) == config_json
        }),
{
    let signature = choose|signature: Seq<u8>| #[trigger]
        signs_digest(pem, signed_content(binary, metadata, payload), signature)
            && package.holds(binary, metadata, payload, signature);
    law_body_and_trailer_make_the_file(package, binary, metadata, payload, signature);
    law_package_reads_back(binary, metadata, payload, signature);
    law_config_archive_reads_back(config_json);
}

/// Embedding a public key keeps the size of the binary and everything outside
/// the reserved area, and puts the key, followed by zeros, into that area.
pub proof fn law_embedded_key_reads_back(uv_binary: Seq<u8>, der: Seq<u8>)
    requires
        der.len() <= PUBLIC_KEY_MAX_SIZE,
        key_area_end() <= uv_binary.len(),
    ensures
        ({
            let binary = keyed_binary(uv_binary, der);
            let offset = PUBLIC_KEY_EMBED_OFFSET as int;
            &&& binary.len() == uv_binary.len()
            &&& binary.subrange(offset, offset + der.len()) == der
            &&& binary.subrange(offset + der.len(), key_area_end()) == zeros(
                (PUBLIC_KEY_MAX_SIZE - der.len()) as nat,
            )
            &&& forall|i: int|
                0 <= i < offset || key_area_end() <= i < uv_binary.len() ==> #[trigger] binary[i]
                    == uv_binary[i]
        }),
{
    let binary = keyed_binary(uv_binary, der);
    let offset = PUBLIC_KEY_EMBED_OFFSET as int;
    assert(binary.subrange(offset, offset + der.len()) =~= der);
    assert(binary.subrange(offset + der.len(), key_area_end()) =~= zeros(
        (PUBLIC_KEY_MAX_SIZE - der.len()) as nat,
    ));
}

/// The key area is the 2048 bytes from 1 MiB on. Embedding a key replaces these
/// bytes by the key and zeros, and no others.
pub proof fn law_key_area_is_replaced(uv_binary: Seq<u8>, der: Seq<u8>)
    requires
        der.len() <= 2048,
        uv_binary.len() >= 1_050_624,
    ensures
        ({
            let binary = keyed_binary(uv_binary, der);
            &&& key_area_end() == 1_050_624
            &&& binary.len() == uv_binary.len()
            &&& binary.take(1_048_576) == uv_binary.take(1_048_576)
            &&& binary.subrange(1_048_576, 1_048_576 + der.len() as int) == der
            &&& forall|i: int| 1_048_576 + der.len() <= i < 1_050_624 ==> #[trigger] binary[i] == 0
            &&& binary.skip(1_050_624) == uv_binary.skip(1_050_624)
        }),
{
    let binary = keyed_binary(uv_binary, der);
    assert(binary.take(1_048_576) =~= uv_binary.take(1_048_576));
    assert(binary.subrange(1_048_576, 1_048_576 + der.len() as int) =~= der);
    assert(binary.skip(1_050_624) =~= uv_binary.skip(1_050_624));
}

/// A package file is its parts in order, the signature, 64 bytes of footer with
/// the size and the offset of every part, and `!PSPF` with three zero bytes.
#[verifier::rlimit(50)]
pub proof fn law_package_layout(
    package: Package,
    binary: Seq<u8>,
    metadata: Seq<u8>,
    payload: Seq<u8>,
    signature: Seq<u8>,
)
    requires
        package.holds(binary, metadata, payload, signature),
        package.body@.len() <= u64::MAX,
    ensures
        ({
            let file = package_file(binary, metadata, payload, signature);
            let end = (binary + metadata + payload + signature).len() as int;
            let footer = file.subrange(end, end + 64);
            &&& package.body@ == binary + metadata + payload + signature
            &&& package.footer.encoded() == footer
            &&& file.len() == end + 72
            &&& file.subrange(0, end) == binary + metadata + payload + signature
            &&& le_value(footer.subrange(0, 2)) == 1
            &&& le_value(footer.subrange(2, 10)) == binary.len()
            &&& le_value(footer.subrange(10, 18)) == metadata.len()
            &&& le_value(footer.subrange(18, 26)) == binary.len()
            &&& le_value(footer.subrange(26, 34)) == payload.len()
            &&& le_value(footer.subrange(34, 42)) == binary.len() + metadata.len()
            &&& le_value(footer.subrange(42, 50)) == signature.len()
            &&& le_value(footer.subrange(50, 58)) == binary.len() + metadata.len() + payload.len()
            &&& le_value(footer.subrange(58, 62)) == crc32(
                footer.subrange(0, 58) + seq![0u8, 0u8, 0u8, 0u8, 0u8, 0u8],
            )
            &&& footer.subrange(62, 64) == seq![0u8, 0u8]
            &&& file.subrange(end + 64, end + 72) == seq![
                0x21u8,
                0x50u8,
                0x53u8,
                0x50u8,
                0x46u8,
                0u8,
                0u8,
                0u8,
            ]
        }),
{
    let file = package_file(binary, metadata, payload, signature);
    let footer = package.footer;
    let end = (binary + metadata + payload + signature).len() as int;
    law_footer_v1_fields_have_their_places(footer);
    law_new_footer_v1_has_the_given_fields(
        binary.len() as u64,
        metadata.len() as u64,
        binary.len() as u64,
        payload.len() as u64,
        (binary + metadata).len() as u64,
        signature.len() as u64,
        (binary + metadata + payload).len() as u64,
    );
    assert(package.body@ =~= binary + metadata + payload + signature);
    assert(file.subrange(end, end + 64) =~= footer.encoded());
    assert(file.subrange(0, end) =~= binary + metadata + payload + signature);
    assert(footer.encoded().subrange(62, 64) =~= seq![0u8, 0u8]);
    assert(file.subrange(end + 64, end + 72) =~= seq![
        0x21u8,
        0x50u8,
        0x53u8,
        0x50u8,
        0x46u8,
        0u8,
        0u8,
        0u8,
    ]);
}

/// The body of a signed package is its parts in order and, as many bytes as the
/// modulus of the key has, a signature that is accepted for the digest of these
/// parts.
#[verifier::rlimit(50)]
pub proof fn law_signature_stands_behind_the_parts(
    package: Package,
    binary: Seq<u8>,
    metadata: Seq<u8>,
    payload: Seq<u8>,
    pem: Seq<char>,
)
    requires
        package.signed(binary, metadata, payload, pem),
        package.body@.len() <= u64::MAX,
    ensures
        ({
            let content = binary + metadata + payload;
            let start = content.len() as int;
            &&& package.body@.len() == start + modulus_size(pem)
            &&& package.body@.take(start) == content
            &&& pss_accepts_digest(pem, sha256(content), package.body@.skip(start))
            &&& package.footer.uv_binary_size == binary.len()
            &&& package.footer.metadata_size == metadata.len()
            &&& package.footer.metadata_offset == binary.len()
            &&& package.footer.payload_size == payload.len()
            &&& package.footer.payload_offset == binary.len() + metadata.len()
            &&& package.footer.signature_size == modulus_size(pem)
            &&& package.footer.signature_offset == start
            &&& package.footer.version == 1
        }),
{
    let content = binary + metadata + payload;
    let start = content.len() as int;
    let signature = choose|signature: Seq<u8>| #[trigger]
        signs_digest(pem, signed_content(binary, metadata, payload), signature)
            && package.holds(binary, metadata, payload, signature);
    law_package_layout(package, binary, metadata, payload, signature);
    assert(package.body@.take(start) =~= content);
    assert(signed_content(binary, metadata, payload) =~= content);
    assert(package.body@.skip(start) =~= signature);
}

} // verus!
