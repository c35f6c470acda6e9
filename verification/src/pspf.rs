//! The package footer and the package that a launcher starts.

use vstd::prelude::*;
use vstd::string::StringExecFns;

use crate::archive::{
    config_archive, create_metadata_tgz, create_payload_tgz, empty_payload_tgz, entry_data,
    entry_named, gunzipped, law_config_archive_reads_back, metadata_tgz, zeros,
};
use crate::checksum::{crc32, law_crc32_detects_changes_in_four_bytes};
use crate::error::PackageError;
use crate::le::{
    le_bytes, le_value, lemma_le_bytes_len, lemma_le_bytes_of_value, lemma_le_field,
    lemma_le_value_of_bytes, lemma_pow_256, load_le, push_le,
};
use crate::signing::{
    explains_unsigned_message, modulus_bits, modulus_size, private_key_parses,
    pss_accepts_message, sha256, sign_content, signs_message, sound_key, MIN_MODULUS_BITS,
};
use crate::text::{hex_digits, hex_text, push_hex};

verus! {

/// Version identifier for PSPF v0.1.
pub const PSPF_VERSION_V0_1: u16 = 0x0001;

/// The magic number inside the footer: `PSP0` in ASCII, least significant byte first.
pub const INTERNAL_FOOTER_MAGIC: u32 = 0x30505350;

/// The eight bytes that end a package: `!PSPF` and three zero bytes.
pub const PSP_EOF_MAGIC: &'static [u8; 8] = &[0x21, 0x50, 0x53, 0x50, 0x46, 0x00, 0x00, 0x00];

/// The size of an encoded footer.
pub const PSP_FOOTER_SIZE: usize = 76;

/// The footer of a package: where its parts lie in the file.
#[derive(Debug, Clone, PartialEq, Eq)]
pub struct PspFileFooter {
    pub uv_binary_offset: u64,
    pub uv_binary_size: u64,
    pub metadata_tgz_offset: u64,
    pub metadata_tgz_size: u64,
    pub payload_tgz_offset: u64,
    pub payload_tgz_size: u64,
    pub package_signature_offset: u64,
    pub package_signature_size: u64,
    pub pspf_version: u16,
    pub reserved: u16,
    /// CRC-32 of all other fields.
    pub footer_struct_checksum: u32,
    /// [`INTERNAL_FOOTER_MAGIC`].
    pub internal_footer_magic: u32,
}

/// What `verify_internal_consistency` says of a wrong magic number.
pub open spec fn magic_message(found: u32) -> Seq<char> {
    "Invalid internal footer magic. Expected: "@ + hex_text(INTERNAL_FOOTER_MAGIC) + ", Found: "@
        + hex_text(found)
}

/// What `verify_internal_consistency` says of a wrong checksum.
pub open spec fn checksum_message(expected: u32, found: u32) -> Seq<char> {
    "Footer checksum mismatch. Expected: "@ + hex_text(expected) + ", Found: "@ + hex_text(found)
}

impl PspFileFooter {
    /// The fields before the checksum, in the order of the struct.
    pub open spec fn leading_bytes(self) -> Seq<u8> {
        le_bytes(self.uv_binary_offset as nat, 8)
            + le_bytes(self.uv_binary_size as nat, 8)
            + le_bytes(self.metadata_tgz_offset as nat, 8)
            + le_bytes(self.metadata_tgz_size as nat, 8)
            + le_bytes(self.payload_tgz_offset as nat, 8)
            + le_bytes(self.payload_tgz_size as nat, 8)
            + le_bytes(self.package_signature_offset as nat, 8)
            + le_bytes(self.package_signature_size as nat, 8)
            + le_bytes(self.pspf_version as nat, 2)
            + le_bytes(self.reserved as nat, 2)
    }

    /// The footer in the file: every field in little-endian order, without gaps.
    pub open spec fn encoded(self) -> Seq<u8> {
        self.leading_bytes() + le_bytes(self.footer_struct_checksum as nat, 4) + le_bytes(
            self.internal_footer_magic as nat,
            4,
        )
    }

    /// What the checksum covers: every field but the checksum.
    pub open spec fn checksummed(self) -> Seq<u8> {
        self.leading_bytes() + le_bytes(self.internal_footer_magic as nat, 4)
    }

    /// The footer that 76 bytes encode.
    pub open spec fn decoded(bytes: Seq<u8>) -> PspFileFooter {
        PspFileFooter {
            uv_binary_offset: le_value(bytes.subrange(0, 8)) as u64,
            uv_binary_size: le_value(bytes.subrange(8, 16)) as u64,
            metadata_tgz_offset: le_value(bytes.subrange(16, 24)) as u64,
            metadata_tgz_size: le_value(bytes.subrange(24, 32)) as u64,
            payload_tgz_offset: le_value(bytes.subrange(32, 40)) as u64,
            payload_tgz_size: le_value(bytes.subrange(40, 48)) as u64,
            package_signature_offset: le_value(bytes.subrange(48, 56)) as u64,
            package_signature_size: le_value(bytes.subrange(56, 64)) as u64,
            pspf_version: le_value(bytes.subrange(64, 66)) as u16,
            reserved: le_value(bytes.subrange(66, 68)) as u16,
            footer_struct_checksum: le_value(bytes.subrange(68, 72)) as u32,
            internal_footer_magic: le_value(bytes.subrange(72, 76)) as u32,
        }
    }

    /// The magic number and the checksum are what they should be.
    pub open spec fn consistent(self) -> bool {
        &&& self.internal_footer_magic == INTERNAL_FOOTER_MAGIC
        &&& self.footer_struct_checksum == crc32(self.checksummed())
    }

    /// A v0.1 footer with the given offsets and sizes and a matching checksum.
    pub fn new(
        uv_binary_offset: u64,
        uv_binary_size: u64,
        metadata_tgz_offset: u64,
        metadata_tgz_size: u64,
        payload_tgz_offset: u64,
        payload_tgz_size: u64,
        package_signature_offset: u64,
        package_signature_size: u64,
    ) -> (footer: Self)
        ensures
            footer == footer_of(
                uv_binary_offset,
                uv_binary_size,
                metadata_tgz_offset,
                metadata_tgz_size,
                payload_tgz_offset,
                payload_tgz_size,
                package_signature_offset,
                package_signature_size,
            ),
            footer.consistent(),
    {
        let mut footer = PspFileFooter {
            uv_binary_offset,
            uv_binary_size,
            metadata_tgz_offset,
            metadata_tgz_size,
            payload_tgz_offset,
            payload_tgz_size,
            package_signature_offset,
            package_signature_size,
            pspf_version: PSPF_VERSION_V0_1,
            reserved: 0,
            footer_struct_checksum: 0,
            internal_footer_magic: INTERNAL_FOOTER_MAGIC,
        };
        let checksum = footer.calculate_checksum();
        footer.footer_struct_checksum = checksum;
        footer
    }

    fn push_leading_bytes(&self, out: &mut Vec<u8>)
        ensures
            final(out)@ == old(out)@ + self.leading_bytes(),
    {
        push_le(out, self.uv_binary_offset, 8);
        push_le(out, self.uv_binary_size, 8);
        push_le(out, self.metadata_tgz_offset, 8);
        push_le(out, self.metadata_tgz_size, 8);
        push_le(out, self.payload_tgz_offset, 8);
        push_le(out, self.payload_tgz_size, 8);
        push_le(out, self.package_signature_offset, 8);
        push_le(out, self.package_signature_size, 8);
        push_le(out, self.pspf_version as u64, 2);
        push_le(out, self.reserved as u64, 2);
        assert(out@ =~= old(out)@ + self.leading_bytes());
    }

    /// The CRC-32 (IEEE) checksum of the footer fields, without
    /// `footer_struct_checksum` itself.
    pub fn calculate_checksum(&self) -> (checksum: u32)
        ensures
            checksum == crc32(self.checksummed()),
    {
        let mut bytes: Vec<u8> = Vec::new();
        self.push_leading_bytes(&mut bytes);
        push_le(&mut bytes, self.internal_footer_magic as u64, 4);
        assert(bytes@ =~= self.checksummed());
        crc32fast::hash(bytes.as_slice())
    }

    /// The footer as 76 bytes in little-endian order.
    pub fn to_le_bytes(&self) -> (bytes: [u8; PSP_FOOTER_SIZE])
        ensures
            bytes@ == self.encoded(),
    {
        broadcast use lemma_le_bytes_len;

        let mut fields: Vec<u8> = Vec::new();
        self.push_leading_bytes(&mut fields);
        push_le(&mut fields, self.footer_struct_checksum as u64, 4);
        push_le(&mut fields, self.internal_footer_magic as u64, 4);
        assert(fields@ =~= self.encoded());
        let mut bytes: [u8; PSP_FOOTER_SIZE] = [0u8; 76];
        let mut i: usize = 0;
        while i < PSP_FOOTER_SIZE
            invariant
                i <= 76,
                fields@.len() == 76,
                forall|j: int| 0 <= j < i ==> bytes@[j] == fields@[j],
            decreases 76 - i,
        {
            bytes[i] = fields[i];
            i += 1;
        }
        assert(bytes@ =~= fields@);
        bytes
    }

    /// The footer that `bytes` encodes in little-endian order. Only 76 bytes
    /// are a footer.
    pub fn from_le_bytes(bytes: &[u8]) -> (footer: Result<Self, &'static str>)
        ensures
            bytes@.len() == PSP_FOOTER_SIZE ==> footer == Ok::<Self, &'static str>(
                Self::decoded(bytes@),
            ),
            bytes@.len() != PSP_FOOTER_SIZE ==> (footer matches Err(message) && message@
                == "Input byte slice is not 76 bytes long"@),
    {
        if bytes.len() != PSP_FOOTER_SIZE {
            return Err("Input byte slice is not 76 bytes long");
        }
        proof {
            lemma_pow_256();
        }
        Ok(
            PspFileFooter {
                uv_binary_offset: load_le(bytes, 0, 8),
                uv_binary_size: load_le(bytes, 8, 8),
                metadata_tgz_offset: load_le(bytes, 16, 8),
                metadata_tgz_size: load_le(bytes, 24, 8),
                payload_tgz_offset: load_le(bytes, 32, 8),
                payload_tgz_size: load_le(bytes, 40, 8),
                package_signature_offset: load_le(bytes, 48, 8),
                package_signature_size: load_le(bytes, 56, 8),
                pspf_version: load_le(bytes, 64, 2) as u16,
                reserved: load_le(bytes, 66, 2) as u16,
                footer_struct_checksum: load_le(bytes, 68, 4) as u32,
                internal_footer_magic: load_le(bytes, 72, 4) as u32,
            },
        )
    }

    /// Checks the magic number, then the checksum.
    pub fn verify_internal_consistency(&self) -> (outcome: Result<(), String>)
        ensures
            outcome is Ok <==> self.consistent(),
            self.internal_footer_magic != INTERNAL_FOOTER_MAGIC ==> (outcome matches Err(message)
                && message@ == magic_message(self.internal_footer_magic)),
            self.internal_footer_magic == INTERNAL_FOOTER_MAGIC && !self.consistent() ==> (
            outcome matches Err(message) && message@ == checksum_message(
                crc32(self.checksummed()),
                self.footer_struct_checksum,
            )),
    {
        if self.internal_footer_magic != INTERNAL_FOOTER_MAGIC {
            let mut message = String::from_str("Invalid internal footer magic. Expected: ");
            push_hex(&mut message, INTERNAL_FOOTER_MAGIC);
            message.append(", Found: ");
            push_hex(&mut message, self.internal_footer_magic);
            return Err(message);
        }
        let expected_checksum = self.calculate_checksum();
        if self.footer_struct_checksum != expected_checksum {
            let mut message = String::from_str("Footer checksum mismatch. Expected: ");
            push_hex(&mut message, expected_checksum);
            message.append(", Found: ");
            push_hex(&mut message, self.footer_struct_checksum);
            return Err(message);
        }
        Ok(())
    }
}

/// The v0.1 footer with the given offsets and sizes and a matching checksum.
pub open spec fn footer_of(
    uv_binary_offset: u64,
    uv_binary_size: u64,
    metadata_tgz_offset: u64,
    metadata_tgz_size: u64,
    payload_tgz_offset: u64,
    payload_tgz_size: u64,
    package_signature_offset: u64,
    package_signature_size: u64,
) -> PspFileFooter {
    let unsealed = PspFileFooter {
        uv_binary_offset,
        uv_binary_size,
        metadata_tgz_offset,
        metadata_tgz_size,
        payload_tgz_offset,
        payload_tgz_size,
        package_signature_offset,
        package_signature_size,
        pspf_version: PSPF_VERSION_V0_1,
        reserved: 0,
        footer_struct_checksum: 0,
        internal_footer_magic: INTERNAL_FOOTER_MAGIC,
    };
    PspFileFooter { footer_struct_checksum: crc32(unsealed.checksummed()), ..unsealed }
}

/// Decoding an encoded footer gives the footer back.
pub proof fn law_footer_decodes_what_it_encoded(footer: PspFileFooter)
    ensures
        footer.encoded().len() == PSP_FOOTER_SIZE,
        PspFileFooter::decoded(footer.encoded()) == footer,
{
    broadcast use lemma_le_bytes_len;

    let bytes = footer.encoded();
    lemma_pow_256();
    lemma_le_value_of_bytes(footer.uv_binary_offset as nat, 8);
    lemma_le_value_of_bytes(footer.uv_binary_size as nat, 8);
    lemma_le_value_of_bytes(footer.metadata_tgz_offset as nat, 8);
    lemma_le_value_of_bytes(footer.metadata_tgz_size as nat, 8);
    lemma_le_value_of_bytes(footer.payload_tgz_offset as nat, 8);
    lemma_le_value_of_bytes(footer.payload_tgz_size as nat, 8);
    lemma_le_value_of_bytes(footer.package_signature_offset as nat, 8);
    lemma_le_value_of_bytes(footer.package_signature_size as nat, 8);
    lemma_le_value_of_bytes(footer.pspf_version as nat, 2);
    lemma_le_value_of_bytes(footer.reserved as nat, 2);
    lemma_le_value_of_bytes(footer.footer_struct_checksum as nat, 4);
    lemma_le_value_of_bytes(footer.internal_footer_magic as nat, 4);
    assert(bytes.subrange(0, 8) =~= le_bytes(footer.uv_binary_offset as nat, 8));
    assert(bytes.subrange(8, 16) =~= le_bytes(footer.uv_binary_size as nat, 8));
    assert(bytes.subrange(16, 24) =~= le_bytes(footer.metadata_tgz_offset as nat, 8));
    assert(bytes.subrange(24, 32) =~= le_bytes(footer.metadata_tgz_size as nat, 8));
    assert(bytes.subrange(32, 40) =~= le_bytes(footer.payload_tgz_offset as nat, 8));
    assert(bytes.subrange(40, 48) =~= le_bytes(footer.payload_tgz_size as nat, 8));
    assert(bytes.subrange(48, 56) =~= le_bytes(footer.package_signature_offset as nat, 8));
    assert(bytes.subrange(56, 64) =~= le_bytes(footer.package_signature_size as nat, 8));
    assert(bytes.subrange(64, 66) =~= le_bytes(footer.pspf_version as nat, 2));
    assert(bytes.subrange(66, 68) =~= le_bytes(footer.reserved as nat, 2));
    assert(bytes.subrange(68, 72) =~= le_bytes(footer.footer_struct_checksum as nat, 4));
    assert(bytes.subrange(72, 76) =~= le_bytes(footer.internal_footer_magic as nat, 4));
}

/// Encoding a decoded footer gives the 76 bytes back.
pub proof fn law_footer_encodes_what_it_decoded(bytes: Seq<u8>)
    requires
        bytes.len() == PSP_FOOTER_SIZE,
    ensures
        PspFileFooter::decoded(bytes).encoded() == bytes,
{
    lemma_pow_256();
    lemma_le_field(bytes, 0, 8);
    lemma_le_field(bytes, 8, 8);
    lemma_le_field(bytes, 16, 8);
    lemma_le_field(bytes, 24, 8);
    lemma_le_field(bytes, 32, 8);
    lemma_le_field(bytes, 40, 8);
    lemma_le_field(bytes, 48, 8);
    lemma_le_field(bytes, 56, 8);
    lemma_le_field(bytes, 64, 2);
    lemma_le_field(bytes, 66, 2);
    lemma_le_field(bytes, 68, 4);
    lemma_le_field(bytes, 72, 4);
    assert(PspFileFooter::decoded(bytes).encoded() =~= bytes);
}

/// The checksum field has no part in the checksum.
pub proof fn law_checksum_ignores_its_own_field(footer: PspFileFooter, checksum: u32)
    ensures
        (PspFileFooter { footer_struct_checksum: checksum, ..footer }).checksummed()
            == footer.checksummed(),
{
}

/// A consistent footer that is altered is no longer consistent, if the change is
/// one of the checksum alone or keeps within four consecutive bytes of the other
/// fields.
pub proof fn law_footer_tampering_is_detected(
    footer: PspFileFooter,
    altered: PspFileFooter,
    start: int,
)
    requires
        footer.consistent(),
        altered != footer,
        altered.footer_struct_checksum == footer.footer_struct_checksum || altered.checksummed()
            == footer.checksummed(),
        0 <= start <= 68,
        forall|i: int|
            0 <= i < 72 && !(start <= i < start + 4) ==> #[trigger] altered.checksummed()[i]
                == footer.checksummed()[i],
    ensures
        !altered.consistent(),
{
    broadcast use lemma_le_bytes_len;

    if altered.checksummed() == footer.checksummed() {
        let (a, b) = (altered.checksummed(), footer.checksummed());
        assert(altered.leading_bytes() =~= a.subrange(0, 68));
        assert(footer.leading_bytes() =~= b.subrange(0, 68));
        assert(le_bytes(altered.internal_footer_magic as nat, 4) =~= a.subrange(68, 72));
        assert(le_bytes(footer.internal_footer_magic as nat, 4) =~= b.subrange(68, 72));
        law_footer_decodes_what_it_encoded(altered);
        law_footer_decodes_what_it_encoded(footer);
    } else {
        law_crc32_detects_changes_in_four_bytes(altered.checksummed(), footer.checksummed(), start);
    }
}

/// The structure of `config.json` within `metadata.tgz`.
#[derive(Debug, Clone)]
pub struct ConfigJson {
    pub entry_point: String,
    pub python_version: String,
    /// `restricted` or `passthrough`.
    pub env_mode: Option<String>,
    pub env_allowed: Option<Vec<String>>,
    pub env_set: Option<std::collections::HashMap<String, String>>,
}

/// The contents that a package is made of.
pub struct PspPackageInputs<'a> {
    /// The launcher, which starts the file.
    pub go_launcher: &'a [u8],
    /// The `uv` binary.
    pub uv_binary: &'a [u8],
    /// The serialized [`ConfigJson`].
    pub config_json: &'a [u8],
    /// A PKCS#1 RSA private key in PEM form.
    pub private_key_pem: &'a str,
}

/// What the signature of a package covers.
pub open spec fn signed_content(
    launcher: Seq<u8>,
    uv_binary: Seq<u8>,
    metadata: Seq<u8>,
    payload: Seq<u8>,
) -> Seq<u8> {
    launcher + uv_binary + metadata + payload
}

/// The footer of a package whose parts follow each other without gaps.
pub open spec fn package_footer(
    launcher: Seq<u8>,
    uv_binary: Seq<u8>,
    metadata: Seq<u8>,
    payload: Seq<u8>,
    signature: Seq<u8>,
) -> PspFileFooter {
    footer_of(
        launcher.len() as u64,
        uv_binary.len() as u64,
        (launcher + uv_binary).len() as u64,
        metadata.len() as u64,
        (launcher + uv_binary + metadata).len() as u64,
        payload.len() as u64,
        (launcher + uv_binary + metadata + payload).len() as u64,
        signature.len() as u64,
    )
}

/// A package file: its parts, the footer and the end-of-file magic.
pub open spec fn package_file(
    launcher: Seq<u8>,
    uv_binary: Seq<u8>,
    metadata: Seq<u8>,
    payload: Seq<u8>,
    signature: Seq<u8>,
) -> Seq<u8> {
    signed_content(launcher, uv_binary, metadata, payload) + signature + package_footer(
        launcher,
        uv_binary,
        metadata,
        payload,
        signature,
    ).encoded() + PSP_EOF_MAGIC@
}

/// `file` is the package of these parts with a signature that the public half
/// of the key `pem` accepts for the digest of the parts.
pub open spec fn signed_package(
    file: Seq<u8>,
    launcher: Seq<u8>,
    uv_binary: Seq<u8>,
    metadata: Seq<u8>,
    payload: Seq<u8>,
    pem: Seq<char>,
) -> bool {
    exists|signature: Seq<u8>| #[trigger]
        signs_message(
            pem,
            signed_content(launcher, uv_binary, metadata, payload),
            signature,
        ) && file == package_file(launcher, uv_binary, metadata, payload, signature)
}

/// The footer that a package file ends with, before the end-of-file magic.
pub open spec fn trailing_footer(file: Seq<u8>) -> PspFileFooter {
    PspFileFooter::decoded(file.subrange(file.len() - 84, file.len() - 8))
}

/// The part of a file that an offset and a size point at.
pub open spec fn section(file: Seq<u8>, offset: u64, size: u64) -> Seq<u8> {
    file.subrange(offset as int, offset + size)
}

/// Signs the digest of launcher, `uv` binary, metadata and payload.
pub fn sign_data(
    launcher: &[u8],
    uv_binary: &[u8],
    metadata_tgz: &[u8],
    payload_tgz: &[u8],
    private_key_pem: &str,
) -> (signature: Result<Vec<u8>, PackageError>)
    ensures
        signature matches Ok(bytes) ==> private_key_parses(private_key_pem@) && signs_message(
            private_key_pem@,
            signed_content(launcher@, uv_binary@, metadata_tgz@, payload_tgz@),
            bytes@,
        ),
        signature matches Err(error) ==> explains_unsigned_message(
            error,
            private_key_pem@,
            signed_content(launcher@, uv_binary@, metadata_tgz@, payload_tgz@),
        ),
        sound_key(private_key_pem@) ==> signature is Ok,
        modulus_bits(private_key_pem@) < MIN_MODULUS_BITS ==> signature is Err,
{
    let mut content: Vec<u8> = Vec::new();
    content.extend_from_slice(launcher);
    content.extend_from_slice(uv_binary);
    content.extend_from_slice(metadata_tgz);
    content.extend_from_slice(payload_tgz);
    assert(content@ =~= signed_content(launcher@, uv_binary@, metadata_tgz@, payload_tgz@));
    sign_content(content.as_slice(), private_key_pem)
}

/// The package file of the given parts.
pub fn assemble_package(
    launcher: &[u8],
    uv_binary: &[u8],
    metadata_tgz: &[u8],
    payload_tgz: &[u8],
    signature: &[u8],
) -> (file: Vec<u8>)
    ensures
        file@ == package_file(launcher@, uv_binary@, metadata_tgz@, payload_tgz@, signature@),
{
    let mut file: Vec<u8> = Vec::new();
    file.extend_from_slice(launcher);
    assert(file@ =~= launcher@);
    let uv_binary_offset = file.len() as u64;
    file.extend_from_slice(uv_binary);
    let metadata_tgz_offset = file.len() as u64;
    file.extend_from_slice(metadata_tgz);
    let payload_tgz_offset = file.len() as u64;
    file.extend_from_slice(payload_tgz);
    let package_signature_offset = file.len() as u64;
    file.extend_from_slice(signature);
    let footer = PspFileFooter::new(
        uv_binary_offset,
        uv_binary.len() as u64,
        metadata_tgz_offset,
        metadata_tgz.len() as u64,
        payload_tgz_offset,
        payload_tgz.len() as u64,
        package_signature_offset,
        signature.len() as u64,
    );
    let footer_bytes = footer.to_le_bytes();
    file.extend_from_slice(footer_bytes.as_slice());
    file.extend_from_slice(PSP_EOF_MAGIC.as_slice());
    file
}

/// A signed package that a launcher starts. The payload is still empty.
pub fn create_pspf_package(inputs: &PspPackageInputs) -> (file: Result<Vec<u8>, PackageError>)
    ensures
        file matches Ok(bytes) ==> {
            &&& private_key_parses(inputs.private_key_pem@)
            &&& gunzipped(metadata_tgz(inputs.config_json@)) == Some(
                config_archive(inputs.config_json@),
            )
            &&& gunzipped(empty_payload_tgz()) == Some(zeros(1024))
            &&& signed_package(
                bytes@,
                inputs.go_launcher@,
                inputs.uv_binary@,
                metadata_tgz(inputs.config_json@),
                empty_payload_tgz(),
                inputs.private_key_pem@,
            )
        },
        file matches Err(error) ==> explains_unsigned_message(
            error,
            inputs.private_key_pem@,
            signed_content(
                inputs.go_launcher@,
                inputs.uv_binary@,
                metadata_tgz(inputs.config_json@),
                empty_payload_tgz(),
            ),
        ),
        sound_key(inputs.private_key_pem@) ==> file is Ok,
        modulus_bits(inputs.private_key_pem@) < MIN_MODULUS_BITS ==> file is Err,
{
    let metadata_tgz = create_metadata_tgz(inputs.config_json)?;
    let payload_tgz = create_payload_tgz()?;
    let signature = sign_data(
        inputs.go_launcher,
        inputs.uv_binary,
        metadata_tgz.as_slice(),
        payload_tgz.as_slice(),
        inputs.private_key_pem,
    )?;
    Ok(
        assemble_package(
            inputs.go_launcher,
            inputs.uv_binary,
            metadata_tgz.as_slice(),
            payload_tgz.as_slice(),
            signature.as_slice(),
        ),
    )
}

/// A signature holds for the joined parts, however they are divided.
pub proof fn law_signature_ignores_the_division(
    parts: (Seq<u8>, Seq<u8>, Seq<u8>, Seq<u8>),
    others: (Seq<u8>, Seq<u8>, Seq<u8>, Seq<u8>),
    pem: Seq<char>,
    signature: Seq<u8>,
)
    requires
        parts.0 + parts.1 + parts.2 + parts.3 == others.0 + others.1 + others.2 + others.3,
    ensures
        signs_message(pem, signed_content(parts.0, parts.1, parts.2, parts.3), signature)
            == signs_message(
            pem,
            signed_content(others.0, others.1, others.2, others.3),
            signature,
        ),
{
}

/// A package file reads back: it ends with the magic and, before it, a
/// consistent footer, which leads to every part, and the signed content is
/// everything before the signature.
#[verifier::rlimit(50)]
pub proof fn law_package_reads_back(
    launcher: Seq<u8>,
    uv_binary: Seq<u8>,
    metadata: Seq<u8>,
    payload: Seq<u8>,
    signature: Seq<u8>,
)
    requires
        launcher.len() + uv_binary.len() + metadata.len() + payload.len() + signature.len()
            <= u64::MAX,
    ensures
        ({
            let file = package_file(launcher, uv_binary, metadata, payload, signature);
            let footer = trailing_footer(file);
            &&& file.subrange(file.len() - 8, file.len() as int) == PSP_EOF_MAGIC@
            &&& footer == package_footer(launcher, uv_binary, metadata, payload, signature)
            &&& footer.consistent()
            &&& file.subrange(0, footer.uv_binary_offset as int) == launcher
            &&& section(file, footer.uv_binary_offset, footer.uv_binary_size) == uv_binary
            &&& section(file, footer.metadata_tgz_offset, footer.metadata_tgz_size) == metadata
            &&& section(file, footer.payload_tgz_offset, footer.payload_tgz_size) == payload
            &&& section(file, footer.package_signature_offset, footer.package_signature_size)
                == signature
            &&& file.subrange(0, footer.package_signature_offset as int) == signed_content(
                launcher,
                uv_binary,
                metadata,
                payload,
            )
            &&& file.len() == footer.package_signature_offset + footer.package_signature_size + 84
        }),
{
    let file = package_file(launcher, uv_binary, metadata, payload, signature);
    let footer = package_footer(launcher, uv_binary, metadata, payload, signature);
    law_footer_decodes_what_it_encoded(footer);
    assert(file.subrange(file.len() - 84, file.len() - 8) =~= footer.encoded());
    assert(file.subrange(file.len() - 8, file.len() as int) =~= PSP_EOF_MAGIC@);
    assert(file.subrange(0, footer.uv_binary_offset as int) =~= launcher);
    assert(section(file, footer.uv_binary_offset, footer.uv_binary_size) =~= uv_binary);
    assert(section(file, footer.metadata_tgz_offset, footer.metadata_tgz_size) =~= metadata);
    assert(section(file, footer.payload_tgz_offset, footer.payload_tgz_size) =~= payload);
    assert(section(file, footer.package_signature_offset, footer.package_signature_size)
        =~= signature);
    assert(file.subrange(0, footer.package_signature_offset as int) =~= signed_content(
        launcher,
        uv_binary,
        metadata,
        payload,
    ));
}

/// What is needed to verify a signed package stands in the package itself: the
/// footer before the end-of-file magic is consistent, the signature that it
/// leads to is as long as the modulus of the key and is accepted for the digest
/// of everything before the signature, and `config.json` reads back from the
/// metadata that it leads to.
#[verifier::rlimit(50)]
pub proof fn law_signed_package_verifies(
    file: Seq<u8>,
    launcher: Seq<u8>,
    uv_binary: Seq<u8>,
    metadata: Seq<u8>,
    payload: Seq<u8>,
    pem: Seq<char>,
    config_json: Seq<u8>,
)
    requires
        signed_package(file, launcher, uv_binary, metadata, payload, pem),
        gunzipped(metadata) == Some(config_archive(config_json)),
        file.len() <= u64::MAX,
        config_json.len() <= u64::MAX,
    ensures
        ({
            let footer = trailing_footer(file);
            let archive = gunzipped(
                section(file, footer.metadata_tgz_offset, footer.metadata_tgz_size),
            )->0;
            &&& file.subrange(file.len() - 8, file.len() as int) == PSP_EOF_MAGIC@
            &&& footer.consistent()
            &&& section(file, footer.uv_binary_offset, footer.uv_binary_size) == uv_binary
            &&& pss_accepts_message(
                pem,
                sha256(file.subrange(0, footer.package_signature_offset as int)),
                section(file, footer.package_signature_offset, footer.package_signature_size),
            )
            &&& footer.package_signature_size == modulus_size(pem)
            &&& entry_named(archive, "config.json"@)
            &&& entry_data(archive) == config_json
        }),
{
    let signature = choose|signature: Seq<u8>| #[trigger]
        signs_message(
            pem,
            signed_content(launcher, uv_binary, metadata, payload),
            signature,
        ) && file == package_file(launcher, uv_binary, metadata, payload, signature);
    law_footer_decodes_what_it_encoded(
        package_footer(launcher, uv_binary, metadata, payload, signature),
    );
    law_package_reads_back(launcher, uv_binary, metadata, payload, signature);
    law_config_archive_reads_back(config_json);
}

/// Every field of a footer stands at a place of its own in the encoding, least
/// significant byte first, whatever the values are.
pub proof fn law_footer_fields_have_their_places(footer: PspFileFooter)
    ensures
        ({
            let bytes = footer.encoded();
            &&& bytes.len() == 76
            &&& le_value(bytes.subrange(0, 8)) == footer.uv_binary_offset
            &&& le_value(bytes.subrange(8, 16)) == footer.uv_binary_size
            &&& le_value(bytes.subrange(16, 24)) == footer.metadata_tgz_offset
            &&& le_value(bytes.subrange(24, 32)) == footer.metadata_tgz_size
            &&& le_value(bytes.subrange(32, 40)) == footer.payload_tgz_offset
            &&& le_value(bytes.subrange(40, 48)) == footer.payload_tgz_size
            &&& le_value(bytes.subrange(48, 56)) == footer.package_signature_offset
            &&& le_value(bytes.subrange(56, 64)) == footer.package_signature_size
            &&& le_value(bytes.subrange(64, 66)) == footer.pspf_version
            &&& le_value(bytes.subrange(66, 68)) == footer.reserved
            &&& le_value(bytes.subrange(68, 72)) == footer.footer_struct_checksum
            &&& le_value(bytes.subrange(72, 76)) == footer.internal_footer_magic
        }),
{
    let bytes = footer.encoded();
    law_footer_decodes_what_it_encoded(footer);
    lemma_pow_256();
    lemma_le_field(bytes, 0, 8);
    lemma_le_field(bytes, 8, 8);
    lemma_le_field(bytes, 16, 8);
    lemma_le_field(bytes, 24, 8);
    lemma_le_field(bytes, 32, 8);
    lemma_le_field(bytes, 40, 8);
    lemma_le_field(bytes, 48, 8);
    lemma_le_field(bytes, 56, 8);
    lemma_le_field(bytes, 64, 2);
    lemma_le_field(bytes, 66, 2);
    lemma_le_field(bytes, 68, 4);
    lemma_le_field(bytes, 72, 4);
}

/// Every field of a decoded footer comes from the place that it has in the
/// encoding, whatever the bytes are.
pub proof fn law_footer_is_read_from_its_places(bytes: Seq<u8>)
    requires
        bytes.len() == 76,
    ensures
        ({
            let footer = PspFileFooter::decoded(bytes);
            &&& footer.uv_binary_offset == le_value(bytes.subrange(0, 8))
            &&& footer.uv_binary_size == le_value(bytes.subrange(8, 16))
            &&& footer.metadata_tgz_offset == le_value(bytes.subrange(16, 24))
            &&& footer.metadata_tgz_size == le_value(bytes.subrange(24, 32))
            &&& footer.payload_tgz_offset == le_value(bytes.subrange(32, 40))
            &&& footer.payload_tgz_size == le_value(bytes.subrange(40, 48))
            &&& footer.package_signature_offset == le_value(bytes.subrange(48, 56))
            &&& footer.package_signature_size == le_value(bytes.subrange(56, 64))
            &&& footer.pspf_version == le_value(bytes.subrange(64, 66))
            &&& footer.reserved == le_value(bytes.subrange(66, 68))
            &&& footer.footer_struct_checksum == le_value(bytes.subrange(68, 72))
            &&& footer.internal_footer_magic == le_value(bytes.subrange(72, 76))
        }),
{
    lemma_pow_256();
    lemma_le_field(bytes, 0, 8);
    lemma_le_field(bytes, 8, 8);
    lemma_le_field(bytes, 16, 8);
    lemma_le_field(bytes, 24, 8);
    lemma_le_field(bytes, 32, 8);
    lemma_le_field(bytes, 40, 8);
    lemma_le_field(bytes, 48, 8);
    lemma_le_field(bytes, 56, 8);
    lemma_le_field(bytes, 64, 2);
    lemma_le_field(bytes, 66, 2);
    lemma_le_field(bytes, 68, 4);
    lemma_le_field(bytes, 72, 4);
}

/// The checksum covers the encoded footer without the four bytes of the checksum
/// itself.
pub proof fn law_checksum_covers_the_footer(footer: PspFileFooter)
    ensures
        footer.checksummed() == footer.encoded().subrange(0, 68) + footer.encoded().subrange(
            72,
            76,
        ),
{
    broadcast use lemma_le_bytes_len;

    assert(footer.checksummed() =~= footer.encoded().subrange(0, 68) + footer.encoded().subrange(
        72,
        76,
    ));
}

/// A footer is consistent exactly if its encoding ends with `PSP0` and its
/// checksum is the CRC-32 of the bytes of the encoding around the checksum.
pub proof fn law_consistent_footers_end_with_the_magic(footer: PspFileFooter)
    ensures
        ({
            let bytes = footer.encoded();
            footer.consistent() <==> bytes.subrange(72, 76) == seq![0x50u8, 0x53u8, 0x50u8, 0x30u8]
                && le_value(bytes.subrange(68, 72)) == crc32(
                bytes.subrange(0, 68) + bytes.subrange(72, 76),
            )
        }),
{
    let bytes = footer.encoded();
    let magic = seq![0x50u8, 0x53u8, 0x50u8, 0x30u8];
    law_checksum_covers_the_footer(footer);
    law_footer_fields_have_their_places(footer);
    lemma_le_bytes_of_value(bytes.subrange(72, 76));
    lemma_le_bytes_of_value(magic);
    assert(le_value(magic) == 0x30505350) by {
        reveal_with_fuel(le_value, 5);
    }
}

/// A new footer has the given offsets and sizes, version 1, nothing reserved, and
/// is consistent.
pub proof fn law_new_footer_has_the_given_fields(
    uv_binary_offset: u64,
    uv_binary_size: u64,
    metadata_tgz_offset: u64,
    metadata_tgz_size: u64,
    payload_tgz_offset: u64,
    payload_tgz_size: u64,
    package_signature_offset: u64,
    package_signature_size: u64,
)
    ensures
        ({
            let footer = footer_of(
                uv_binary_offset,
                uv_binary_size,
                metadata_tgz_offset,
                metadata_tgz_size,
                payload_tgz_offset,
                payload_tgz_size,
                package_signature_offset,
                package_signature_size,
            );
            &&& footer.uv_binary_offset == uv_binary_offset
            &&& footer.uv_binary_size == uv_binary_size
            &&& footer.metadata_tgz_offset == metadata_tgz_offset
            &&& footer.metadata_tgz_size == metadata_tgz_size
            &&& footer.payload_tgz_offset == payload_tgz_offset
            &&& footer.payload_tgz_size == payload_tgz_size
            &&& footer.package_signature_offset == package_signature_offset
            &&& footer.package_signature_size == package_signature_size
            &&& footer.pspf_version == 1
            &&& footer.reserved == 0
            &&& footer.internal_footer_magic == 0x30505350
            &&& footer.footer_struct_checksum == crc32(
                footer.encoded().subrange(0, 68) + footer.encoded().subrange(72, 76),
            )
        }),
{
    let footer = footer_of(
        uv_binary_offset,
        uv_binary_size,
        metadata_tgz_offset,
        metadata_tgz_size,
        payload_tgz_offset,
        payload_tgz_size,
        package_signature_offset,
        package_signature_size,
    );
    law_checksum_covers_the_footer(footer);
}

/// The messages on inconsistent footers name the expected and the found value, in
/// this order.
pub proof fn law_messages_name_both_values(expected: u32, found: u32)
    ensures
        magic_message(found) == "Invalid internal footer magic. Expected: 0x30505350, Found: "@
            + hex_text(found),
        checksum_message(expected, found) == ("Footer checksum mismatch. Expected: "@ + hex_text(
            expected,
        )) + (", Found: "@ + hex_text(found)),
{
    reveal_strlit("Invalid internal footer magic. Expected: ");
    reveal_strlit("Invalid internal footer magic. Expected: 0x30505350, Found: ");
    reveal_strlit(", Found: ");
    reveal_strlit("Footer checksum mismatch. Expected: ");
    lemma_magic_text();
    assert(magic_message(found) =~= "Invalid internal footer magic. Expected: 0x30505350, Found: "@
        + hex_text(found));
    assert(checksum_message(expected, found) =~= ("Footer checksum mismatch. Expected: "@
        + hex_text(expected)) + (", Found: "@ + hex_text(found)));
}

proof fn lemma_magic_text()
    ensures
        hex_text(INTERNAL_FOOTER_MAGIC) == seq!['0', 'x', '3', '0', '5', '0', '5', '3', '5', '0'],
{
    reveal_strlit("0x");
    reveal_strlit("0123456789ABCDEF");
    reveal_with_fuel(hex_digits, 9);
    assert(hex_text(INTERNAL_FOOTER_MAGIC) =~= seq![
        '0',
        'x',
        '3',
        '0',
        '5',
        '0',
        '5',
        '3',
        '5',
        '0',
    ]);
}

/// A package file is its parts in order, the signature, 76 bytes of footer with
/// the offset and the size of every part, and `!PSPF` with three zero bytes.
#[verifier::rlimit(50)]
pub proof fn law_package_layout(
    launcher: Seq<u8>,
    uv_binary: Seq<u8>,
    metadata: Seq<u8>,
    payload: Seq<u8>,
    signature: Seq<u8>,
)
    requires
        launcher.len() + uv_binary.len() + metadata.len() + payload.len() + signature.len()
            <= u64::MAX,
    ensures
        ({
            let file = package_file(launcher, uv_binary, metadata, payload, signature);
            let end = (launcher + uv_binary + metadata + payload + signature).len() as int;
            let footer = file.subrange(end, end + 76);
            &&& file.len() == end + 84
            &&& file.subrange(0, end) == launcher + uv_binary + metadata + payload + signature
            &&& le_value(footer.subrange(0, 8)) == launcher.len()
            &&& le_value(footer.subrange(8, 16)) == uv_binary.len()
            &&& le_value(footer.subrange(16, 24)) == launcher.len() + uv_binary.len()
            &&& le_value(footer.subrange(24, 32)) == metadata.len()
            &&& le_value(footer.subrange(32, 40)) == launcher.len() + uv_binary.len()
                + metadata.len()
            &&& le_value(footer.subrange(40, 48)) == payload.len()
            &&& le_value(footer.subrange(48, 56)) == launcher.len() + uv_binary.len()
                + metadata.len() + payload.len()
            &&& le_value(footer.subrange(56, 64)) == signature.len()
            &&& le_value(footer.subrange(64, 66)) == 1
            &&& le_value(footer.subrange(66, 68)) == 0
            &&& le_value(footer.subrange(68, 72)) == crc32(
                footer.subrange(0, 68) + footer.subrange(72, 76),
            )
            &&& footer.subrange(72, 76) == seq![0x50u8, 0x53u8, 0x50u8, 0x30u8]
            &&& file.subrange(end + 76, end + 84) == seq![
                0x21u8,
                0x50u8,
                0x53u8,
                0x50u8,
                0x46u8,
                0u8,
                0u8,
                0u8,
            ]
        }),
{
    let file = package_file(launcher, uv_binary, metadata, payload, signature);
    let footer = package_footer(launcher, uv_binary, metadata, payload, signature);
    let end = (launcher + uv_binary + metadata + payload + signature).len() as int;
    law_footer_fields_have_their_places(footer);
    law_checksum_covers_the_footer(footer);
    law_consistent_footers_end_with_the_magic(footer);
    assert(file.subrange(end, end + 76) =~= footer.encoded());
    assert(file.subrange(0, end) =~= launcher + uv_binary + metadata + payload + signature);
    assert(file.subrange(end + 76, end + 84) =~= seq![
        0x21u8,
        0x50u8,
        0x53u8,
        0x50u8,
        0x46u8,
        0u8,
        0u8,
        0u8,
    ]);
}

/// A signed package starts with its parts in order. The bytes behind them, as many
/// as the modulus of the key has, are a signature that is accepted for the digest
/// of these parts, and the footer and the end-of-file magic follow.
#[verifier::rlimit(50)]
pub proof fn law_signature_stands_behind_the_parts(
    file: Seq<u8>,
    launcher: Seq<u8>,
    uv_binary: Seq<u8>,
    metadata: Seq<u8>,
    payload: Seq<u8>,
    pem: Seq<char>,
)
    requires
        signed_package(file, launcher, uv_binary, metadata, payload, pem),
        file.len() <= u64::MAX,
    ensures
        ({
            let content = launcher + uv_binary + metadata + payload;
            let start = content.len() as int;
            let end = start + modulus_size(pem);
            &&& file.len() == end + 84
            &&& file.subrange(0, start) == content
            &&& pss_accepts_message(pem, sha256(content), file.subrange(start, end))
            &&& le_value(file.subrange(end, end + 8)) == launcher.len()
            &&& le_value(file.subrange(end + 48, end + 56)) == start
            &&& le_value(file.subrange(end + 56, end + 64)) == modulus_size(pem)
        }),
{
    let content = launcher + uv_binary + metadata + payload;
    let start = content.len() as int;
    let end = start + modulus_size(pem);
    let signature = choose|signature: Seq<u8>| #[trigger]
        signs_message(
            pem,
            signed_content(launcher, uv_binary, metadata, payload),
            signature,
        ) && file == package_file(launcher, uv_binary, metadata, payload, signature);
    law_footer_fields_have_their_places(
        package_footer(launcher, uv_binary, metadata, payload, signature),
    );
    law_package_layout(launcher, uv_binary, metadata, payload, signature);
    let footer = file.subrange(end, end + 76);
    assert(file.subrange(0, start) =~= content);
    assert(signed_content(launcher, uv_binary, metadata, payload) =~= content);
    assert(file.subrange(start, end) =~= signature);
    assert(footer.subrange(0, 8) =~= file.subrange(end, end + 8));
    assert(footer.subrange(48, 56) =~= file.subrange(end + 48, end + 56));
    assert(footer.subrange(56, 64) =~= file.subrange(end + 56, end + 64));
}

} // verus!
