//! The 64-byte footer of a self-contained package, and its constants.

use byteorder::{LittleEndian, ReadBytesExt, WriteBytesExt};
use std::io::Read;
use vstd::prelude::*;

use crate::checksum::{crc32, law_crc32_detects_changes_in_four_bytes};
use crate::error::ReadError;
use crate::le::{
    le_bytes, le_value, lemma_le_bytes_len, lemma_le_field, lemma_le_value_of_bytes, lemma_pow_256,
    push_le,
};

verus! {

/// The eight bytes that end a package: `!PSPF` and three zero bytes.
pub const PSPF_EOF_MAGIC_STRING: &'static [u8; 8] = &[
    0x21,
    0x50,
    0x53,
    0x50,
    0x46,
    0x00,
    0x00,
    0x00,
];

/// Version identifier for PSPF v0.1.
pub const PSPF_VERSION_V0_1: u16 = 0x0001;

/// The version of the format that is written.
pub const CURRENT_PSPF_VERSION: u16 = PSPF_VERSION_V0_1;

/// The offset in the `uv` binary at which the public key is embedded.
pub const PUBLIC_KEY_EMBED_OFFSET: u64 = 1024 * 1024;

/// The size of the area that is reserved for the public key.
pub const PUBLIC_KEY_MAX_SIZE: usize = 2048;

/// The footer that stands just before [`PSPF_EOF_MAGIC_STRING`]. It is 64
/// bytes long, with all integers in little-endian order.
#[derive(Debug, Copy, Clone, PartialEq, Eq)]
pub struct PspFileFooterV1 {
    /// Structure format version: [`PSPF_VERSION_V0_1`] for v0.1.
    pub version: u16,
    /// Size of the `uv` binary at the beginning of the file.
    pub uv_binary_size: u64,
    /// Size of `metadata.tgz`.
    pub metadata_size: u64,
    /// Offset of `metadata.tgz` (should be `uv_binary_size`).
    pub metadata_offset: u64,
    /// Size of `payload.tgz`.
    pub payload_size: u64,
    /// Offset of `payload.tgz` (should be `metadata_offset + metadata_size`).
    pub payload_offset: u64,
    /// Size of the signature.
    pub signature_size: u64,
    /// Offset of the signature (should be `payload_offset + payload_size`).
    pub signature_offset: u64,
    /// CRC-32 of the footer itself, with this field taken as zero.
    pub footer_checksum: u32,
    /// Reserved for future use, zero for v0.1.
    pub reserved: [u8; 2],
}

/// `byteorder::WriteBytesExt::write_u16` on a vector, which `std` makes a
/// writer that grows as needed: appends two bytes, least significant first.
#[verifier::external_body]
fn write_u16_le(writer: &mut Vec<u8>, n: u16) -> (outcome: Result<(), std::io::Error>)
    ensures
        outcome is Ok,
        final(writer)@ == old(writer)@ + le_bytes(n as nat, 2),
{
    writer.write_u16::<LittleEndian>(n)
}

/// `byteorder::WriteBytesExt::write_u32` on a vector: appends four bytes, least
/// significant first.
#[verifier::external_body]
fn write_u32_le(writer: &mut Vec<u8>, n: u32) -> (outcome: Result<(), std::io::Error>)
    ensures
        outcome is Ok,
        final(writer)@ == old(writer)@ + le_bytes(n as nat, 4),
{
    writer.write_u32::<LittleEndian>(n)
}

/// `byteorder::WriteBytesExt::write_u64` on a vector: appends eight bytes, least
/// significant first.
#[verifier::external_body]
fn write_u64_le(writer: &mut Vec<u8>, n: u64) -> (outcome: Result<(), std::io::Error>)
    ensures
        outcome is Ok,
        final(writer)@ == old(writer)@ + le_bytes(n as nat, 8),
{
    writer.write_u64::<LittleEndian>(n)
}

/// `byteorder::ReadBytesExt::read_u16` on a slice, which `std` makes a reader
/// that moves forward: takes two bytes, least significant first, if there are
/// as many, and fails with the kind `UnexpectedEof` if not. Where the reader
/// stands after an error is not said.
#[verifier::external_body]
fn read_u16_le(reader: &mut &[u8]) -> (n: Result<u16, ReadError>)
    ensures
        n is Ok <==> old(reader)@.len() >= 2,
        n matches Err(error) ==> error is UnexpectedEof,
        n matches Ok(n) ==> n as nat == le_value(old(reader)@.subrange(0, 2)) && final(reader)@
            == old(reader)@.skip(2),
{
    reader.read_u16::<LittleEndian>().map_err(
        |error|
            match error.kind() {
                std::io::ErrorKind::UnexpectedEof => ReadError::UnexpectedEof(error),
                _ => ReadError::Other(error),
            },
    )
}

/// `byteorder::ReadBytesExt::read_u32` on a slice: takes four bytes, least
/// significant first, if there are as many, and fails with the kind
/// `UnexpectedEof` if not. Where the reader stands after an error is not said.
#[verifier::external_body]
fn read_u32_le(reader: &mut &[u8]) -> (n: Result<u32, ReadError>)
    ensures
        n is Ok <==> old(reader)@.len() >= 4,
        n matches Err(error) ==> error is UnexpectedEof,
        n matches Ok(n) ==> n as nat == le_value(old(reader)@.subrange(0, 4)) && final(reader)@
            == old(reader)@.skip(4),
{
    reader.read_u32::<LittleEndian>().map_err(
        |error|
            match error.kind() {
                std::io::ErrorKind::UnexpectedEof => ReadError::UnexpectedEof(error),
                _ => ReadError::Other(error),
            },
    )
}

/// `byteorder::ReadBytesExt::read_u64` on a slice: takes eight bytes, least
/// significant first, if there are as many, and fails with the kind
/// `UnexpectedEof` if not. Where the reader stands after an error is not said.
#[verifier::external_body]
fn read_u64_le(reader: &mut &[u8]) -> (n: Result<u64, ReadError>)
    ensures
        n is Ok <==> old(reader)@.len() >= 8,
        n matches Err(error) ==> error is UnexpectedEof,
        n matches Ok(n) ==> n as nat == le_value(old(reader)@.subrange(0, 8)) && final(reader)@
            == old(reader)@.skip(8),
{
    reader.read_u64::<LittleEndian>().map_err(
        |error|
            match error.kind() {
                std::io::ErrorKind::UnexpectedEof => ReadError::UnexpectedEof(error),
                _ => ReadError::Other(error),
            },
    )
}

/// `std::io::Read::read_exact` on a slice, into a buffer of two bytes: takes
/// two bytes if there are as many, and fails with the kind `UnexpectedEof` if
/// not. Where the reader stands after an error is not said.
#[verifier::external_body]
fn read_two_bytes(reader: &mut &[u8]) -> (bytes: Result<[u8; 2], ReadError>)
    ensures
        bytes is Ok <==> old(reader)@.len() >= 2,
        bytes matches Err(error) ==> error is UnexpectedEof,
        bytes matches Ok(bytes) ==> bytes@ == old(reader)@.subrange(0, 2) && final(reader)@
            == old(reader)@.skip(2),
{
    let mut bytes = [0u8; 2];
    match reader.read_exact(&mut bytes) {
        Ok(_) => Ok(bytes),
        Err(error) => match error.kind() {
            std::io::ErrorKind::UnexpectedEof => Err(ReadError::UnexpectedEof(error)),
            _ => Err(ReadError::Other(error)),
        },
    }
}

impl PspFileFooterV1 {
    /// The size of the footer in bytes.
    pub const SIZE: usize = 64;

    /// The fields before the checksum, in the order of the struct.
    pub open spec fn leading_bytes(self) -> Seq<u8> {
        le_bytes(self.version as nat, 2)
            + le_bytes(self.uv_binary_size as nat, 8)
            + le_bytes(self.metadata_size as nat, 8)
            + le_bytes(self.metadata_offset as nat, 8)
            + le_bytes(self.payload_size as nat, 8)
            + le_bytes(self.payload_offset as nat, 8)
            + le_bytes(self.signature_size as nat, 8)
            + le_bytes(self.signature_offset as nat, 8)
    }

    /// The footer in the file: every field in little-endian order, without gaps.
    pub open spec fn encoded(self) -> Seq<u8> {
        self.leading_bytes() + le_bytes(self.footer_checksum as nat, 4) + self.reserved@
    }

    /// What the checksum covers: the whole footer, with four zero bytes in place
    /// of the checksum.
    pub open spec fn checksummed(self) -> Seq<u8> {
        self.leading_bytes() + le_bytes(0, 4) + self.reserved@
    }

    /// The footer that 64 bytes encode.
    pub open spec fn decoded(bytes: Seq<u8>) -> PspFileFooterV1 {
        PspFileFooterV1 {
            version: le_value(bytes.subrange(0, 2)) as u16,
            uv_binary_size: le_value(bytes.subrange(2, 10)) as u64,
            metadata_size: le_value(bytes.subrange(10, 18)) as u64,
            metadata_offset: le_value(bytes.subrange(18, 26)) as u64,
            payload_size: le_value(bytes.subrange(26, 34)) as u64,
            payload_offset: le_value(bytes.subrange(34, 42)) as u64,
            signature_size: le_value(bytes.subrange(42, 50)) as u64,
            signature_offset: le_value(bytes.subrange(50, 58)) as u64,
            footer_checksum: le_value(bytes.subrange(58, 62)) as u32,
            reserved: [bytes[62], bytes[63]],
        }
    }

    /// The checksum is that of the footer.
    pub open spec fn sealed(self) -> bool {
        self.footer_checksum == crc32(self.checksummed())
    }

    /// A footer of the current version with the given sizes and offsets, zero
    /// reserved bytes and a matching checksum.
    pub fn new(
        uv_binary_size: u64,
        metadata_size: u64,
        metadata_offset: u64,
        payload_size: u64,
        payload_offset: u64,
        signature_size: u64,
        signature_offset: u64,
    ) -> (footer: Self)
        ensures
            footer == footer_v1_of(
                uv_binary_size,
                metadata_size,
                metadata_offset,
                payload_size,
                payload_offset,
                signature_size,
                signature_offset,
            ),
            footer.sealed(),
    {
        let mut footer = PspFileFooterV1 {
            version: CURRENT_PSPF_VERSION,
            uv_binary_size,
            metadata_size,
            metadata_offset,
            payload_size,
            payload_offset,
            signature_size,
            signature_offset,
            footer_checksum: 0,
            reserved: [0, 0],
        };
        let checksum = footer.calculate_checksum();
        footer.footer_checksum = checksum;
        footer
    }

    /// The CRC-32 checksum of the footer, with `footer_checksum` taken as zero.
    pub fn calculate_checksum(&self) -> (checksum: u32)
        ensures
            checksum == crc32(self.checksummed()),
    {
        let mut bytes: Vec<u8> = Vec::new();
        push_le(&mut bytes, self.version as u64, 2);
        push_le(&mut bytes, self.uv_binary_size, 8);
        push_le(&mut bytes, self.metadata_size, 8);
        push_le(&mut bytes, self.metadata_offset, 8);
        push_le(&mut bytes, self.payload_size, 8);
        push_le(&mut bytes, self.payload_offset, 8);
        push_le(&mut bytes, self.signature_size, 8);
        push_le(&mut bytes, self.signature_offset, 8);
        push_le(&mut bytes, 0, 4);
        bytes.extend_from_slice(self.reserved.as_slice());
        assert(bytes@ =~= self.checksummed());
        crc32fast::hash(bytes.as_slice())
    }

    /// Whether the checksum is that of the footer.
    pub fn verify_checksum(&self) -> (valid: bool)
        ensures
            valid == self.sealed(),
    {
        self.calculate_checksum() == self.footer_checksum
    }

    /// Appends the footer to `writer` in little-endian byte order.
    pub fn write_to(&self, writer: &mut Vec<u8>) -> (outcome: Result<(), std::io::Error>)
        ensures
            outcome is Ok,
            final(writer)@ == old(writer)@ + self.encoded(),
    {
        write_u16_le(writer, self.version)?;
        write_u64_le(writer, self.uv_binary_size)?;
        write_u64_le(writer, self.metadata_size)?;
        write_u64_le(writer, self.metadata_offset)?;
        write_u64_le(writer, self.payload_size)?;
        write_u64_le(writer, self.payload_offset)?;
        write_u64_le(writer, self.signature_size)?;
        write_u64_le(writer, self.signature_offset)?;
        write_u32_le(writer, self.footer_checksum)?;
        writer.extend_from_slice(self.reserved.as_slice());
        assert(writer@ =~= old(writer)@ + self.encoded());
        Ok(())
    }

    /// Reads a footer from the front of `reader`, in little-endian byte order,
    /// and moves `reader` behind it. Fails with `UnexpectedEof` if fewer than 64
    /// bytes are left.
    pub fn read_from(reader: &mut &[u8]) -> (footer: Result<Self, ReadError>)
        ensures
            footer is Ok <==> old(reader)@.len() >= Self::SIZE,
            footer matches Err(error) ==> error is UnexpectedEof,
            footer matches Ok(footer) ==> footer == Self::decoded(old(reader)@.subrange(0, 64))
                && final(reader)@ == old(reader)@.skip(64),
    {
        let ghost bytes = reader@;
        let version = read_u16_le(reader)?;
        assert(reader@ =~= bytes.skip(2));
        let uv_binary_size = read_u64_le(reader)?;
        assert(reader@ =~= bytes.skip(10));
        let metadata_size = read_u64_le(reader)?;
        assert(reader@ =~= bytes.skip(18));
        let metadata_offset = read_u64_le(reader)?;
        assert(reader@ =~= bytes.skip(26));
        let payload_size = read_u64_le(reader)?;
        assert(reader@ =~= bytes.skip(34));
        let payload_offset = read_u64_le(reader)?;
        assert(reader@ =~= bytes.skip(42));
        let signature_size = read_u64_le(reader)?;
        assert(reader@ =~= bytes.skip(50));
        let signature_offset = read_u64_le(reader)?;
        assert(reader@ =~= bytes.skip(58));
        let footer_checksum = read_u32_le(reader)?;
        assert(reader@ =~= bytes.skip(62));
        let reserved = read_two_bytes(reader)?;
        assert(reader@ =~= bytes.skip(64));
        proof {
            let all = bytes.subrange(0, 64);
            assert(all.subrange(0, 2) =~= bytes.subrange(0, 2));
            assert(all.subrange(2, 10) =~= bytes.skip(2).subrange(0, 8));
            assert(all.subrange(10, 18) =~= bytes.skip(10).subrange(0, 8));
            assert(all.subrange(18, 26) =~= bytes.skip(18).subrange(0, 8));
            assert(all.subrange(26, 34) =~= bytes.skip(26).subrange(0, 8));
            assert(all.subrange(34, 42) =~= bytes.skip(34).subrange(0, 8));
            assert(all.subrange(42, 50) =~= bytes.skip(42).subrange(0, 8));
            assert(all.subrange(50, 58) =~= bytes.skip(50).subrange(0, 8));
            assert(all.subrange(58, 62) =~= bytes.skip(58).subrange(0, 4));
            assert(reserved =~= [all[62], all[63]]);
        }
        Ok(
            PspFileFooterV1 {
                version,
                uv_binary_size,
                metadata_size,
                metadata_offset,
                payload_size,
                payload_offset,
                signature_size,
                signature_offset,
                footer_checksum,
                reserved,
            },
        )
    }
}

/// The footer of the current version with the given sizes and offsets, zero
/// reserved bytes and a matching checksum.
pub open spec fn footer_v1_of(
    uv_binary_size: u64,
    metadata_size: u64,
    metadata_offset: u64,
    payload_size: u64,
    payload_offset: u64,
    signature_size: u64,
    signature_offset: u64,
) -> PspFileFooterV1 {
    let unsealed = PspFileFooterV1 {
        version: CURRENT_PSPF_VERSION,
        uv_binary_size,
        metadata_size,
        metadata_offset,
        payload_size,
        payload_offset,
        signature_size,
        signature_offset,
        footer_checksum: 0,
        reserved: [0, 0],
    };
    PspFileFooterV1 { footer_checksum: crc32(unsealed.checksummed()), ..unsealed }
}

/// Decoding an encoded footer gives the footer back.
pub proof fn law_footer_v1_decodes_what_it_encoded(footer: PspFileFooterV1)
    ensures
        footer.encoded().len() == PspFileFooterV1::SIZE,
        PspFileFooterV1::decoded(footer.encoded()) == footer,
{
    broadcast use lemma_le_bytes_len;

    let bytes = footer.encoded();
    lemma_pow_256();
    lemma_le_value_of_bytes(footer.version as nat, 2);
    lemma_le_value_of_bytes(footer.uv_binary_size as nat, 8);
    lemma_le_value_of_bytes(footer.metadata_size as nat, 8);
    lemma_le_value_of_bytes(footer.metadata_offset as nat, 8);
    lemma_le_value_of_bytes(footer.payload_size as nat, 8);
    lemma_le_value_of_bytes(footer.payload_offset as nat, 8);
    lemma_le_value_of_bytes(footer.signature_size as nat, 8);
    lemma_le_value_of_bytes(footer.signature_offset as nat, 8);
    lemma_le_value_of_bytes(footer.footer_checksum as nat, 4);
    assert(bytes.subrange(0, 2) =~= le_bytes(footer.version as nat, 2));
    assert(bytes.subrange(2, 10) =~= le_bytes(footer.uv_binary_size as nat, 8));
    assert(bytes.subrange(10, 18) =~= le_bytes(footer.metadata_size as nat, 8));
    assert(bytes.subrange(18, 26) =~= le_bytes(footer.metadata_offset as nat, 8));
    assert(bytes.subrange(26, 34) =~= le_bytes(footer.payload_size as nat, 8));
    assert(bytes.subrange(34, 42) =~= le_bytes(footer.payload_offset as nat, 8));
    assert(bytes.subrange(42, 50) =~= le_bytes(footer.signature_size as nat, 8));
    assert(bytes.subrange(50, 58) =~= le_bytes(footer.signature_offset as nat, 8));
    assert(bytes.subrange(58, 62) =~= le_bytes(footer.footer_checksum as nat, 4));
    assert([bytes[62], bytes[63]] =~= footer.reserved);
}

/// Encoding a decoded footer gives the 64 bytes back.
pub proof fn law_footer_v1_encodes_what_it_decoded(bytes: Seq<u8>)
    requires
        bytes.len() == PspFileFooterV1::SIZE,
    ensures
        PspFileFooterV1::decoded(bytes).encoded() == bytes,
{
    lemma_pow_256();
    lemma_le_field(bytes, 0, 2);
    lemma_le_field(bytes, 2, 8);
    lemma_le_field(bytes, 10, 8);
    lemma_le_field(bytes, 18, 8);
    lemma_le_field(bytes, 26, 8);
    lemma_le_field(bytes, 34, 8);
    lemma_le_field(bytes, 42, 8);
    lemma_le_field(bytes, 50, 8);
    lemma_le_field(bytes, 58, 4);
    assert([bytes[62], bytes[63]]@ =~= bytes.subrange(62, 64));
    assert(PspFileFooterV1::decoded(bytes).encoded() =~= bytes);
}

/// The checksum is that of the 64 bytes that the footer encodes to with a zero
/// checksum.
pub proof fn law_checksum_v1_covers_the_footer(footer: PspFileFooterV1)
    ensures
        footer.checksummed().len() == PspFileFooterV1::SIZE,
        footer.checksummed() == (PspFileFooterV1 { footer_checksum: 0, ..footer }).encoded(),
{
    broadcast use lemma_le_bytes_len;

}

/// The value of the checksum field has no part in the checksum: footers that
/// agree in all other fields have the same.
pub proof fn law_checksum_v1_ignores_its_own_field(f: PspFileFooterV1, g: PspFileFooterV1)
    requires
        g == (PspFileFooterV1 { footer_checksum: g.footer_checksum, ..f }),
    ensures
        f.checksummed() == g.checksummed(),
        crc32(f.checksummed()) == crc32(g.checksummed()),
{
}

/// Footers written one after the other are read back one after the other.
pub proof fn law_footers_v1_read_back_in_order(
    first: PspFileFooterV1,
    second: PspFileFooterV1,
    rest: Seq<u8>,
)
    ensures
        ({
            let bytes = first.encoded() + second.encoded() + rest;
            &&& PspFileFooterV1::decoded(bytes.subrange(0, 64)) == first
            &&& PspFileFooterV1::decoded(bytes.skip(64).subrange(0, 64)) == second
            &&& bytes.skip(64).skip(64) == rest
        }),
{
    law_footer_v1_decodes_what_it_encoded(first);
    law_footer_v1_decodes_what_it_encoded(second);
    let bytes = first.encoded() + second.encoded() + rest;
    assert(bytes.subrange(0, 64) =~= first.encoded());
    assert(bytes.skip(64).subrange(0, 64) =~= second.encoded());
    assert(bytes.skip(64).skip(64) =~= rest);
}

/// A footer with a matching checksum that is altered no longer has one, if the
/// change is one of the checksum alone or keeps within four consecutive bytes of
/// the other fields.
pub proof fn law_footer_v1_tampering_is_detected(
    footer: PspFileFooterV1,
    altered: PspFileFooterV1,
    start: int,
)
    requires
        footer.sealed(),
        altered != footer,
        altered.footer_checksum == footer.footer_checksum || altered.checksummed()
            == footer.checksummed(),
        0 <= start <= 60,
        forall|i: int|
            0 <= i < 64 && !(start <= i < start + 4) ==> #[trigger] altered.checksummed()[i]
                == footer.checksummed()[i],
    ensures
        !altered.sealed(),
{
    broadcast use lemma_le_bytes_len;

    if altered.checksummed() == footer.checksummed() {
        let (a, b) = (altered.checksummed(), footer.checksummed());
        assert(altered.leading_bytes() =~= a.subrange(0, 58));
        assert(footer.leading_bytes() =~= b.subrange(0, 58));
        assert(altered.reserved@ =~= a.subrange(62, 64));
        assert(footer.reserved@ =~= b.subrange(62, 64));
        law_footer_v1_decodes_what_it_encoded(altered);
        law_footer_v1_decodes_what_it_encoded(footer);
    } else {
        law_crc32_detects_changes_in_four_bytes(altered.checksummed(), footer.checksummed(), start);
    }
}

/// Every field of a footer stands at a place of its own in the encoding, least
/// significant byte first, whatever the values are.
pub proof fn law_footer_v1_fields_have_their_places(footer: PspFileFooterV1)
    ensures
        ({
            let bytes = footer.encoded();
            &&& bytes.len() == 64
            &&& le_value(bytes.subrange(0, 2)) == footer.version
            &&& le_value(bytes.subrange(2, 10)) == footer.uv_binary_size
            &&& le_value(bytes.subrange(10, 18)) == footer.metadata_size
            &&& le_value(bytes.subrange(18, 26)) == footer.metadata_offset
            &&& le_value(bytes.subrange(26, 34)) == footer.payload_size
            &&& le_value(bytes.subrange(34, 42)) == footer.payload_offset
            &&& le_value(bytes.subrange(42, 50)) == footer.signature_size
            &&& le_value(bytes.subrange(50, 58)) == footer.signature_offset
            &&& le_value(bytes.subrange(58, 62)) == footer.footer_checksum
            &&& bytes[62] == footer.reserved[0]
            &&& bytes[63] == footer.reserved[1]
        }),
{
    let bytes = footer.encoded();
    law_footer_v1_decodes_what_it_encoded(footer);
    lemma_pow_256();
    lemma_le_field(bytes, 0, 2);
    lemma_le_field(bytes, 2, 8);
    lemma_le_field(bytes, 10, 8);
    lemma_le_field(bytes, 18, 8);
    lemma_le_field(bytes, 26, 8);
    lemma_le_field(bytes, 34, 8);
    lemma_le_field(bytes, 42, 8);
    lemma_le_field(bytes, 50, 8);
    lemma_le_field(bytes, 58, 4);
}

/// Every field of a decoded footer comes from the place that it has in the
/// encoding, whatever the bytes are.
pub proof fn law_footer_v1_is_read_from_its_places(bytes: Seq<u8>)
    requires
        bytes.len() == 64,
    ensures
        ({
            let footer = PspFileFooterV1::decoded(bytes);
            &&& footer.version == le_value(bytes.subrange(0, 2))
            &&& footer.uv_binary_size == le_value(bytes.subrange(2, 10))
            &&& footer.metadata_size == le_value(bytes.subrange(10, 18))
            &&& footer.metadata_offset == le_value(bytes.subrange(18, 26))
            &&& footer.payload_size == le_value(bytes.subrange(26, 34))
            &&& footer.payload_offset == le_value(bytes.subrange(34, 42))
            &&& footer.signature_size == le_value(bytes.subrange(42, 50))
            &&& footer.signature_offset == le_value(bytes.subrange(50, 58))
            &&& footer.footer_checksum == le_value(bytes.subrange(58, 62))
            &&& footer.reserved[0] == bytes[62]
            &&& footer.reserved[1] == bytes[63]
        }),
{
    lemma_pow_256();
    lemma_le_field(bytes, 0, 2);
    lemma_le_field(bytes, 2, 8);
    lemma_le_field(bytes, 10, 8);
    lemma_le_field(bytes, 18, 8);
    lemma_le_field(bytes, 26, 8);
    lemma_le_field(bytes, 34, 8);
    lemma_le_field(bytes, 42, 8);
    lemma_le_field(bytes, 50, 8);
    lemma_le_field(bytes, 58, 4);
}

/// The checksum of a footer matches exactly if it is the CRC-32 of the encoding
/// with zeros in the four bytes of the checksum.
pub proof fn law_sealed_footers_v1_have_the_checksum(footer: PspFileFooterV1)
    ensures
        ({
            let bytes = footer.encoded();
            footer.sealed() <==> le_value(bytes.subrange(58, 62)) == crc32(
                bytes.subrange(0, 58) + seq![0u8, 0u8, 0u8, 0u8] + bytes.subrange(62, 64),
            )
        }),
{
    broadcast use lemma_le_bytes_len;

    let bytes = footer.encoded();
    law_footer_v1_fields_have_their_places(footer);
    assert(le_bytes(0, 4) =~= seq![0u8, 0u8, 0u8, 0u8]) by {
        reveal_with_fuel(le_bytes, 5);
    }
    assert(footer.checksummed() =~= bytes.subrange(0, 58) + seq![0u8, 0u8, 0u8, 0u8]
        + bytes.subrange(62, 64));
}

/// A new footer has the given sizes and offsets, version 1, nothing reserved, and
/// a matching checksum.
pub proof fn law_new_footer_v1_has_the_given_fields(
    uv_binary_size: u64,
    metadata_size: u64,
    metadata_offset: u64,
    payload_size: u64,
    payload_offset: u64,
    signature_size: u64,
    signature_offset: u64,
)
    ensures
        ({
            let footer = footer_v1_of(
                uv_binary_size,
                metadata_size,
                metadata_offset,
                payload_size,
                payload_offset,
                signature_size,
                signature_offset,
            );
            &&& footer.uv_binary_size == uv_binary_size
            &&& footer.metadata_size == metadata_size
            &&& footer.metadata_offset == metadata_offset
            &&& footer.payload_size == payload_size
            &&& footer.payload_offset == payload_offset
            &&& footer.signature_size == signature_size
            &&& footer.signature_offset == signature_offset
            &&& footer.version == 1
            &&& footer.reserved[0] == 0
            &&& footer.reserved[1] == 0
            &&& footer.footer_checksum == crc32(
                footer.encoded().subrange(0, 58) + seq![0u8, 0u8, 0u8, 0u8, 0u8, 0u8],
            )
        }),
{
    broadcast use lemma_le_bytes_len;

    let footer = footer_v1_of(
        uv_binary_size,
        metadata_size,
        metadata_offset,
        payload_size,
        payload_offset,
        signature_size,
        signature_offset,
    );
    assert(le_bytes(0, 4) =~= seq![0u8, 0u8, 0u8, 0u8]) by {
        reveal_with_fuel(le_bytes, 5);
    }
    assert(footer.checksummed() =~= footer.encoded().subrange(0, 58) + seq![
        0u8,
        0u8,
        0u8,
        0u8,
        0u8,
        0u8,
    ]);
}

} // verus!
