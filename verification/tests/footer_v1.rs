use uv_pspf::error::ReadError;
use uv_pspf::pspf_format::{
    PspFileFooterV1, CURRENT_PSPF_VERSION, PSPF_EOF_MAGIC_STRING, PSPF_VERSION_V0_1,
    PUBLIC_KEY_EMBED_OFFSET, PUBLIC_KEY_MAX_SIZE,
};

#[test]
fn test_pspf_footer_v1_size() {
    assert_eq!(std::mem::size_of::<PspFileFooterV1>(), PspFileFooterV1::SIZE);
    assert_eq!(PspFileFooterV1::SIZE, 64);
}

#[test]
fn test_pspf_footer_v1_checksum_and_serialization() {
    let footer = PspFileFooterV1::new(
        1000, // uv_binary_size
        200,  // metadata_size
        1000, // metadata_offset
        3000, // payload_size
        1200, // payload_offset
        256,  // signature_size
        4200, // signature_offset
    );

    assert!(footer.verify_checksum(), "Footer checksum verification failed");

    let mut buffer = Vec::new();
    footer.write_to(&mut buffer).unwrap();
    assert_eq!(buffer.len(), PspFileFooterV1::SIZE);

    let mut cursor = buffer.as_slice();
    let deserialized_footer = PspFileFooterV1::read_from(&mut cursor).unwrap();

    assert_eq!(footer, deserialized_footer, "Serialized and deserialized footers do not match");
    assert!(
        deserialized_footer.verify_checksum(),
        "Deserialized footer checksum verification failed"
    );
}

#[test]
fn test_pspf_footer_v1_checksum_tampered() {
    let mut footer = PspFileFooterV1::new(1000, 200, 1000, 3000, 1200, 256, 4200);
    assert!(footer.verify_checksum());

    footer.metadata_size += 1;
    assert!(!footer.verify_checksum(), "Tampered footer checksum should fail");
}

#[test]
fn test_eof_magic_string() {
    assert_eq!(PSPF_EOF_MAGIC_STRING.len(), 8);
    assert_eq!(PSPF_EOF_MAGIC_STRING, b"!PSPF\x00\x00\x00");
}

#[test]
fn footer_v1_checksum_is_crc32() {
    let footer = PspFileFooterV1::new(1000, 200, 1000, 3000, 1200, 256, 4200);
    assert_eq!(footer.version, 1);
    assert_eq!(footer.reserved, [0, 0]);
    assert_eq!(footer.footer_checksum, 0x8FCF7656);
}

#[test]
fn footer_v1_fields_stand_in_order() {
    let footer = PspFileFooterV1::new(1000, 200, 1000, 3000, 1200, 256, 4200);
    let mut buffer = vec![0xAA];
    footer.write_to(&mut buffer).unwrap();
    assert_eq!(buffer.len(), 65);
    assert_eq!(buffer[0], 0xAA);
    let bytes = &buffer[1..];
    assert_eq!(&bytes[0..2], &[1, 0]);
    assert_eq!(&bytes[2..10], &1000u64.to_le_bytes());
    assert_eq!(&bytes[10..18], &200u64.to_le_bytes());
    assert_eq!(&bytes[18..26], &1000u64.to_le_bytes());
    assert_eq!(&bytes[26..34], &3000u64.to_le_bytes());
    assert_eq!(&bytes[34..42], &1200u64.to_le_bytes());
    assert_eq!(&bytes[42..50], &256u64.to_le_bytes());
    assert_eq!(&bytes[50..58], &4200u64.to_le_bytes());
    assert_eq!(&bytes[58..62], &0x8FCF7656u32.to_le_bytes());
    assert_eq!(&bytes[62..64], &[0, 0]);
}

#[test]
fn reading_a_footer_v1_moves_the_reader() {
    let mut bytes: Vec<u8> = Vec::new();
    let mut i = 0;
    while i < 70 {
        bytes.push(i as u8);
        i += 1;
    }
    let mut reader = bytes.as_slice();
    let footer = PspFileFooterV1::read_from(&mut reader).unwrap();
    assert_eq!(reader, &[64, 65, 66, 67, 68, 69]);
    assert_eq!(footer.version, 0x0100);
    assert_eq!(footer.uv_binary_size, 0x0908070605040302);
    assert_eq!(footer.footer_checksum, 0x3D3C3B3A);
    assert_eq!(footer.reserved, [62, 63]);
    assert!(!footer.verify_checksum());

    let mut again = Vec::new();
    footer.write_to(&mut again).unwrap();
    assert_eq!(&again[..], &bytes[..64]);
}

#[test]
fn short_input_is_no_footer_v1() {
    let bytes = [0u8; 64];
    let mut len = 0;
    while len < 64 {
        let mut reader = &bytes[..len];
        match PspFileFooterV1::read_from(&mut reader) {
            Err(ReadError::UnexpectedEof(error)) => {
                assert_eq!(error.kind(), std::io::ErrorKind::UnexpectedEof);
            }
            _ => panic!("{} bytes are no footer", len),
        }
        len += 1;
    }
    let mut reader = &bytes[..];
    assert!(PspFileFooterV1::read_from(&mut reader).is_ok());
}

#[test]
fn every_altered_byte_of_a_footer_v1_is_detected() {
    let footer = PspFileFooterV1::new(1000, 200, 1000, 3000, 1200, 256, 4200);
    let mut bytes = Vec::new();
    footer.write_to(&mut bytes).unwrap();
    let mut i = 0;
    while i < bytes.len() {
        let mut altered = bytes.clone();
        altered[i] ^= 1;
        let mut reader = altered.as_slice();
        assert!(!PspFileFooterV1::read_from(&mut reader).unwrap().verify_checksum());
        i += 1;
    }
}

#[test]
fn footer_v1_checksum_takes_its_own_field_as_zero() {
    let footer = PspFileFooterV1::new(1000, 200, 1000, 3000, 1200, 256, 4200);
    let mut zeroed = footer;
    zeroed.footer_checksum = 0;
    let mut bytes = Vec::new();
    zeroed.write_to(&mut bytes).unwrap();
    assert_eq!(bytes.len(), 64);
    assert_eq!(&bytes[58..62], &[0, 0, 0, 0]);
    assert_eq!(footer.footer_checksum, crc32fast::hash(&bytes));

    zeroed.footer_checksum = 12345;
    assert_eq!(zeroed.calculate_checksum(), footer.calculate_checksum());
    assert_eq!(zeroed.footer_checksum, 12345);
    assert!(!zeroed.verify_checksum());
}

#[test]
fn footers_v1_are_read_one_after_the_other() {
    let first = PspFileFooterV1::new(1, 2, 3, 4, 5, 6, 7);
    let second = PspFileFooterV1::new(8, 9, 10, 11, 12, 13, 14);
    let mut bytes = Vec::new();
    first.write_to(&mut bytes).unwrap();
    second.write_to(&mut bytes).unwrap();
    bytes.push(99);
    let mut reader = bytes.as_slice();
    assert_eq!(PspFileFooterV1::read_from(&mut reader).unwrap(), first);
    assert_eq!(PspFileFooterV1::read_from(&mut reader).unwrap(), second);
    assert_eq!(reader, &[99]);
}

#[test]
fn format_constants() {
    assert_eq!(CURRENT_PSPF_VERSION, PSPF_VERSION_V0_1);
    assert_eq!(PSPF_VERSION_V0_1, 1);
    assert_eq!(PUBLIC_KEY_EMBED_OFFSET, 1_048_576);
    assert_eq!(PUBLIC_KEY_MAX_SIZE, 2048);
}
