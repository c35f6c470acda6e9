use uv_pspf::pspf::{
    PspFileFooter, INTERNAL_FOOTER_MAGIC, PSPF_VERSION_V0_1, PSP_EOF_MAGIC, PSP_FOOTER_SIZE,
};

#[test]
fn test_footer_serialization_deserialization() {
    let footer = PspFileFooter::new(1000, 2000, 3000, 4000, 5000, 6000, 7000, 8000);

    let bytes = footer.to_le_bytes();
    assert_eq!(bytes.len(), PSP_FOOTER_SIZE);

    let deserialized_footer = PspFileFooter::from_le_bytes(&bytes).unwrap();
    assert_eq!(footer, deserialized_footer);
    assert_eq!(deserialized_footer.pspf_version, PSPF_VERSION_V0_1);
    assert_eq!(deserialized_footer.internal_footer_magic, INTERNAL_FOOTER_MAGIC);

    let checksum_on_new = footer.footer_struct_checksum;
    let recalculated_checksum = deserialized_footer.calculate_checksum();
    assert_eq!(checksum_on_new, recalculated_checksum);

    assert!(deserialized_footer.verify_internal_consistency().is_ok());
}

#[test]
fn test_footer_checksum_logic() {
    let mut footer1 = PspFileFooter::new(1, 2, 3, 4, 5, 6, 7, 8);
    let checksum1 = footer1.footer_struct_checksum;

    footer1.uv_binary_size = 200;
    footer1.footer_struct_checksum = footer1.calculate_checksum();
    let checksum2 = footer1.footer_struct_checksum;

    assert_ne!(checksum1, checksum2, "Checksum should change when a relevant field changes.");

    let footer = PspFileFooter::new(10, 20, 30, 40, 50, 60, 70, 80);
    assert_eq!(footer.footer_struct_checksum, footer.calculate_checksum());
}

#[test]
fn test_footer_internal_consistency_failure_magic() {
    let mut footer = PspFileFooter::new(1, 2, 3, 4, 5, 6, 7, 8);
    footer.internal_footer_magic = 0xDEADBEEF;
    let verification_result = footer.verify_internal_consistency();
    assert!(verification_result.is_err());
    assert!(verification_result.unwrap_err().contains("Invalid internal footer magic"));
}

#[test]
fn test_footer_internal_consistency_failure_checksum() {
    let mut footer = PspFileFooter::new(1, 2, 3, 4, 5, 6, 7, 8);
    footer.footer_struct_checksum = 0xDEADBEEF;
    let verification_result = footer.verify_internal_consistency();
    assert!(verification_result.is_err());
    assert!(verification_result.unwrap_err().contains("Footer checksum mismatch"));
}

#[test]
fn test_from_le_bytes_invalid_size() {
    let too_short = [0u8; PSP_FOOTER_SIZE - 1];
    let result_short = PspFileFooter::from_le_bytes(&too_short);
    assert!(result_short.is_err());
    assert_eq!(result_short.unwrap_err(), "Input byte slice is not 76 bytes long");

    let too_long = [0u8; PSP_FOOTER_SIZE + 1];
    let result_long = PspFileFooter::from_le_bytes(&too_long);
    assert!(result_long.is_err());
    assert_eq!(result_long.unwrap_err(), "Input byte slice is not 76 bytes long");
}

#[test]
fn footer_fields_stand_in_order() {
    let footer = PspFileFooter::new(
        0x0102030405060708,
        2000,
        3000,
        4000,
        5000,
        6000,
        7000,
        u64::MAX,
    );
    let bytes = footer.to_le_bytes();
    assert_eq!(&bytes[0..8], &[8, 7, 6, 5, 4, 3, 2, 1]);
    assert_eq!(&bytes[8..16], &2000u64.to_le_bytes());
    assert_eq!(&bytes[16..24], &3000u64.to_le_bytes());
    assert_eq!(&bytes[24..32], &4000u64.to_le_bytes());
    assert_eq!(&bytes[32..40], &5000u64.to_le_bytes());
    assert_eq!(&bytes[40..48], &6000u64.to_le_bytes());
    assert_eq!(&bytes[48..56], &7000u64.to_le_bytes());
    assert_eq!(&bytes[56..64], &[0xFF; 8]);
    assert_eq!(&bytes[64..68], &[1, 0, 0, 0]);
    assert_eq!(&bytes[68..72], &footer.footer_struct_checksum.to_le_bytes());
    assert_eq!(&bytes[72..76], b"PSP0");
}

#[test]
fn footer_checksums_are_crc32() {
    let footer = PspFileFooter::new(1000, 2000, 3000, 4000, 5000, 6000, 7000, 8000);
    assert_eq!(footer.footer_struct_checksum, 0xDFE0E9A0);
    assert_eq!(PspFileFooter::new(1, 2, 3, 4, 5, 6, 7, 8).calculate_checksum(), 0x3514AE16);
    assert_eq!(PspFileFooter::new(0, 0, 0, 0, 0, 0, 0, 0).calculate_checksum(), 0xFAFD497F);
}

#[test]
fn checksum_leaves_out_its_own_field() {
    let mut footer = PspFileFooter::new(1, 2, 3, 4, 5, 6, 7, 8);
    footer.footer_struct_checksum = 77;
    assert_eq!(footer.calculate_checksum(), 0x3514AE16);
}

#[test]
fn inconsistency_messages_name_both_values() {
    let mut footer = PspFileFooter::new(1, 2, 3, 4, 5, 6, 7, 8);
    footer.internal_footer_magic = 0xABC;
    assert_eq!(
        footer.verify_internal_consistency().unwrap_err(),
        "Invalid internal footer magic. Expected: 0x30505350, Found: 0x00000ABC"
    );

    let mut footer = PspFileFooter::new(1, 2, 3, 4, 5, 6, 7, 8);
    footer.footer_struct_checksum = 0xDEADBEEF;
    assert_eq!(
        footer.verify_internal_consistency().unwrap_err(),
        "Footer checksum mismatch. Expected: 0x3514AE16, Found: 0xDEADBEEF"
    );
}

#[test]
fn any_bytes_decode_and_encode_again() {
    let mut bytes = [0u8; PSP_FOOTER_SIZE];
    let mut i = 0;
    while i < bytes.len() {
        bytes[i] = (i * 37 + 11) as u8;
        i += 1;
    }
    let footer = PspFileFooter::from_le_bytes(&bytes).unwrap();
    assert_eq!(footer.to_le_bytes(), bytes);
    assert!(footer.verify_internal_consistency().is_err());
}

#[test]
fn every_altered_field_is_detected() {
    let footer = PspFileFooter::new(1, 2, 3, 4, 5, 6, 7, 8);
    let bytes = footer.to_le_bytes();
    let mut i = 0;
    while i < bytes.len() {
        let mut altered = bytes;
        altered[i] ^= 0x40;
        let altered = PspFileFooter::from_le_bytes(&altered).unwrap();
        assert!(altered.verify_internal_consistency().is_err());
        i += 1;
    }
}

#[test]
fn end_of_file_magic() {
    assert_eq!(PSP_EOF_MAGIC, b"!PSPF\x00\x00\x00");
}
