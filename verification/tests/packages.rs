use std::io::Read;

use rsa::pkcs1::{EncodeRsaPrivateKey, EncodeRsaPublicKey};
use rsa::pkcs8::EncodePublicKey;
use rsa::signature::Verifier;
use sha2::Digest;

use uv_pspf::archive::create_metadata_tgz;
use uv_pspf::commands;
use uv_pspf::error::PackageError;
use uv_pspf::pspf;
use uv_pspf::pspf_format::{PspFileFooterV1, PSPF_EOF_MAGIC_STRING};
use uv_pspf::pspf_packager;
use uv_pspf::signing;

fn key(bits: usize) -> (rsa::RsaPublicKey, String) {
    let key = rsa::RsaPrivateKey::new(&mut rand::rngs::OsRng, bits).unwrap();
    let pem = key.to_pkcs1_pem(rsa::pkcs1::LineEnding::LF).unwrap().to_string();
    (key.to_public_key(), pem)
}

fn accepts_message(key: &rsa::RsaPublicKey, message: &[u8], signature: &[u8]) -> bool {
    let key = rsa::pss::VerifyingKey::<sha2::Sha256>::new(key.clone());
    key.verify(message, &rsa::pss::Signature::try_from(signature).unwrap()).is_ok()
}

fn config_in(metadata_tgz: &[u8]) -> Vec<u8> {
    let mut archive = tar::Archive::new(flate2::read::GzDecoder::new(metadata_tgz));
    let mut entry = archive.entries().unwrap().next().unwrap().unwrap();
    assert_eq!(entry.path().unwrap().to_string_lossy(), "config.json");
    let mut contents = Vec::new();
    entry.read_to_end(&mut contents).unwrap();
    contents
}

fn section(file: &[u8], offset: u64, size: u64) -> &[u8] {
    &file[offset as usize..(offset + size) as usize]
}

fn footer_of(file: &[u8]) -> pspf::PspFileFooter {
    assert_eq!(&file[file.len() - 8..], pspf::PSP_EOF_MAGIC);
    let footer_bytes = &file[file.len() - 84..file.len() - 8];
    let footer = pspf::PspFileFooter::from_le_bytes(footer_bytes).unwrap();
    footer.verify_internal_consistency().unwrap();
    footer
}

#[test]
fn test_rsa_pss_sign_verify_roundtrip() {
    let (public_key, pem) = key(2048);

    let data_to_sign = b"this is some data to sign for the PSPF test";
    let hashed_data = sha2::Sha256::digest(data_to_sign);

    let signature = signing::sign_content_digest(data_to_sign, &pem).unwrap();

    public_key.verify(rsa::Pss::new::<sha2::Sha256>(), &hashed_data, &signature).unwrap();
    assert_eq!(signature.len(), 256);
    assert!(public_key
        .verify(rsa::Pss::new::<sha2::Sha256>(), &sha2::Sha256::digest(b"other"), &signature)
        .is_err());
}

#[test]
fn launched_package_reads_back() {
    let (public_key, pem) = key(1024);
    let inputs = pspf::PspPackageInputs {
        go_launcher: b"launcher",
        uv_binary: b"the uv binary",
        config_json: b"{\"entry_point\": \"a:b\"}",
        private_key_pem: &pem,
    };
    let file = pspf::create_pspf_package(&inputs).unwrap();
    let footer = footer_of(&file);

    assert_eq!(footer.uv_binary_offset, 8);
    assert_eq!(&file[..8], b"launcher");
    let uv_binary = section(&file, footer.uv_binary_offset, footer.uv_binary_size);
    assert_eq!(uv_binary, b"the uv binary");
    let metadata = section(&file, footer.metadata_tgz_offset, footer.metadata_tgz_size);
    assert_eq!(config_in(metadata), inputs.config_json);
    let payload = section(&file, footer.payload_tgz_offset, footer.payload_tgz_size);
    let mut tar = Vec::new();
    flate2::read::GzDecoder::new(payload).read_to_end(&mut tar).unwrap();
    assert_eq!(tar, vec![0u8; 1024]);

    let signature =
        section(&file, footer.package_signature_offset, footer.package_signature_size);
    let digest = sha2::Sha256::digest(&file[..footer.package_signature_offset as usize]);
    assert!(accepts_message(&public_key, &digest, signature));
    assert_eq!(
        footer.package_signature_offset + footer.package_signature_size + 84,
        file.len() as u64
    );
}

#[test]
fn assembled_package_is_the_parts_in_order() {
    let file = pspf::assemble_package(b"L", b"UV", b"MET", b"PAYL", b"SIGNS");
    let footer = pspf::PspFileFooter::new(1, 2, 3, 3, 6, 4, 10, 5);
    let mut expected = b"LUVMETPAYLSIGNS".to_vec();
    expected.extend_from_slice(&footer.to_le_bytes());
    expected.extend_from_slice(b"!PSPF\x00\x00\x00");
    assert_eq!(file, expected);
}

#[test]
fn self_unwrapping_package_reads_back() {
    let (public_key, pem) = key(1024);
    let inputs = pspf_packager::PspPackageInputs {
        uv_binary_to_package: b"the uv binary",
        config_json: b"{}",
        private_key_pem: &pem,
        public_key_der_size: 600,
    };
    let file = pspf_packager::create_pspf_package(&inputs).unwrap();
    let footer = footer_of(&file);

    let mut expected_key = public_key.to_public_key_der().unwrap().as_bytes().to_vec();
    expected_key.resize(600, 0);
    assert_eq!(&file[..600], expected_key.as_slice());
    assert_eq!(footer.uv_binary_offset, 0);
    assert_eq!(footer.uv_binary_size, 613);
    assert_eq!(&file[600..613], b"the uv binary");

    let mut hasher = sha2::Sha256::new();
    hasher.update(&file[..footer.uv_binary_size as usize]);
    let metadata = section(&file, footer.metadata_tgz_offset, footer.metadata_tgz_size);
    assert_eq!(config_in(metadata), b"{}");
    hasher.update(metadata);
    hasher.update(section(&file, footer.payload_tgz_offset, footer.payload_tgz_size));
    let digest = hasher.finalize();
    let signature =
        section(&file, footer.package_signature_offset, footer.package_signature_size);
    assert!(accepts_message(&public_key, &digest, signature));
}

#[test]
fn public_key_must_fit_its_area() {
    let (public_key, pem) = key(1024);
    let size = public_key.to_public_key_der().unwrap().as_bytes().len();
    let mut inputs = pspf_packager::PspPackageInputs {
        uv_binary_to_package: b"uv",
        config_json: b"{}",
        private_key_pem: &pem,
        public_key_der_size: size - 1,
    };
    match pspf_packager::create_pspf_package(&inputs) {
        Err(PackageError::PublicKeyTooLarge { size: found, limit }) => {
            assert_eq!(found, size);
            assert_eq!(limit, size - 1);
        }
        _ => panic!("the key should not fit"),
    }
    inputs.public_key_der_size = size;
    assert!(pspf_packager::create_pspf_package(&inputs).is_ok());
}

#[test]
fn text_that_is_no_key_is_refused() {
    let inputs = pspf::PspPackageInputs {
        go_launcher: b"",
        uv_binary: b"",
        config_json: b"{}",
        private_key_pem: "no key",
    };
    assert!(matches!(pspf::create_pspf_package(&inputs), Err(PackageError::PrivateKey(_))));
    assert!(matches!(
        signing::derive_public_key_pkcs1("no key"),
        Err(PackageError::PrivateKey(_))
    ));
    assert!(matches!(signing::derive_public_key_spki(""), Err(PackageError::PrivateKey(_))));
}

#[test]
fn small_keys_cannot_sign() {
    let (_, pem) = key(512);
    assert!(matches!(
        signing::sign_content(b"content", &pem),
        Err(PackageError::SigningMessage(_))
    ));
    assert!(matches!(
        signing::sign_content_digest(b"content", &pem),
        Err(PackageError::Signing(_))
    ));
}

#[test]
fn keys_with_a_far_longer_second_prime_sign() {
    let one = rsa::BigUint::from(1u8);
    let first = rsa::BigUint::from(3u8);
    let second = (one.clone() << 607) - one;
    let d = rsa::BigUint::parse_bytes(
        b"5555aaaa5555aaaa5555aaaa5555aaaa5555aaaa5555aaaa5555aaaa5555aaaa5555aaaa5555aaaa5555aaaa5555aaaa5555aaaa5555aaaa5555aaaa5555aaaa5555aaaa5555aaaa5555aaa9",
        16,
    )
    .unwrap();
    let n = &first * &second;
    let e = rsa::BigUint::from(65537u32);
    let unbalanced = rsa::RsaPrivateKey::from_components(n, e, d, vec![first, second]).unwrap();
    let pem = unbalanced.to_pkcs1_pem(rsa::pkcs1::LineEnding::LF).unwrap().to_string();

    let public_key = unbalanced.to_public_key();

    let signature = signing::sign_content(b"content", &pem).unwrap();
    assert_eq!(signature.len(), 77);
    assert!(accepts_message(&public_key, &sha2::Sha256::digest(b"content"), &signature));
    let signature = signing::sign_content_digest(b"content", &pem).unwrap();
    public_key
        .verify(rsa::Pss::new::<sha2::Sha256>(), &sha2::Sha256::digest(b"content"), &signature)
        .unwrap();
}

#[test]
fn the_shortest_modulus_that_signs() {
    let (public_key, pem) = key(522);
    let signature = signing::sign_content(b"content", &pem).unwrap();
    assert!(accepts_message(&public_key, &sha2::Sha256::digest(b"content"), &signature));
    assert!(signing::sign_content_digest(b"content", &pem).is_ok());

    let (_, pem) = key(521);
    assert!(signing::sign_content(b"content", &pem).is_err());
    assert!(signing::sign_content_digest(b"content", &pem).is_err());
}

#[test]
fn signatures_are_as_long_as_the_modulus() {
    let (public_key, pem) = key(1032);
    let size = rsa::traits::PublicKeyParts::size(&public_key);
    assert_eq!(size, 129);
    assert_eq!(signing::sign_content(b"content", &pem).unwrap().len(), size);
    assert_eq!(signing::sign_content_digest(b"content", &pem).unwrap().len(), size);
}

#[test]
fn signatures_do_not_depend_on_the_split_of_the_parts() {
    let (public_key, pem) = key(1024);
    let digest = sha2::Sha256::digest(b"launcheruvmetadatapayload");
    let parts = pspf::sign_data(b"launcher", b"uv", b"metadata", b"payload", &pem).unwrap();
    assert!(accepts_message(&public_key, &digest, &parts));
    let other = pspf::sign_data(b"", b"launcheruv", b"meta", b"datapayload", &pem).unwrap();
    assert!(accepts_message(&public_key, &digest, &other));
}

#[test]
fn padding_a_key_adds_zeros() {
    assert_eq!(signing::pad_public_key(&[1, 2, 3], 5).unwrap(), vec![1, 2, 3, 0, 0]);
    assert_eq!(signing::pad_public_key(&[1, 2, 3], 3).unwrap(), vec![1, 2, 3]);
    assert!(matches!(
        signing::pad_public_key(&[1, 2, 3], 2),
        Err(PackageError::PublicKeyTooLarge { size: 3, limit: 2 })
    ));
    assert_eq!(
        pspf_packager::prepend_public_key(&[1], 2, b"uv").unwrap(),
        vec![1, 0, b'u', b'v']
    );
}

#[test]
fn package_with_embedded_key_reads_back() {
    let (public_key, pem) = key(1024);
    let uv_binary = vec![0x5Au8; 1_048_576 + 2048 + 100];
    let request = commands::PspfPackageRequest {
        uv_binary: &uv_binary,
        private_key_pem: &pem,
        config_json: b"{\"entry_point\": \"a:b\"}",
        payload_tar: b"wheels",
    };
    let package = commands::pspf_package(&request).unwrap();
    let mut file = package.body.clone();
    let trailer = package.trailer(file.len() as u64).unwrap();
    file.extend_from_slice(&trailer);

    assert_eq!(&file[file.len() - 8..], PSPF_EOF_MAGIC_STRING);
    let mut reader = &file[file.len() - 72..];
    let footer = PspFileFooterV1::read_from(&mut reader).unwrap();
    assert_eq!(footer, package.footer);
    assert!(footer.verify_checksum());
    assert_eq!(footer.uv_binary_size, uv_binary.len() as u64);
    assert_eq!(footer.metadata_offset, footer.uv_binary_size);
    assert_eq!(footer.payload_offset, footer.metadata_offset + footer.metadata_size);
    assert_eq!(footer.signature_offset, footer.payload_offset + footer.payload_size);

    let der = public_key.to_pkcs1_der().unwrap().as_bytes().to_vec();
    let offset = 1_048_576;
    assert_eq!(&file[..offset], &uv_binary[..offset]);
    assert_eq!(&file[offset..offset + der.len()], der.as_slice());
    assert!(file[offset + der.len()..offset + 2048].iter().all(|b| *b == 0));
    assert_eq!(&file[offset + 2048..uv_binary.len()], &uv_binary[offset + 2048..]);

    let metadata = section(&file, footer.metadata_offset, footer.metadata_size);
    assert_eq!(config_in(metadata), request.config_json);
    assert_eq!(metadata, create_metadata_tgz(request.config_json).unwrap().as_slice());
    let mut payload = Vec::new();
    flate2::read::GzDecoder::new(section(&file, footer.payload_offset, footer.payload_size))
        .read_to_end(&mut payload)
        .unwrap();
    assert_eq!(payload, b"wheels");
    let signature = section(&file, footer.signature_offset, footer.signature_size);
    let digest = sha2::Sha256::digest(&file[..footer.signature_offset as usize]);
    public_key.verify(rsa::Pss::new::<sha2::Sha256>(), &digest, signature).unwrap();
}

#[test]
fn binary_must_reach_behind_the_key_area() {
    let binary = vec![0u8; 1_048_576 + 2048];
    let embedded = commands::embed_public_key(&binary, &[9, 8]).unwrap();
    assert_eq!(embedded.len(), binary.len());
    assert_eq!(&embedded[1_048_576..1_048_579], &[9, 8, 0]);

    assert!(matches!(
        commands::embed_public_key(&binary[1..], &[9, 8]),
        Err(PackageError::BinaryTooSmall { size: 1_050_623, minimum: 1_050_624 })
    ));
    assert!(matches!(
        commands::embed_public_key(&[], &[1u8; 2049]),
        Err(PackageError::PublicKeyTooLarge { size: 2049, limit: 2048 })
    ));
}

#[test]
fn trailer_belongs_behind_the_signature() {
    let package = commands::assemble_package(b"BIN", b"META", b"PAYLOAD", b"SIG");
    assert_eq!(package.body, b"BINMETAPAYLOADSIG");
    assert_eq!(package.footer, PspFileFooterV1::new(3, 4, 3, 7, 7, 3, 14));
    let trailer = package.trailer(17).unwrap();
    let mut expected = Vec::new();
    package.footer.write_to(&mut expected).unwrap();
    expected.extend_from_slice(b"!PSPF\x00\x00\x00");
    assert_eq!(trailer, expected);
    assert!(matches!(
        package.trailer(18),
        Err(PackageError::FooterOffset { signature_end: 17, file_end: 18 })
    ));
}
