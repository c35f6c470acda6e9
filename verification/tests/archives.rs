use std::io::Read;

use uv_pspf::archive::{create_metadata_tar, create_metadata_tgz, create_payload_tgz};

fn gunzip(bytes: &[u8]) -> Vec<u8> {
    let mut data = Vec::new();
    flate2::read::GzDecoder::new(bytes).read_to_end(&mut data).unwrap();
    data
}

fn config_json() -> Vec<u8> {
    let mut env_vars = serde_json::Map::new();
    env_vars.insert("TEST_KEY".to_string(), serde_json::Value::from("TEST_VALUE"));
    let mut config = serde_json::Map::new();
    config.insert("entry_point".to_string(), serde_json::Value::from("test_module.main:run"));
    config.insert("python_version".to_string(), serde_json::Value::from("3.10"));
    config.insert("env_vars".to_string(), serde_json::Value::Object(env_vars));
    serde_json::to_vec_pretty(&serde_json::Value::Object(config)).unwrap()
}

#[test]
fn test_metadata_tgz_creation_and_extraction() {
    let config_json_bytes = config_json();

    let metadata_tgz_data = create_metadata_tgz(&config_json_bytes).unwrap();

    let mut extracted_config_json_bytes = Vec::new();
    let tar = flate2::read::GzDecoder::new(std::io::Cursor::new(metadata_tgz_data));
    let mut archive = tar::Archive::new(tar);
    for entry_result in archive.entries().unwrap() {
        let mut entry = entry_result.unwrap();
        if entry.path().unwrap().to_string_lossy() == "config.json" {
            entry.read_to_end(&mut extracted_config_json_bytes).unwrap();
            break;
        }
    }

    assert_eq!(
        config_json_bytes, extracted_config_json_bytes,
        "Extracted config.json does not match original"
    );

    let extracted_config_str = String::from_utf8(extracted_config_json_bytes).unwrap();
    let deserialized_config: serde_json::Value =
        serde_json::from_str(&extracted_config_str).unwrap();

    assert_eq!(deserialized_config["entry_point"], "test_module.main:run");
    assert_eq!(deserialized_config["python_version"], "3.10");
    assert_eq!(deserialized_config["env_vars"]["TEST_KEY"], "TEST_VALUE");
    assert_eq!(deserialized_config["env_vars"].as_object().unwrap().len(), 1);
}

#[test]
fn metadata_tar_is_one_gnu_entry() {
    let archive = create_metadata_tar(b"{\"a\": 1}").unwrap();
    assert_eq!(archive.len(), 512 + 512 + 1024);
    assert_eq!(&archive[..11], b"config.json");
    assert!(archive[11..100].iter().all(|b| *b == 0));
    assert_eq!(&archive[100..108], b"0000644\0");
    assert!(archive[108..124].iter().all(|b| *b == 0));
    assert_eq!(&archive[124..136], b"00000000010\0");
    assert_eq!(&archive[136..148], b"00000000000\0");
    let mut sum = 8 * 32;
    for (i, b) in archive[..512].iter().enumerate() {
        if i < 148 || i >= 156 {
            sum += *b as u32;
        }
    }
    assert_eq!(&archive[148..156], format!("{:07o}\0", sum).as_bytes());
    assert!(archive[156..257].iter().all(|b| *b == 0));
    assert_eq!(&archive[257..265], b"ustar  \0");
    assert!(archive[265..512].iter().all(|b| *b == 0));
    assert_eq!(&archive[512..520], b"{\"a\": 1}");
    assert!(archive[520..].iter().all(|b| *b == 0));
}

#[test]
fn metadata_tar_of_whole_blocks_is_not_padded() {
    let archive = create_metadata_tar(&[7u8; 1024]).unwrap();
    assert_eq!(archive.len(), 512 + 1024 + 1024);
    assert_eq!(&archive[124..136], b"00000002000\0");
    assert_eq!(&archive[512..1536], &[7u8; 1024]);

    let archive = create_metadata_tar(&[]).unwrap();
    assert_eq!(archive.len(), 512 + 1024);
}

#[test]
fn metadata_tgz_is_the_compressed_tar() {
    let config = config_json();
    let tgz = create_metadata_tgz(&config).unwrap();
    assert_eq!(&tgz[..4], &[0x1F, 0x8B, 8, 0]);
    assert_eq!(gunzip(&tgz), create_metadata_tar(&config).unwrap());
    assert_eq!(tgz, create_metadata_tgz(&config).unwrap());
}

#[test]
fn metadata_tar_holds_one_entry() {
    let archive = create_metadata_tar(&[7u8; 700]).unwrap();
    assert_eq!(tar::Archive::new(archive.as_slice()).entries().unwrap().count(), 1);
    assert!(archive[512 + 700..].iter().all(|b| *b == 0));
    assert_eq!(archive.len(), 512 + 1024 + 1024);
}

#[test]
fn payload_tgz_is_an_empty_archive() {
    let tgz = create_payload_tgz().unwrap();
    let archive = gunzip(&tgz);
    assert_eq!(archive, vec![0u8; 1024]);
    assert_eq!(tar::Archive::new(archive.as_slice()).entries().unwrap().count(), 0);
}
