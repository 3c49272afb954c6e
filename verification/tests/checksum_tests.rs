use noraneko_winupdater::checksum::to_hex;
use noraneko_winupdater::checksum::verify_file_checksum;
use noraneko_winupdater::errors::UpdateError;

const EMPTY_SHA256: &str = "e3b0c44298fc1c149afbf4c8996fb92427ae41e4649b934ca495991b7852b855";

#[test]
fn test_verify_checksum_mismatch() {
    let manifest = "abcd1234  myfile.zip";
    let data: Vec<u8> = b"definitely not matching".to_vec();
    let r = verify_file_checksum(&data, manifest, "myfile.zip");
    assert!(matches!(r, Err(UpdateError::ChecksumMismatch { .. })));
    if let Err(UpdateError::ChecksumMismatch { expected, actual }) = r {
        assert_eq!(expected, "abcd1234");
        assert_eq!(actual.len(), 64);
    }
}

#[test]
fn test_verify_checksum_not_found() {
    let manifest = "abcd1234  otherfile.zip\n";
    let data: Vec<u8> = Vec::new();
    let r = verify_file_checksum(&data, manifest, "myfile.zip");
    match r {
        Err(UpdateError::ChecksumNotFound { file_name }) => assert_eq!(file_name, "myfile.zip"),
        _ => panic!("expected a not-found failure naming the file"),
    }
}

#[test]
fn test_verify_checksum_success() {
    let manifest = format!("{}  myfile.zip\n", EMPTY_SHA256);
    let data: Vec<u8> = Vec::new();
    let r = verify_file_checksum(&data, &manifest, "myfile.zip");
    assert!(r.is_ok());
}

#[test]
fn test_verify_checksum_real_digest() {
    let data: Vec<u8> = b"hello world".to_vec();
    let digest = <sha2::Sha256 as sha2::Digest>::digest(data.as_slice());
    let hex: String = to_hex(&digest.to_vec()).iter().map(|b| *b as char).collect();
    let manifest = format!("{} *myfile.zip\nother  another.zip\n", hex);
    assert!(verify_file_checksum(&data, &manifest, "myfile.zip").is_ok());
    let other: Vec<u8> = b"tampered".to_vec();
    assert!(verify_file_checksum(&other, &manifest, "myfile.zip").is_err());
}

#[test]
fn test_verify_checksum_case_and_suffix_matching() {
    let manifest = format!("{}  release/MyFile.ZIP\n", EMPTY_SHA256);
    let data: Vec<u8> = Vec::new();
    // a path-qualified manifest entry matches by suffix, case-sensitively
    assert!(verify_file_checksum(&data, &manifest, "MyFile.ZIP").is_ok());
    // an exact name matches ignoring ASCII case
    let manifest2 = format!("{}  MYFILE.zip\n", EMPTY_SHA256);
    assert!(verify_file_checksum(&data, &manifest2, "myfile.ZIP").is_ok());
}

#[test]
fn test_verify_checksum_uppercase_manifest_digest() {
    let manifest = format!("{}  myfile.zip\n", EMPTY_SHA256.to_uppercase());
    let data: Vec<u8> = Vec::new();
    assert!(verify_file_checksum(&data, &manifest, "myfile.zip").is_ok());
}

#[test]
fn test_to_hex() {
    assert_eq!(to_hex(&vec![0x00, 0xff, 0x1a]), b"00ff1a".to_vec());
    assert_eq!(to_hex(&Vec::new()), Vec::<u8>::new());
}
