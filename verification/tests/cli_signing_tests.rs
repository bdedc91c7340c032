use bllvm_sdk::cli::aggregation::{format_aggregation_output, threshold_met};
use bllvm_sdk::cli::input::InputError;
use bllvm_sdk::cli::signing::{
    binary_message, bundle_message, checksums_message, file_digest, format_signature_output,
    load_keypair, sign_binary, sign_bundle, sign_checksums, KeyFileError,
};
use bllvm_sdk::governance::{GovernanceError, GovernanceKeypair};
use bllvm_sdk::verify_signature;

const EMPTY_DIGEST: &str = "e3b0c44298fc1c149afbf4c8996fb92427ae41e4649b934ca495991b7852b855";
const ABC_DIGEST: &str = "ba7816bf8f01cfea414140de5dae2223b00361a396177a9cb410ff61f20015ad";

#[test]
fn test_file_digest_is_sha256_in_hex() {
    assert_eq!(file_digest(b""), EMPTY_DIGEST);
    assert_eq!(file_digest(b"abc"), ABC_DIGEST);
}

#[test]
fn test_binary_message_fields() {
    assert_eq!(binary_message("application", "ff", None, None), "binary:application:ff");
    assert_eq!(
        binary_message("consensus", "ff", Some("v1"), None),
        "binary:consensus:ff:v1"
    );
    assert_eq!(binary_message("protocol", "ff", None, Some("c0")), "binary:protocol:ff:c0");
    assert_eq!(
        binary_message("protocol", "ff", Some("v1"), Some("c0")),
        "binary:protocol:ff:v1:c0"
    );
    assert_eq!(binary_message("", "", Some(""), Some("")), "binary::::");
}

#[test]
fn test_bundle_message_fields() {
    assert_eq!(bundle_message("ff", None, None, None), "bundle:ff");
    assert_eq!(bundle_message("ff", Some("a"), None, Some("c")), "bundle:ff:a:c");
    assert_eq!(bundle_message("ff", Some("a"), Some("b"), Some("c")), "bundle:ff:a:b:c");
    assert_eq!(bundle_message("ff", None, Some("b"), None), "bundle:ff:b");
}

#[test]
fn test_checksums_message_fields() {
    assert_eq!(checksums_message("ff", None), "checksums:ff");
    assert_eq!(checksums_message("ff", Some("v2.1")), "checksums:ff:v2.1");
}

#[test]
fn test_sign_binary_signs_the_message_it_reports() {
    let keypair = GovernanceKeypair::from_secret_key(&[21u8; 32]).unwrap();
    let signed = sign_binary(&keypair, b"abc", "application", Some("v1.0.0"), None).unwrap();
    assert_eq!(signed.file_hash, ABC_DIGEST);
    assert_eq!(signed.message, format!("binary:application:{}:v1.0.0", ABC_DIGEST));
    assert!(
        verify_signature(&signed.signature, signed.message.as_bytes(), &keypair.public_key())
            .unwrap()
    );
}

#[test]
fn test_sign_bundle_and_checksums() {
    let keypair = GovernanceKeypair::from_secret_key(&[22u8; 32]).unwrap();
    let bundle = sign_bundle(&keypair, b"", Some("s"), Some("b"), None).unwrap();
    assert_eq!(bundle.message, format!("bundle:{}:s:b", EMPTY_DIGEST));
    assert!(
        verify_signature(&bundle.signature, bundle.message.as_bytes(), &keypair.public_key())
            .unwrap()
    );
    let sums = sign_checksums(&keypair, b"abc", Some("v3")).unwrap();
    assert_eq!(sums.file_hash, ABC_DIGEST);
    assert_eq!(sums.message, format!("checksums:{}:v3", ABC_DIGEST));
    assert!(
        verify_signature(&sums.signature, sums.message.as_bytes(), &keypair.public_key()).unwrap()
    );
}

#[test]
fn test_load_keypair_from_hex() {
    let hex = "15".repeat(32);
    let loaded = load_keypair(&hex).unwrap();
    let direct = GovernanceKeypair::from_secret_key(&[0x15u8; 32]).unwrap();
    assert_eq!(loaded.secret_key_bytes(), [0x15u8; 32]);
    assert_eq!(loaded.public_key(), direct.public_key());
    assert!(load_keypair(&hex.to_uppercase()).is_ok());
}

#[test]
fn test_load_keypair_errors() {
    assert!(matches!(
        load_keypair("xyz"),
        Err(KeyFileError::Encoding(InputError::InvalidFormat(_)))
    ));
    assert!(matches!(
        load_keypair(&"00".repeat(32)),
        Err(KeyFileError::Key(GovernanceError::InvalidKey(_)))
    ));
    assert!(matches!(
        load_keypair("0102"),
        Err(KeyFileError::Key(GovernanceError::InvalidKey(_)))
    ));
    assert!(matches!(load_keypair(""), Err(KeyFileError::Key(GovernanceError::InvalidKey(_)))));
}

#[test]
fn test_signature_report() {
    let keypair = GovernanceKeypair::from_secret_key(&[21u8; 32]).unwrap();
    let signed = sign_binary(&keypair, b"abc", "application", None, None).unwrap();
    let report =
        format_signature_output("binary", "bin/node", &signed.file_hash, &signed.signature, "s.json");
    assert_eq!(
        report,
        format!(
            "Signed binary successfully\nFile: bin/node\nHash: {}\nSignature: {}\nSaved to: s.json\n",
            ABC_DIGEST,
            signed.signature.to_string()
        )
    );
}

#[test]
fn test_threshold_met() {
    assert!(threshold_met(None, 0));
    assert!(threshold_met(Some("6-of-7"), 6));
    assert!(threshold_met(Some("6-of-7"), 9));
    assert!(!threshold_met(Some("6-of-7"), 5));
    assert!(threshold_met(Some("0-of-0"), 0));
    // a threshold above its total is met by no count
    assert!(!threshold_met(Some("3-of-2"), 3));
    assert!(!threshold_met(Some("3-of-2"), usize::MAX));
    assert!(threshold_met(Some("3-of-3"), 3));
    assert!(threshold_met(Some("+3-of-03"), 3));
    assert!(!threshold_met(Some("3 of 5"), 5));
    assert!(!threshold_met(Some("x-of-5"), 5));
    assert!(!threshold_met(Some("3-of-"), 5));
    assert!(!threshold_met(Some("1-of-2-of-3"), 5));
    assert!(!threshold_met(Some(""), 5));
    assert!(!threshold_met(Some("99999999999999999999999-of-5"), usize::MAX));
}

#[test]
fn test_aggregation_report() {
    assert_eq!(
        format_aggregation_output(3, true, "out.json"),
        "Aggregated 3 signatures\nThreshold met: Yes\nSaved to: out.json\n"
    );
    assert_eq!(
        format_aggregation_output(0, false, ""),
        "Aggregated 0 signatures\nThreshold met: No\nSaved to: \n"
    );
}
