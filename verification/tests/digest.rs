use rustgistry::storage::digest::{digest_bytes, Hasher};
use rustgistry::storage::is_sha256_digest;

#[test]
fn digest_of_three_bytes() {
    let d = digest_bytes(&[1u8, 2, 3]);
    assert_eq!(d, "sha256:039058c6f2c0cb492c533b0a4d14ef77cc0f78abccced5287d84a1a2011cfb81");
    assert!(is_sha256_digest(&d));
}

#[test]
fn hasher_is_streaming() {
    let mut h = Hasher::new();
    h.update(&[1u8]);
    h.update(&[]);
    h.update(&[2u8, 3]);
    assert_eq!(h.finalize(), digest_bytes(&[1u8, 2, 3]));
}

#[test]
fn digest_syntax() {
    let ok = format!("sha256:{}", "0123456789abcdef".repeat(4));
    assert!(is_sha256_digest(&ok));
    assert!(!is_sha256_digest(&"".to_string()));
    assert!(!is_sha256_digest(&"sha256:".to_string()));
    assert!(!is_sha256_digest(&format!("sha256:{}", "a".repeat(63))));
    assert!(!is_sha256_digest(&format!("sha256:{}", "a".repeat(65))));
    assert!(!is_sha256_digest(&format!("sha512:{}", "a".repeat(64))));
    assert!(!is_sha256_digest(&format!("SHA256:{}", "a".repeat(64))));
    assert!(!is_sha256_digest(&format!("sha256:{}g", "a".repeat(63))));
    assert!(!is_sha256_digest(&format!("sha256:{}", "A".repeat(64))));
    assert!(!is_sha256_digest(&format!("sha256:{}\u{e9}", "a".repeat(62))));
    assert!(!is_sha256_digest(&"latest".to_string()));
}

#[test]
fn digest_of_nothing() {
    assert_eq!(
        digest_bytes(&[]),
        "sha256:e3b0c44298fc1c149afbf4c8996fb92427ae41e4649b934ca495991b7852b855"
    );
    assert_eq!(Hasher::new().finalize(), digest_bytes(&[]));
}
