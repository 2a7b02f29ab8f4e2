use rustgistry::reader::{from_json_normalized, manifest_of_bytes};
use rustgistry::storage::medium::Medium;
use rustgistry::storage::memory::MemoryMedium;
use rustgistry::storage::types::manifest::{LayerEntry, Manifest, ManifestConfig, ManifestEntry, Platform};
use rustgistry::storage::{LocalStorage, S3Storage, Storage, StorageError};
use rustgistry::utils::to_json_normalized;

fn sample(text: &str) -> Manifest {
    Manifest {
        schema_version: 2,
        media_type: text.to_string(),
        config: ManifestConfig { media_type: "c".to_string(), size: u64::MAX, digest: text.to_string() },
        manifests: Some(vec![
            ManifestEntry {
                media_type: "m".to_string(),
                size: u32::MAX,
                digest: "x".to_string(),
                platform: Some(Platform {
                    architecture: "amd64".to_string(),
                    os: text.to_string(),
                    features: Some(vec![text.to_string(), "".to_string(), "]".to_string()]),
                }),
            },
            ManifestEntry { media_type: "".to_string(), size: 0, digest: "y".to_string(), platform: None },
            ManifestEntry {
                media_type: "m".to_string(),
                size: 10,
                digest: "z".to_string(),
                platform: Some(Platform { architecture: "a".to_string(), os: "o".to_string(), features: Some(vec![]) }),
            },
            ManifestEntry {
                media_type: "m".to_string(),
                size: 7,
                digest: "w".to_string(),
                platform: Some(Platform { architecture: "a".to_string(), os: "o".to_string(), features: None }),
            },
        ]),
        layers: Some(vec![
            LayerEntry { media_type: "l".to_string(), size: 1, digest: "d1".to_string() },
            LayerEntry { media_type: text.to_string(), size: 20, digest: "d2".to_string() },
        ]),
    }
}

fn same(a: &Manifest, b: &Manifest) -> bool {
    format!("{:?}", a) == format!("{:?}", b)
}

#[test]
fn canonical_text_reads_back() {
    for text in [
        "", "plain", "q\"uote", "back\\slash", "\\u0041", "tab\there", "nl\nx", "cr\rx", "\u{8}\u{c}",
        "\u{0}\u{1}\u{1f}\u{7f}", "caf\u{e9} \u{1f600}", "null", "[]", "{\n   \"a\": 1\n}", ",\n",
    ] {
        let m = sample(text);
        let json = to_json_normalized(&m).unwrap();
        let back = from_json_normalized(&json).unwrap();
        assert!(same(&m, &back), "{:?}", text);
        let bytes = manifest_of_bytes(json.into_bytes()).unwrap();
        assert!(same(&m, &bytes));
    }
    let mut bare = sample("x");
    bare.manifests = None;
    bare.layers = None;
    let back = from_json_normalized(&to_json_normalized(&bare).unwrap()).unwrap();
    assert!(same(&bare, &back));
    bare.manifests = Some(vec![]);
    bare.layers = Some(vec![]);
    let back = from_json_normalized(&to_json_normalized(&bare).unwrap()).unwrap();
    assert!(same(&bare, &back));
}

#[test]
fn other_texts_are_refused() {
    let mut m = sample("x");
    m.manifests = None;
    let good = to_json_normalized(&m).unwrap();
    assert!(from_json_normalized(&good).is_ok());
    let cases = [
        String::new(),
        "{}".to_string(),
        "null".to_string(),
        format!("{}\n", good),
        format!(" {}", good),
        good.replace("\"schemaVersion\": 2", "\"schemaVersion\": 02"),
        good.replace("\"schemaVersion\": 2", "\"schemaVersion\": 4294967296"),
        good.replace("\"schemaVersion\": 2", "\"schemaVersion\": -2"),
        good.replace("\"schemaVersion\": 2", "\"schemaVersion\": \"2\""),
        good.replace("   \"schemaVersion\"", "  \"schemaVersion\""),
        good.replace("\"manifests\": null", "\"manifests\": nil"),
        good.replace("\"manifests\": null,\n   ", ""),
        good.replace("\"size\": 1,", "\"size\": 1.0,"),
        good.replace("\"d1\"", "\"d\\u0031\""),
        good.replace("\"d1\"", "\"d\\q\""),
        good.replace("\"d1\"", "\"d1"),
        good.replace("\"d1\"", "\"d\u{1}\""),
        good.replace("\n", "\r\n"),
        good.replace(": ", ":"),
        good[..good.len() - 1].to_string(),
    ];
    for (i, text) in cases.iter().enumerate() {
        assert_ne!(text, &good, "case {}", i);
        assert_eq!(from_json_normalized(text).unwrap_err(), StorageError::ManifestInvalid, "case {}", i);
    }
    assert_eq!(manifest_of_bytes(vec![0xff, 0xfe]).unwrap_err(), StorageError::ManifestInvalid);
    assert_eq!(manifest_of_bytes(vec![]).unwrap_err(), StorageError::ManifestInvalid);
}

#[test]
fn get_manifest_returns_what_was_put() {
    let mut s = LocalStorage::new("root".to_string(), MemoryMedium::new());
    let m = sample("latest \"one\"");
    let put = s.update_manifest("repo".to_string(), "latest".to_string(), sample("latest \"one\"")).unwrap();
    let by_tag = s.get_manifest("repo".to_string(), "latest".to_string()).unwrap();
    let by_digest = s.get_manifest("repo".to_string(), put.digest.clone()).unwrap();
    assert!(same(&by_tag.manifest, &m));
    assert!(same(&by_digest.manifest, &m));
    assert_eq!(by_tag.digest, put.digest);
    assert_eq!(by_digest.digest, put.digest);
    assert_eq!(s.get_manifest("repo".to_string(), "other".to_string()).unwrap_err(), StorageError::NotFound);
}

#[test]
fn stored_bytes_that_are_no_manifest_are_invalid() {
    let mut s = S3Storage::new("b".to_string(), MemoryMedium::new());
    let key = s.get_manifest_file_path(&"repo".to_string(), &"bad".to_string());
    s.medium.write(&key, b"{\"schemaVersion\":2}").unwrap();
    assert_eq!(s.get_manifest("repo".to_string(), "bad".to_string()).unwrap_err(), StorageError::ManifestInvalid);
    assert!(s.read_manifest("repo".to_string(), "bad".to_string()).is_ok());
    assert!(s.get_manifest_summary("repo".to_string(), "bad".to_string()).is_ok());
}
