use rustgistry::storage::digest::digest_bytes;
use rustgistry::storage::memory::MemoryMedium;
use rustgistry::storage::types::manifest::{LayerEntry, Manifest, ManifestConfig, ManifestEntry, Platform};
use rustgistry::storage::{LocalStorage, S3Storage, Storage, StorageError};
use rustgistry::utils::to_json_normalized;

fn storage() -> LocalStorage<MemoryMedium> {
    LocalStorage::new("/srv".to_string(), MemoryMedium::new())
}

fn manifest(layers: u32) -> Manifest {
    Manifest {
        schema_version: 2,
        media_type: "application/vnd.docker.distribution.manifest.v2+json".to_string(),
        config: ManifestConfig {
            media_type: "application/vnd.docker.container.image.v1+json".to_string(),
            size: 7023,
            digest: format!("sha256:{}", "a".repeat(64)),
        },
        manifests: None,
        layers: Some(
            (0..layers)
                .map(|i| LayerEntry {
                    media_type: "application/vnd.docker.image.rootfs.diff.tar.gzip".to_string(),
                    size: 100 + i,
                    digest: format!("sha256:{}", "b".repeat(64)),
                })
                .collect(),
        ),
    }
}

#[test]
fn canonical_text_of_a_manifest() {
    let text = to_json_normalized(&manifest(1)).unwrap();
    let expected = format!(
        "{{\n   \"schemaVersion\": 2,\n   \"mediaType\": \"application/vnd.docker.distribution.manifest.v2+json\",\n   \"config\": {{\n      \"mediaType\": \"application/vnd.docker.container.image.v1+json\",\n      \"size\": 7023,\n      \"digest\": \"sha256:{}\"\n   }},\n   \"manifests\": null,\n   \"layers\": [\n      {{\n         \"mediaType\": \"application/vnd.docker.image.rootfs.diff.tar.gzip\",\n         \"size\": 100,\n         \"digest\": \"sha256:{}\"\n      }}\n   ]\n}}",
        "a".repeat(64),
        "b".repeat(64)
    );
    assert_eq!(text, expected);
}

#[test]
fn canonical_text_of_a_manifest_list() {
    let m = Manifest {
        schema_version: 2,
        media_type: "list".to_string(),
        config: ManifestConfig { media_type: "c".to_string(), size: 0, digest: "d".to_string() },
        manifests: Some(vec![
            ManifestEntry {
                media_type: "m".to_string(),
                size: 4294967295,
                digest: "x".to_string(),
                platform: Some(Platform {
                    architecture: "amd64".to_string(),
                    os: "linux".to_string(),
                    features: Some(vec!["sse4".to_string(), "a\"b".to_string()]),
                }),
            },
            ManifestEntry { media_type: "m".to_string(), size: 1, digest: "y".to_string(), platform: None },
            ManifestEntry {
                media_type: "m".to_string(),
                size: 2,
                digest: "z".to_string(),
                platform: Some(Platform {
                    architecture: "arm".to_string(),
                    os: "linux".to_string(),
                    features: Some(vec![]),
                }),
            },
        ]),
        layers: Some(vec![]),
    };
    let expected = "{\n   \"schemaVersion\": 2,\n   \"mediaType\": \"list\",\n   \"config\": {\n      \"mediaType\": \"c\",\n      \"size\": 0,\n      \"digest\": \"d\"\n   },\n   \"manifests\": [\n      {\n         \"mediaType\": \"m\",\n         \"size\": 4294967295,\n         \"digest\": \"x\",\n         \"platform\": {\n            \"architecture\": \"amd64\",\n            \"os\": \"linux\",\n            \"features\": [\n               \"sse4\",\n               \"a\\\"b\"\n            ]\n         }\n      },\n      {\n         \"mediaType\": \"m\",\n         \"size\": 1,\n         \"digest\": \"y\",\n         \"platform\": null\n      },\n      {\n         \"mediaType\": \"m\",\n         \"size\": 2,\n         \"digest\": \"z\",\n         \"platform\": {\n            \"architecture\": \"arm\",\n            \"os\": \"linux\",\n            \"features\": []\n         }\n      }\n   ],\n   \"layers\": []\n}";
    assert_eq!(to_json_normalized(&m).unwrap(), expected);
}

#[test]
fn escapes_agree_with_serde_json() {
    let samples = [
        "", "plain", "q\"uote", "back\\slash", "tab\there", "nl\nx", "cr\rx", "\u{8}\u{c}", "\u{0}\u{1}\u{1f}\u{7f}",
        "caf\u{e9} \u{1f600} / <>&", "a\u{2028}b",
    ];
    for s in samples {
        let mut m = manifest(0);
        m.media_type = s.to_string();
        let text = to_json_normalized(&m).unwrap();
        let quoted = serde_json::to_string(&serde_json::Value::String(s.to_string())).unwrap();
        assert!(text.contains(&format!("\"mediaType\": {},\n", quoted)), "{:?}", s);
    }
}

#[test]
fn numbers_agree_with_serde_json() {
    for n in [0u64, 9, 10, 99, 100, 12345, u32::MAX as u64, u64::MAX] {
        let mut m = manifest(0);
        m.config.size = n;
        let text = to_json_normalized(&m).unwrap();
        let shown = serde_json::to_string(&serde_json::Value::from(n)).unwrap();
        assert!(text.contains(&format!("\"size\": {},\n", shown)));
    }
}

#[test]
fn tag_and_digest_converge() {
    let mut s = storage();
    let m = manifest(2);
    let bytes = to_json_normalized(&m).unwrap().into_bytes();
    let put = s.update_manifest("repo".to_string(), "latest".to_string(), m).unwrap();
    assert_eq!(put.digest, digest_bytes(&bytes));
    let by_tag = s.read_manifest("repo".to_string(), "latest".to_string()).unwrap();
    let by_digest = s.read_manifest("repo".to_string(), put.digest.clone()).unwrap();
    assert_eq!(by_tag.content, bytes);
    assert_eq!(by_digest.content, bytes);
    assert_eq!(by_tag.digest, put.digest);
    assert_eq!(by_digest.digest, put.digest);
    let summary = s.get_manifest_summary("repo".to_string(), put.digest.clone()).unwrap();
    assert_eq!(summary.size, bytes.len() as u64);
    assert_eq!(summary.digest, put.digest);
    assert_eq!(s.medium.len(), 2);
}

#[test]
fn overwrite_leaves_no_stale_alias() {
    for object_store in [false, true] {
        let (d1, d2, second, after_tag, after_d1, after_d2) = if object_store {
            let mut s = S3Storage::new("b".to_string(), MemoryMedium::new());
            let d1 = s.update_manifest("repo".to_string(), "latest".to_string(), manifest(1)).unwrap().digest;
            let d2 = s.update_manifest("repo".to_string(), "latest".to_string(), manifest(2)).unwrap().digest;
            (
                d1.clone(),
                d2.clone(),
                to_json_normalized(&manifest(2)).unwrap().into_bytes(),
                s.read_manifest("repo".to_string(), "latest".to_string()),
                s.read_manifest("repo".to_string(), d1),
                s.read_manifest("repo".to_string(), d2),
            )
        } else {
            let mut s = storage();
            let d1 = s.update_manifest("repo".to_string(), "latest".to_string(), manifest(1)).unwrap().digest;
            let d2 = s.update_manifest("repo".to_string(), "latest".to_string(), manifest(2)).unwrap().digest;
            (
                d1.clone(),
                d2.clone(),
                to_json_normalized(&manifest(2)).unwrap().into_bytes(),
                s.read_manifest("repo".to_string(), "latest".to_string()),
                s.read_manifest("repo".to_string(), d1),
                s.read_manifest("repo".to_string(), d2),
            )
        };
        assert_ne!(d1, d2);
        assert_eq!(after_tag.unwrap().content, second);
        assert_eq!(after_d1.unwrap_err(), StorageError::NotFound);
        assert_eq!(after_d2.unwrap().content, second);
    }
}

#[test]
fn reference_of_digest_form() {
    let mut s = storage();
    let bytes = to_json_normalized(&manifest(1)).unwrap().into_bytes();
    let d = digest_bytes(&bytes);
    let put = s.store_manifest("repo".to_string(), d.clone(), &bytes).unwrap();
    assert_eq!(put.digest, d);
    assert_eq!(s.medium.len(), 1);
    assert_eq!(s.read_manifest("repo".to_string(), d.clone()).unwrap().content, bytes);
    let other = format!("sha256:{}", "c".repeat(64));
    s.store_manifest("repo".to_string(), other.clone(), &bytes).unwrap();
    assert_eq!(s.read_manifest("repo".to_string(), other).unwrap_err(), StorageError::NotFound);
    assert_eq!(s.read_manifest("repo".to_string(), d).unwrap().content, bytes);
}

#[test]
fn bytes_that_are_no_manifest_are_not_stored() {
    let mut s = storage();
    let good = to_json_normalized(&manifest(2)).unwrap();
    let compact: String = good.chars().filter(|c| !c.is_whitespace()).collect();
    for bad in [b"not a manifest, but bytes".to_vec(), b"{\"schemaVersion\":2}".to_vec(), compact.into_bytes(), vec![]] {
        assert_eq!(
            s.store_manifest("repo".to_string(), "latest".to_string(), &bad).unwrap_err(),
            StorageError::ManifestInvalid
        );
        assert_eq!(s.medium.len(), 0);
    }
    let put = s.store_manifest("repo".to_string(), "latest".to_string(), good.as_bytes()).unwrap();
    assert_eq!(put.digest, digest_bytes(good.as_bytes()));
    assert_eq!(s.update_manifest("repo".to_string(), "latest".to_string(), manifest(2)).unwrap().digest, put.digest);
    assert_eq!(s.medium.len(), 2);
}

#[test]
fn delete_leaves_a_dangling_alias() {
    let mut s = storage();
    let d = s.update_manifest("repo".to_string(), "v1".to_string(), manifest(1)).unwrap().digest;
    assert_eq!(s.delete_manifest("repo".to_string(), "nope".to_string()).unwrap_err(), StorageError::NotFound);
    s.delete_manifest("repo".to_string(), "v1".to_string()).unwrap();
    assert_eq!(s.read_manifest("repo".to_string(), "v1".to_string()).unwrap_err(), StorageError::NotFound);
    assert_eq!(s.read_manifest("repo".to_string(), d.clone()).unwrap_err(), StorageError::NotFound);
    assert_eq!(s.get_manifest_summary("repo".to_string(), d.clone()).unwrap_err(), StorageError::NotFound);
    assert_eq!(s.delete_manifest("repo".to_string(), d.clone()).unwrap_err(), StorageError::NotFound);
    s.update_manifest("repo".to_string(), "v1".to_string(), manifest(3)).unwrap();
    assert_eq!(s.read_manifest("repo".to_string(), d).unwrap_err(), StorageError::NotFound);
}

#[test]
fn repositories_are_apart() {
    let mut s = storage();
    s.update_manifest("a".to_string(), "latest".to_string(), manifest(1)).unwrap();
    assert_eq!(s.read_manifest("b".to_string(), "latest".to_string()).unwrap_err(), StorageError::NotFound);
}

#[test]
fn keys_part_repositories_where_one_side_has_no_separator() {
    let s = S3Storage::new("bucket".to_string(), MemoryMedium::new());
    let key = |name: &str, reference: &str| s.get_manifest_file_path(&name.to_string(), &reference.to_string());
    assert_eq!(key("library/ubuntu", "latest"), "manifests/library/ubuntu/latest");
    assert_ne!(key("library/ubuntu", "latest"), key("library", "ubuntu"));
    assert_ne!(key("a", "b"), key("ab", ""));
    assert_ne!(key("a", "tag"), key("b", "tag"));
    assert_eq!(key("a", "b/c"), key("a/b", "c"));
}
