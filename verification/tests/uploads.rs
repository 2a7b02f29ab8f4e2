use rustgistry::storage::base::read_to_end;
use rustgistry::storage::memory::MemoryMedium;
use rustgistry::storage::{is_sha256_digest, LocalStorage, S3Storage, Storage, StorageError};

fn storage() -> LocalStorage<MemoryMedium> {
    LocalStorage::new("/var/lib/registry".to_string(), MemoryMedium::new())
}

const DIGEST_123: &str = "sha256:039058c6f2c0cb492c533b0a4d14ef77cc0f78abccced5287d84a1a2011cfb81";

#[test]
fn upload_three_bytes_and_stat() {
    let mut s = storage();
    let c = s.create_upload_container("demo".to_string(), 0).unwrap();
    let status = s
        .write_upload_container("demo".to_string(), c.uuid.clone(), &vec![vec![1u8, 2, 3]], (0, 3))
        .unwrap();
    assert_eq!(status.size, 3);
    let details = s.close_upload_container("demo".to_string(), c.uuid.clone(), None).unwrap();
    assert_eq!(details.digest, DIGEST_123);
    let info = s.get_image_layer_info("demo".to_string(), details.digest.clone()).unwrap();
    assert_eq!(info.unwrap().size, 3);
    let mut reader = s.get_layer("demo".to_string(), details.digest).unwrap();
    assert_eq!(s.read_layer(&mut reader, 2).unwrap(), Some(vec![1u8, 2]));
    assert_eq!(s.read_layer(&mut reader, 2).unwrap(), Some(vec![3u8]));
    assert_eq!(s.read_layer(&mut reader, 2).unwrap(), None);
}

#[test]
fn test_upload_layer() {
    let mut s = storage();
    let name = "test".to_string();
    let uuid = s.create_upload_container(name.clone(), 0).unwrap().uuid;
    let mut seed: u32 = 12345;
    let mut next = move || {
        seed = seed.wrapping_mul(1664525).wrapping_add(1013904223);
        seed
    };
    let chunk_size = 100 + (next() % 925) as usize;
    let chunk_count = 5 + (next() % 6) as usize;
    let chunks: Vec<Vec<u8>> = (0..chunk_count)
        .map(|_| (0..chunk_size).map(|_| (next() >> 24) as u8).collect())
        .collect();
    let status = s.write_upload_container(name.clone(), uuid.clone(), &chunks, (0, 0)).unwrap();
    assert_eq!(status.size, (chunk_size * chunk_count) as u64);
    let details = s.close_upload_container(name.clone(), uuid.clone(), None).unwrap();
    assert!(is_sha256_digest(&details.digest));
}

#[test]
fn finalize_unknown_session_is_invalid() {
    let mut s = storage();
    let r = s.close_upload_container("demo".to_string(), "nope".to_string(), None);
    assert_eq!(r.unwrap_err(), StorageError::SessionInvalid);
}

#[test]
fn second_finalize_is_invalid() {
    let mut s = storage();
    let c = s.create_upload_container("demo".to_string(), 0).unwrap();
    s.write_upload_container("demo".to_string(), c.uuid.clone(), &vec![vec![9u8]], (0, 1)).unwrap();
    s.close_upload_container("demo".to_string(), c.uuid.clone(), None).unwrap();
    let again = s.close_upload_container("demo".to_string(), c.uuid.clone(), None);
    assert_eq!(again.unwrap_err(), StorageError::SessionInvalid);
    let append = s.write_upload_container("demo".to_string(), c.uuid.clone(), &vec![vec![1u8]], (1, 2));
    assert_eq!(append.unwrap_err(), StorageError::SessionInvalid);
    assert_eq!(s.check_upload_container_validity("demo".to_string(), c.uuid).unwrap(), false);
}

#[test]
fn digest_mismatch_stores_nothing() {
    let mut s = storage();
    let c = s.create_upload_container("demo".to_string(), 0).unwrap();
    s.write_upload_container("demo".to_string(), c.uuid.clone(), &vec![vec![1u8, 2, 3]], (0, 3)).unwrap();
    let wrong = format!("sha256:{}", "b".repeat(64));
    let r = s.close_upload_container("demo".to_string(), c.uuid.clone(), Some(wrong.clone()));
    assert_eq!(r.unwrap_err(), StorageError::DigestMismatch);
    assert!(s.get_image_layer_info("demo".to_string(), wrong).unwrap().is_none());
    assert!(s.get_image_layer_info("demo".to_string(), DIGEST_123.to_string()).unwrap().is_none());
    assert!(s.check_upload_container_validity("demo".to_string(), c.uuid.clone()).unwrap());
    let ok = s.close_upload_container("demo".to_string(), c.uuid, Some(DIGEST_123.to_string()));
    assert_eq!(ok.unwrap().digest, DIGEST_123);
}

#[test]
fn chunked_equals_monolithic() {
    let content: Vec<u8> = (0..=255u8).cycle().take(1000).collect();
    let mut s = storage();
    let a = s.create_upload_container("demo".to_string(), 0).unwrap().uuid;
    s.write_upload_container("demo".to_string(), a.clone(), &vec![content.clone()], (0, 1000)).unwrap();
    let one = s.close_upload_container("demo".to_string(), a, None).unwrap().digest;
    for split in [0usize, 1, 499, 999, 1000] {
        let mut t = storage();
        let b = t.create_upload_container("demo".to_string(), 0).unwrap().uuid;
        t.write_upload_container("demo".to_string(), b.clone(), &vec![content[..split].to_vec()], (1, 2)).unwrap();
        let st = t
            .write_upload_container("demo".to_string(), b.clone(), &vec![content[split..].to_vec()], (1, 2))
            .unwrap();
        assert_eq!(st.size, 1000);
        assert_eq!(t.close_upload_container("demo".to_string(), b, None).unwrap().digest, one);
    }
}

#[test]
fn object_store_backend_behaves_alike() {
    let mut s = S3Storage::new("bucket".to_string(), MemoryMedium::new());
    let c = s.create_upload_container("demo".to_string(), 7).unwrap();
    assert_eq!(c.uuid.len(), 36);
    s.write_upload_container("demo".to_string(), c.uuid.clone(), &vec![vec![1u8], vec![2u8, 3]], (0, 0))
        .unwrap();
    let st = s.write_upload_container("demo".to_string(), c.uuid.clone(), &vec![], (0, 0)).unwrap();
    assert_eq!(st.size, 3);
    let wrong = format!("sha256:{}", "0".repeat(64));
    assert_eq!(
        s.close_upload_container("demo".to_string(), c.uuid.clone(), Some(wrong)).unwrap_err(),
        StorageError::DigestMismatch
    );
    let d = s.close_upload_container("demo".to_string(), c.uuid.clone(), None).unwrap();
    assert_eq!(d.digest, DIGEST_123);
    assert_eq!(s.get_layer_file_path(&"demo".to_string(), &d.digest), format!("layers/demo/{}", DIGEST_123));
    assert_eq!(s.get_image_layer_info("demo".to_string(), d.digest).unwrap().unwrap().size, 3);
    assert_eq!(
        s.close_upload_container("demo".to_string(), c.uuid, None).unwrap_err(),
        StorageError::SessionInvalid
    );
    assert_eq!(s.medium.len(), 1);
}

#[test]
fn keys_follow_the_layout() {
    let s = storage();
    let n = "library/ubuntu".to_string();
    assert_eq!(s.get_upload_file_path(&n, &"abc".to_string()), "/var/lib/registry/uploads/library/ubuntu/abc");
    assert_eq!(s.get_layer_file_path(&n, &"d".to_string()), "/var/lib/registry/layers/library/ubuntu/d");
    assert_eq!(s.get_manifest_file_path(&n, &"latest".to_string()), "/var/lib/registry/manifests/library/ubuntu/latest");
    let t = LocalStorage::new("data/".to_string(), MemoryMedium::new());
    assert_eq!(t.get_layer_file_path(&"a".to_string(), &"d".to_string()), "data/layers/a/d");
}

#[test]
fn session_token_is_base64_json() {
    let mut s = storage();
    let c = s.open_upload_container("demo".to_string(), "id-1".to_string(), 42).unwrap();
    assert_eq!(c.uuid, "id-1");
    let json = r#"{"name":"demo","uuid":"id-1","created_at":42}"#;
    assert_eq!(c.state, base64::encode(json));
    assert!(s.check_upload_container_validity("demo".to_string(), "id-1".to_string()).unwrap());
    assert!(!s.check_upload_container_validity("demo".to_string(), "id-2".to_string()).unwrap());
    assert!(!s.check_upload_container_validity("other".to_string(), "id-1".to_string()).unwrap());
}

#[test]
fn missing_blob_is_not_found() {
    let s = storage();
    assert!(s.get_image_layer_info("demo".to_string(), DIGEST_123.to_string()).unwrap().is_none());
    assert_eq!(s.get_layer("demo".to_string(), DIGEST_123.to_string()).unwrap_err(), StorageError::NotFound);
}

#[test]
fn blob_reads_back_whole() {
    let content: Vec<u8> = (0..200_000u32).map(|i| (i % 251) as u8).collect();
    let mut s = storage();
    let id = s.create_upload_container("big".to_string(), 1).unwrap().uuid;
    for part in content.chunks(70_000) {
        s.write_upload_container("big".to_string(), id.clone(), &vec![part.to_vec()], (1, 2)).unwrap();
    }
    let digest = s.close_upload_container("big".to_string(), id, None).unwrap().digest;
    let mut reader = s.get_layer("big".to_string(), digest.clone()).unwrap();
    assert_eq!(reader.size, 200_000);
    assert_eq!(s.read_layer(&mut reader, 0).unwrap(), Some(vec![]));
    let first = s.read_layer(&mut reader, 10).unwrap().unwrap();
    assert_eq!(first, content[..10].to_vec());
    let rest = read_to_end(&s, &mut reader).unwrap();
    assert_eq!(rest, content[10..].to_vec());
    assert_eq!(reader.offset, 200_000);
    assert_eq!(s.read_layer(&mut reader, 10).unwrap(), None);
    assert_eq!(read_to_end(&s, &mut reader).unwrap(), Vec::<u8>::new());
    let mut again = s.get_layer("big".to_string(), digest).unwrap();
    assert_eq!(read_to_end(&s, &mut again).unwrap(), content);
}

#[test]
fn session_ids_are_uuids() {
    let mut s = storage();
    let a = s.create_upload_container("demo".to_string(), 0).unwrap().uuid;
    let b = s.create_upload_container("demo".to_string(), 0).unwrap().uuid;
    assert_ne!(a, b);
    for id in [a, b] {
        assert_eq!(id.len(), 36);
        for (i, c) in id.chars().enumerate() {
            if [8, 13, 18, 23].contains(&i) {
                assert_eq!(c, '-');
            } else {
                assert!(c.is_ascii_digit() || ('a'..='f').contains(&c));
            }
        }
    }
}

#[test]
fn session_token_is_never_empty() {
    let mut s = S3Storage::new("bucket".to_string(), MemoryMedium::new());
    let c = s.open_upload_container(String::new(), String::new(), 0).unwrap();
    assert_eq!(c.state, base64::encode(r#"{"name":"","uuid":"","created_at":0}"#));
    assert_eq!(c.state.len() % 4, 0);
    assert!(c.state.len() >= 4);
}
