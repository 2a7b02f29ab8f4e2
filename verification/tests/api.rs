use rustgistry::api::v2::errors::{error_response, RegistryError, RegistryErrorCode, Subject};
use rustgistry::api::v2::routes::blobs::{
    blob_location, content_length, upload_location, upload_range, ChunkedUploadQuery, MonolithicUploadQuery,
};
use rustgistry::storage::StorageError;

#[test]
fn catalogue_texts() {
    assert_eq!(RegistryErrorCode::BlobUnknown.raw_code(), "BLOB_UNKNOWN");
    assert_eq!(RegistryErrorCode::PaginationNumberInvalid.raw_code(), "PAGINATION_NUMBER_INVALID");
    assert_eq!(RegistryErrorCode::DigestInvalid.message(), "provided digest did not match uploaded content");
    assert_eq!(RegistryErrorCode::Unsupported.message(), "The operation is unsupported.");
    assert_eq!(RegistryErrorCode::ManifestBlobUnknown.message(), RegistryErrorCode::BlobUnknown.message());
}

#[test]
fn error_body_is_compact_json() {
    let e = RegistryError::new(404, RegistryErrorCode::ManifestUnknown);
    assert_eq!(e.status, 404);
    assert_eq!(e.body(), r#"{"errors":[{"code":"MANIFEST_UNKNOWN","message":"manifest unknown"}]}"#);
}

#[test]
fn each_failure_has_its_answer() {
    let (s, e) = error_response(StorageError::NotFound, Subject::Blob);
    assert_eq!((s, e.unwrap().code), (404, RegistryErrorCode::BlobUnknown));
    let (s, e) = error_response(StorageError::NotFound, Subject::Manifest);
    assert_eq!((s, e.unwrap().code), (404, RegistryErrorCode::ManifestUnknown));
    let (s, e) = error_response(StorageError::SessionInvalid, Subject::Blob);
    assert_eq!((s, e.unwrap().code), (404, RegistryErrorCode::BlobUploadInvalid));
    let (s, e) = error_response(StorageError::DigestMismatch, Subject::Blob);
    assert_eq!((s, e.unwrap().code), (400, RegistryErrorCode::DigestInvalid));
    let (s, e) = error_response(StorageError::ManifestInvalid, Subject::Manifest);
    assert_eq!((s, e.unwrap().code), (500, RegistryErrorCode::ManifestInvalid));
    let (s, e) = error_response(StorageError::SerializationError, Subject::Manifest);
    assert_eq!((s, e.unwrap().code), (500, RegistryErrorCode::ManifestInvalid));
    let (s, e) = error_response(StorageError::BackendUnavailable, Subject::Manifest);
    assert_eq!(s, 500);
    assert!(e.is_none());
}

#[test]
fn locations_and_range() {
    assert_eq!(
        upload_location("http", "localhost:8080", "demo", "u-1", "c3RhdGU="),
        "http://localhost:8080/v2/demo/blobs/uploads/u-1?_state=c3RhdGU="
    );
    assert_eq!(blob_location("https", "r.io", "a/b", "sha256:00"), "https://r.io/v2/a/b/blobs/sha256:00");
    assert_eq!(upload_range(0), "0-0");
    assert_eq!(upload_range(1048576), "0-1048576");
}

#[test]
fn content_length_header() {
    assert_eq!(content_length(None).unwrap(), 0);
    assert_eq!(content_length(Some("0")).unwrap(), 0);
    assert_eq!(content_length(Some("+12")).unwrap(), 12);
    assert_eq!(content_length(Some("007")).unwrap(), 7);
    assert_eq!(content_length(Some("18446744073709551615")).unwrap(), u64::MAX);
    for bad in ["", "+", "-1", " 1", "1 ", "1_000", "0x10", "18446744073709551616", "abc"] {
        let e = content_length(Some(bad)).unwrap_err();
        assert_eq!((e.status, e.code), (400, RegistryErrorCode::BlobUploadInvalid), "{:?}", bad);
    }
}

#[test]
fn queries_hold_what_the_client_sent() {
    let q = MonolithicUploadQuery { _state: "s".to_string(), digest: None };
    assert!(q.digest.is_none());
    let c = ChunkedUploadQuery { _state: "s".to_string() };
    assert_eq!(c._state, q._state);
}
