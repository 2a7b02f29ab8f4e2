//! The protocol's error catalogue.

use crate::storage::base::StorageError;
use crate::utils::{push_quoted, quoted};
use vstd::prelude::*;
use vstd::string::*;

verus! {

/// The error codes of the registry protocol.
#[derive(Debug, Clone, Copy, PartialEq, Eq, Hash, Structural)]
pub enum RegistryErrorCode {
    BlobUnknown,
    BlobUploadInvalid,
    BlobUploadUnknown,
    DigestInvalid,
    ManifestBlobUnknown,
    ManifestInvalid,
    ManifestUnknown,
    ManifestUnverified,
    NameInvalid,
    NameUnknown,
    PaginationNumberInvalid,
    RangeInvalid,
    SizeInvalid,
    TagInvalid,
    Unauthorized,
    Denied,
    Unsupported,
}

impl RegistryErrorCode {
    /// The code as the protocol writes it.
    pub open spec fn raw_code_text(self) -> Seq<char> {
        match self {
            RegistryErrorCode::BlobUnknown => "BLOB_UNKNOWN"@,
            RegistryErrorCode::BlobUploadInvalid => "BLOB_UPLOAD_INVALID"@,
            RegistryErrorCode::BlobUploadUnknown => "BLOB_UPLOAD_UNKNOWN"@,
            RegistryErrorCode::DigestInvalid => "DIGEST_INVALID"@,
            RegistryErrorCode::ManifestBlobUnknown => "MANIFEST_BLOB_UNKNOWN"@,
            RegistryErrorCode::ManifestInvalid => "MANIFEST_INVALID"@,
            RegistryErrorCode::ManifestUnknown => "MANIFEST_UNKNOWN"@,
            RegistryErrorCode::ManifestUnverified => "MANIFEST_UNVERIFIED"@,
            RegistryErrorCode::NameInvalid => "NAME_INVALID"@,
            RegistryErrorCode::NameUnknown => "NAME_UNKNOWN"@,
            RegistryErrorCode::PaginationNumberInvalid => "PAGINATION_NUMBER_INVALID"@,
            RegistryErrorCode::RangeInvalid => "RANGE_INVALID"@,
            RegistryErrorCode::SizeInvalid => "SIZE_INVALID"@,
            RegistryErrorCode::TagInvalid => "TAG_INVALID"@,
            RegistryErrorCode::Unauthorized => "UNAUTHORIZED"@,
            RegistryErrorCode::Denied => "DENIED"@,
            RegistryErrorCode::Unsupported => "UNSUPPORTED"@,
        }
    }

    /// What the code means, in words.
    pub open spec fn message_text(self) -> Seq<char> {
        match self {
            RegistryErrorCode::BlobUnknown => "blob unknown to registry"@,
            RegistryErrorCode::BlobUploadInvalid => "blob upload invalid"@,
            RegistryErrorCode::BlobUploadUnknown => "blob upload unknown to registry"@,
            RegistryErrorCode::DigestInvalid => "provided digest did not match uploaded content"@,
            RegistryErrorCode::ManifestBlobUnknown => "blob unknown to registry"@,
            RegistryErrorCode::ManifestInvalid => "manifest invalid"@,
            RegistryErrorCode::ManifestUnknown => "manifest unknown"@,
            RegistryErrorCode::ManifestUnverified => "manifest failed signature verification"@,
            RegistryErrorCode::NameInvalid => "invalid repository name"@,
            RegistryErrorCode::NameUnknown => "repository name not known to registry"@,
            RegistryErrorCode::PaginationNumberInvalid => "invalid number of results requested"@,
            RegistryErrorCode::RangeInvalid => "invalid content range"@,
            RegistryErrorCode::SizeInvalid => "provided length did not match content length"@,
            RegistryErrorCode::TagInvalid => "manifest tag did not match URI"@,
            RegistryErrorCode::Unauthorized => "authentication required"@,
            RegistryErrorCode::Denied => "requested access to the resource is denied"@,
            RegistryErrorCode::Unsupported => "The operation is unsupported."@,
        }
    }

    /// The code as the protocol writes it.
    pub fn raw_code(&self) -> (text: &'static str)
        ensures
            text@ == self.raw_code_text(),
    {
        match self {
            RegistryErrorCode::BlobUnknown => "BLOB_UNKNOWN",
            RegistryErrorCode::BlobUploadInvalid => "BLOB_UPLOAD_INVALID",
            RegistryErrorCode::BlobUploadUnknown => "BLOB_UPLOAD_UNKNOWN",
            RegistryErrorCode::DigestInvalid => "DIGEST_INVALID",
            RegistryErrorCode::ManifestBlobUnknown => "MANIFEST_BLOB_UNKNOWN",
            RegistryErrorCode::ManifestInvalid => "MANIFEST_INVALID",
            RegistryErrorCode::ManifestUnknown => "MANIFEST_UNKNOWN",
            RegistryErrorCode::ManifestUnverified => "MANIFEST_UNVERIFIED",
            RegistryErrorCode::NameInvalid => "NAME_INVALID",
            RegistryErrorCode::NameUnknown => "NAME_UNKNOWN",
            RegistryErrorCode::PaginationNumberInvalid => "PAGINATION_NUMBER_INVALID",
            RegistryErrorCode::RangeInvalid => "RANGE_INVALID",
            RegistryErrorCode::SizeInvalid => "SIZE_INVALID",
            RegistryErrorCode::TagInvalid => "TAG_INVALID",
            RegistryErrorCode::Unauthorized => "UNAUTHORIZED",
            RegistryErrorCode::Denied => "DENIED",
            RegistryErrorCode::Unsupported => "UNSUPPORTED",
        }
    }

    /// What the code means, in words.
    pub fn message(&self) -> (text: &'static str)
        ensures
            text@ == self.message_text(),
    {
        match self {
            RegistryErrorCode::BlobUnknown => "blob unknown to registry",
            RegistryErrorCode::BlobUploadInvalid => "blob upload invalid",
            RegistryErrorCode::BlobUploadUnknown => "blob upload unknown to registry",
            RegistryErrorCode::DigestInvalid => "provided digest did not match uploaded content",
            RegistryErrorCode::ManifestBlobUnknown => "blob unknown to registry",
            RegistryErrorCode::ManifestInvalid => "manifest invalid",
            RegistryErrorCode::ManifestUnknown => "manifest unknown",
            RegistryErrorCode::ManifestUnverified => "manifest failed signature verification",
            RegistryErrorCode::NameInvalid => "invalid repository name",
            RegistryErrorCode::NameUnknown => "repository name not known to registry",
            RegistryErrorCode::PaginationNumberInvalid => "invalid number of results requested",
            RegistryErrorCode::RangeInvalid => "invalid content range",
            RegistryErrorCode::SizeInvalid => "provided length did not match content length",
            RegistryErrorCode::TagInvalid => "manifest tag did not match URI",
            RegistryErrorCode::Unauthorized => "authentication required",
            RegistryErrorCode::Denied => "requested access to the resource is denied",
            RegistryErrorCode::Unsupported => "The operation is unsupported.",
        }
    }
}

/// An error as a response carries it: an HTTP status and a code of the
/// catalogue.
#[derive(Debug, Clone, Copy)]
pub struct RegistryError {
    pub status: u16,
    pub code: RegistryErrorCode,
}

/// The body of an error response: one error with its code and message.
pub open spec fn error_body_text(code: RegistryErrorCode) -> Seq<char> {
    "{\"errors\":[{\"code\":"@ + quoted(code.raw_code_text()) + ",\"message\":"@ + quoted(
        code.message_text(),
    ) + "}]}"@
}

impl RegistryError {
    /// An error with `status` and `code`.
    pub fn new(status: u16, code: RegistryErrorCode) -> (e: RegistryError)
        ensures
            e.status == status,
            e.code == code,
    {
        RegistryError { status, code }
    }

    /// The JSON body of the response.
    pub fn body(&self) -> (text: String)
        ensures
            text@ == error_body_text(self.code),
    {
        let mut text = String::from_str("{\"errors\":[{\"code\":");
        push_quoted(&mut text, self.code.raw_code());
        text.append(",\"message\":");
        push_quoted(&mut text, self.code.message());
        text.append("}]}");
        text
    }
}

/// What a failed operation concerns.
#[derive(Debug, Clone, Copy, PartialEq, Eq, Structural)]
pub enum Subject {
    /// A blob or an upload session.
    Blob,
    /// A manifest.
    Manifest,
}

/// The HTTP status that answers a failure of the engine.
pub open spec fn status_of(e: StorageError) -> u16 {
    match e {
        StorageError::NotFound => 404,
        StorageError::SessionInvalid => 404,
        StorageError::DigestMismatch => 400,
        StorageError::ManifestInvalid => 500,
        StorageError::SerializationError => 500,
        StorageError::BackendUnavailable => 500,
    }
}

/// The code of the catalogue that answers a failure of the engine; a
/// failure of the medium has none.
pub open spec fn code_of(e: StorageError, subject: Subject) -> Option<RegistryErrorCode> {
    match e {
        StorageError::NotFound => match subject {
            Subject::Blob => Some(RegistryErrorCode::BlobUnknown),
            Subject::Manifest => Some(RegistryErrorCode::ManifestUnknown),
        },
        StorageError::SessionInvalid => Some(RegistryErrorCode::BlobUploadInvalid),
        StorageError::DigestMismatch => Some(RegistryErrorCode::DigestInvalid),
        StorageError::ManifestInvalid => Some(RegistryErrorCode::ManifestInvalid),
        StorageError::SerializationError => Some(RegistryErrorCode::ManifestInvalid),
        StorageError::BackendUnavailable => None,
    }
}

/// The answer to a failure of the engine: its status, and the error to
/// put in the body where the catalogue has a code for it.
pub fn error_response(e: StorageError, subject: Subject) -> (r: (u16, Option<RegistryError>))
    ensures
        r.0 == status_of(e),
        match r.1 {
            Some(error) => error.status == status_of(e) && code_of(e, subject) == Some(error.code),
            None => code_of(e, subject) is None,
        },
{
    let status: u16 = match e {
        StorageError::NotFound => 404,
        StorageError::SessionInvalid => 404,
        StorageError::DigestMismatch => 400,
        StorageError::ManifestInvalid => 500,
        StorageError::SerializationError => 500,
        StorageError::BackendUnavailable => 500,
    };
    let code = match e {
        StorageError::NotFound => match subject {
            Subject::Blob => Some(RegistryErrorCode::BlobUnknown),
            Subject::Manifest => Some(RegistryErrorCode::ManifestUnknown),
        },
        StorageError::SessionInvalid => Some(RegistryErrorCode::BlobUploadInvalid),
        StorageError::DigestMismatch => Some(RegistryErrorCode::DigestInvalid),
        StorageError::ManifestInvalid => Some(RegistryErrorCode::ManifestInvalid),
        StorageError::SerializationError => Some(RegistryErrorCode::ManifestInvalid),
        StorageError::BackendUnavailable => None,
    };
    match code {
        Some(code) => (status, Some(RegistryError::new(status, code))),
        None => (status, None),
    }
}

} // verus!
