//! The storage engine.

pub mod base;
pub mod digest;
pub mod engine;
pub mod laws;
pub mod layout;
pub mod local;
pub mod locks;
pub mod medium;
pub mod memory;
pub mod model;
pub mod s3;
pub mod token;
pub mod types;

pub use base::{
    ImageLayerInfo, LayerReader, ManifestDetails, ManifestSummary, Storage, StorageError, StoredManifest,
    UpdateManifestDetails, UploadContainer, UploadDetails, UploadStatus,
};
pub use digest::is_sha256_digest;
pub use local::LocalStorage;
pub use s3::S3Storage;
