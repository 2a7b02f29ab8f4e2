//! Image manifests: a configuration descriptor with either a list of
//! layers or a list of platform-specific manifests.

use vstd::prelude::*;

verus! {

/// An image manifest.
#[derive(Debug, Clone)]
pub struct Manifest {
    pub schema_version: u32,
    pub media_type: String,
    pub config: ManifestConfig,
    pub manifests: Option<Vec<ManifestEntry>>,
    pub layers: Option<Vec<LayerEntry>>,
}

/// The descriptor of an image's configuration blob.
#[derive(Debug, Clone)]
pub struct ManifestConfig {
    pub media_type: String,
    pub size: u64,
    pub digest: String,
}

/// One platform-specific manifest of a multi-platform image.
#[derive(Debug, Clone)]
pub struct ManifestEntry {
    pub media_type: String,
    pub size: u32,
    pub digest: String,
    pub platform: Option<Platform>,
}

/// The descriptor of one layer blob.
#[derive(Debug, Clone)]
pub struct LayerEntry {
    pub media_type: String,
    pub size: u32,
    pub digest: String,
}

/// The platform that a manifest entry is built for.
#[derive(Debug, Clone)]
pub struct Platform {
    pub architecture: String,
    pub os: String,
    pub features: Option<Vec<String>>,
}

} // verus!
