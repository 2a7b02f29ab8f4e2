//! The backend for a local file system: sessions grow in place, and a
//! finalized upload moves to the blob store in one step.

use super::base::{
    ImageLayerInfo, LayerReader, ManifestDetails, ManifestSummary, Storage, StorageError, StoredManifest,
    UpdateManifestDetails, UploadContainer, UploadDetails, UploadStatus,
};
use super::engine;
use super::layout::{key_in, layer_key, layers_dir, manifest_key, manifests_dir, upload_key};
use super::medium::{FileMedium, Tree};
use super::model::opened;
use super::token::{is_uuid_text, random_uuid};
use super::types::manifest::Manifest;
use crate::utils::to_json_normalized;
use vstd::prelude::*;
use vstd::string::*;

verus! {

/// The storage engine on a file system, rooted at `path`.
pub struct LocalStorage<M: FileMedium> {
    pub path: String,
    pub medium: M,
}

impl<M: FileMedium> LocalStorage<M> {
    /// An engine rooted at `path` on `medium`.
    pub fn new(path: String, medium: M) -> (storage: Self)
        ensures
            storage.path == path,
            storage.medium == medium,
    {
        LocalStorage { path, medium }
    }

    /// The key of the upload session `uuid` of repository `name`.
    pub fn get_upload_file_path(&self, name: &String, uuid: &String) -> (key: String)
        ensures
            key@ == upload_key(self.path@, name@, uuid@),
    {
        engine::upload_path(&self.path, name, uuid)
    }

    /// The key of the blob `digest` of repository `name`.
    pub fn get_layer_file_path(&self, name: &String, digest: &String) -> (key: String)
        ensures
            key@ == layer_key(self.path@, name@, digest@),
    {
        engine::layer_path(&self.path, name, digest)
    }

    /// The key of the manifest `reference` of repository `name`.
    pub fn get_manifest_file_path(&self, name: &String, reference: &String) -> (key: String)
        ensures
            key@ == manifest_key(self.path@, name@, reference@),
    {
        let dir = manifests_dir(&self.path, name);
        key_in(&dir, reference)
    }
}

impl<M: FileMedium> Storage for LocalStorage<M> {
    open spec fn root(&self) -> Seq<char> {
        self.path@
    }

    open spec fn tree(&self) -> Tree {
        self.medium.tree()
    }

    open spec fn reliable(&self) -> bool {
        self.medium.reliable()
    }

    fn get_image_layer_info(&self, name: String, digest: String) -> (r: Result<
        Option<ImageLayerInfo>,
        StorageError,
    >) {
        let key = self.get_layer_file_path(&name, &digest);
        engine::blob_info(&self.medium, &key)
    }

    fn get_layer(&self, name: String, digest: String) -> (r: Result<LayerReader, StorageError>) {
        let key = self.get_layer_file_path(&name, &digest);
        engine::open_blob(&self.medium, key)
    }

    fn read_layer(&self, reader: &mut LayerReader, max: usize) -> (r: Result<
        Option<Vec<u8>>,
        StorageError,
    >) {
        engine::next_chunk(&self.medium, reader, max)
    }

    fn open_upload_container(&mut self, name: String, uuid: String, created_at: u64) -> (r:
        Result<UploadContainer, StorageError>) {
        engine::open_session(&mut self.medium, &self.path, name, uuid, created_at)
    }

    fn create_upload_container(&mut self, name: String, created_at: u64) -> (r: Result<
        UploadContainer,
        StorageError,
    >) {
        let uuid = random_uuid();
        let ghost id = uuid@;
        let ghost before = self.medium.tree();
        let r = engine::open_session(&mut self.medium, &self.path, name, uuid, created_at);
        proof {
            if r is Err && self.medium.tree() != before {
                assert(is_uuid_text(id));
                assert(self.medium.tree() == opened(before, upload_key(self.root(), name@, id)));
            }
        }
        r
    }

    fn check_upload_container_validity(&self, name: String, uuid: String) -> (r: Result<
        bool,
        StorageError,
    >) {
        let key = self.get_upload_file_path(&name, &uuid);
        engine::session_exists(&self.medium, &key)
    }

    fn write_upload_container(
        &mut self,
        name: String,
        uuid: String,
        chunks: &Vec<Vec<u8>>,
        range: (u64, u64),
    ) -> (r: Result<UploadStatus, StorageError>) {
        let key = self.get_upload_file_path(&name, &uuid);
        engine::append_chunks(&mut self.medium, &key, chunks)
    }

    /// On a file system the move is one step: where the medium fails, the
    /// store is as it was.
    fn close_upload_container(&mut self, name: String, uuid: String, expected: Option<String>) -> (r:
        Result<UploadDetails, StorageError>)
        ensures
            r matches Err(StorageError::BackendUnavailable) ==> final(self).tree() == old(
                self,
            ).tree(),
    {
        let key = self.get_upload_file_path(&name, &uuid);
        let digest = match engine::hash_file(&self.medium, &key) {
            Err(e) => {
                return Err(e);
            },
            Ok(None) => {
                return Err(StorageError::SessionInvalid);
            },
            Ok(Some(digest)) => digest,
        };
        if !engine::digest_expected(&expected, &digest) {
            return Err(StorageError::DigestMismatch);
        }
        let dir = layers_dir(&self.path, &name);
        let target = key_in(&dir, &digest);
        match self.medium.rename(&key, &target) {
            Err(_) => Err(StorageError::BackendUnavailable),
            Ok(false) => {
                assert(false);
                Err(StorageError::SessionInvalid)
            },
            Ok(true) => Ok(UploadDetails { digest }),
        }
    }

    fn read_manifest(&self, name: String, reference: String) -> (r: Result<
        StoredManifest,
        StorageError,
    >) {
        let dir = manifests_dir(&self.path, &name);
        engine::read_manifest(&self.medium, &dir, &reference)
    }

    fn get_manifest(&self, name: String, reference: String) -> (r: Result<
        ManifestDetails,
        StorageError,
    >) {
        let dir = manifests_dir(&self.path, &name);
        engine::get_manifest(&self.medium, &dir, &reference)
    }

    fn get_manifest_summary(&self, name: String, reference: String) -> (r: Result<
        ManifestSummary,
        StorageError,
    >) {
        let dir = manifests_dir(&self.path, &name);
        engine::manifest_summary(&self.medium, &dir, &reference)
    }

    fn store_manifest(&mut self, name: String, reference: String, content: &[u8]) -> (r: Result<
        UpdateManifestDetails,
        StorageError,
    >) {
        let dir = manifests_dir(&self.path, &name);
        engine::store_manifest(&mut self.medium, &dir, &reference, content)
    }

    fn update_manifest(&mut self, name: String, reference: String, manifest: Manifest) -> (r:
        Result<UpdateManifestDetails, StorageError>) {
        let dir = manifests_dir(&self.path, &name);
        match to_json_normalized(&manifest) {
            Err(e) => {
                assert(false);
                Err(e)
            },
            Ok(text) => engine::put_manifest(
                &mut self.medium,
                &dir,
                &reference,
                text.as_str().as_bytes(),
            ),
        }
    }

    fn delete_manifest(&mut self, name: String, reference: String) -> (r: Result<
        (),
        StorageError,
    >) {
        let dir = manifests_dir(&self.path, &name);
        engine::delete_manifest(&mut self.medium, &dir, &reference)
    }
}

} // verus!
