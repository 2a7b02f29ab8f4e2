//! The values that the storage operations return, and their failures.

use super::digest::{digest_of, is_digest_text};
use super::layout::{dir_of, layer_key, layers, manifests, upload_key, uploads};
use super::medium::{file_bytes, grown_in_part, is_file, window, Tree};
use super::model::{
    appended, blob, concat_all, delete_interrupted, deleted, finalize_interrupted,
    finalize_verdict, finalized, is_canonical, opened, put, put_interrupted, resolved,
};
use super::token::{is_uuid_text, state_token};
use super::types::manifest::Manifest;
use crate::utils::canonical_bytes;
use vstd::prelude::*;

verus! {

/// Why a storage operation failed.
#[derive(Debug, Clone, Copy, PartialEq, Eq, Structural)]
pub enum StorageError {
    /// The repository, reference or digest names nothing that is stored.
    NotFound,
    /// The upload session does not exist, or was finalized already.
    SessionInvalid,
    /// The expected digest differs from the digest of what was received.
    DigestMismatch,
    /// Stored or submitted manifest bytes do not follow the schema.
    ManifestInvalid,
    /// The canonical encoding of a document failed.
    SerializationError,
    /// The medium itself failed, whatever the request was.
    BackendUnavailable,
}

/// What is known of a stored blob.
#[derive(Clone, Debug)]
pub struct ImageLayerInfo {
    pub size: u64,
}

/// A newly opened upload session: its id and the opaque token that the
/// client echoes with each chunk.
#[derive(Clone, Debug)]
pub struct UploadContainer {
    pub uuid: String,
    pub state: String,
}

/// The number of bytes that an upload session holds.
#[derive(Clone, Debug)]
pub struct UploadStatus {
    pub size: u64,
}

/// The digest under which a finalized upload was stored.
#[derive(Clone, Debug)]
pub struct UploadDetails {
    pub digest: String,
}

/// Digest and size of a stored manifest.
#[derive(Clone, Debug)]
pub struct ManifestSummary {
    pub digest: String,
    pub size: u64,
}

/// A stored manifest and the digest of its canonical bytes.
#[derive(Clone, Debug)]
pub struct ManifestDetails {
    pub manifest: Manifest,
    pub digest: String,
}

/// A stored manifest as it is kept: its canonical bytes and their digest.
#[derive(Clone, Debug)]
pub struct StoredManifest {
    pub content: Vec<u8>,
    pub digest: String,
}

/// The digest of a manifest that was just written.
#[derive(Clone, Debug)]
pub struct UpdateManifestDetails {
    pub digest: String,
}

/// A stored blob, read from front to back.
#[derive(Debug, Clone)]
pub struct LayerReader {
    /// The key of the blob.
    pub key: String,
    /// The number of bytes handed out so far.
    pub offset: u64,
    /// The size of the blob.
    pub size: u64,
}

/// The byte sequences that a list of chunks holds.
pub open spec fn chunk_views(chunks: Seq<Vec<u8>>) -> Seq<Seq<u8>> {
    Seq::new(chunks.len(), |i: int| chunks[i]@)
}

/// Whether `after` is `before` with one new session in the directory
/// `dir`, empty and under an id of the usual form.
pub open spec fn opened_anew(before: Tree, after: Tree, dir: Seq<char>) -> bool {
    exists|uuid: Seq<char>| #[trigger] is_uuid_text(uuid) && after == opened(before, dir + uuid)
}

/// The text of an optional string.
pub open spec fn text_of(s: Option<String>) -> Option<Seq<char>> {
    match s {
        Some(s) => Some(s@),
        None => None,
    }
}

/// The storage engine: upload sessions, content-addressed blobs, and
/// manifests addressed by tag and by digest. Every backend keeps its data
/// in a tree of keys under a root and meets the same contract, whatever
/// its medium offers.
///
/// An operation fails with `BackendUnavailable` only where the medium is
/// not reliable. An operation that changes the store and fails so has
/// stopped between two steps of the medium, and its contract says what
/// the tree may hold then: nothing that was received or stored is lost,
/// and nothing appears under a digest that is not its own. Any other
/// failure leaves the tree as it was.
pub trait Storage: Sized {
    /// What stands before every key.
    spec fn root(&self) -> Seq<char>;

    /// What the medium holds.
    spec fn tree(&self) -> Tree;

    /// Whether the medium never fails.
    spec fn reliable(&self) -> bool;

    /// The size of the blob `digest` of repository `name`, or `None` where
    /// no such blob is stored.
    fn get_image_layer_info(&self, name: String, digest: String) -> (r: Result<
        Option<ImageLayerInfo>,
        StorageError,
    >)
        ensures
            r matches Err(e) ==> e == StorageError::BackendUnavailable && !self.reliable(),
            r matches Ok(Some(info)) ==> blob(self.tree(), layer_key(self.root(), name@, digest@))
                matches Some(bytes) && info.size == bytes.len(),
            r matches Ok(None) ==> blob(self.tree(), layer_key(self.root(), name@, digest@))
                is None,
    ;

    /// Opens the blob `digest` of repository `name` for reading.
    fn get_layer(&self, name: String, digest: String) -> (r: Result<LayerReader, StorageError>)
        ensures
            r matches Err(e) ==> {
                ||| e == StorageError::BackendUnavailable && !self.reliable()
                ||| e == StorageError::NotFound && blob(
                    self.tree(),
                    layer_key(self.root(), name@, digest@),
                ) is None
            },
            r matches Ok(reader) ==> {
                &&& reader.key@ == layer_key(self.root(), name@, digest@)
                &&& reader.offset == 0
                &&& blob(self.tree(), reader.key@) matches Some(bytes) && reader.size
                    == bytes.len()
            },
    ;

    /// The next bytes of an open blob, at most `max` of them: `None` at
    /// the end, else a chunk, which is not empty unless `max` is 0.
    fn read_layer(&self, reader: &mut LayerReader, max: usize) -> (r: Result<
        Option<Vec<u8>>,
        StorageError,
    >)
        ensures
            final(reader).key == old(reader).key,
            final(reader).size == old(reader).size,
            r matches Err(e) ==> {
                ||| e == StorageError::BackendUnavailable && !self.reliable()
                ||| e == StorageError::NotFound && !(blob(self.tree(), old(reader).key@)
                    matches Some(bytes) && bytes.len() == old(reader).size)
            },
            r matches Ok(None) ==> old(reader).offset >= old(reader).size && final(reader).offset
                == old(reader).offset,
            r matches Ok(Some(chunk)) ==> {
                &&& old(reader).offset < old(reader).size
                &&& blob(self.tree(), old(reader).key@) matches Some(bytes) && bytes.len() == old(
                    reader,
                ).size && chunk@ == window(bytes, old(reader).offset as int, max as int)
                &&& max > 0 ==> chunk@.len() > 0
                &&& final(reader).offset == old(reader).offset + chunk@.len()
            },
    ;

    /// Opens the upload session `uuid` for repository `name`, empty. Where
    /// the medium fails, the session was opened or nothing has changed.
    fn open_upload_container(&mut self, name: String, uuid: String, created_at: u64) -> (r:
        Result<UploadContainer, StorageError>)
        ensures
            final(self).root() == old(self).root(),
            final(self).reliable() == old(self).reliable(),
            r matches Err(e) ==> {
                &&& e == StorageError::BackendUnavailable
                &&& !old(self).reliable()
                &&& final(self).tree() == old(self).tree() || final(self).tree() == opened(
                    old(self).tree(),
                    upload_key(old(self).root(), name@, uuid@),
                )
            },
            r matches Ok(container) ==> {
                &&& container.uuid@ == uuid@
                &&& container.state@ == state_token(name@, uuid@, created_at)
                &&& container.state@.len() > 0
                &&& final(self).tree() == opened(
                    old(self).tree(),
                    upload_key(old(self).root(), name@, uuid@),
                )
            },
    ;

    /// Opens a new upload session for repository `name` under a random
    /// id. Where the medium fails, a session of that repository was opened
    /// under some id or nothing has changed.
    fn create_upload_container(&mut self, name: String, created_at: u64) -> (r: Result<
        UploadContainer,
        StorageError,
    >)
        ensures
            final(self).root() == old(self).root(),
            final(self).reliable() == old(self).reliable(),
            r matches Err(e) ==> {
                &&& e == StorageError::BackendUnavailable
                &&& !old(self).reliable()
                &&& final(self).tree() == old(self).tree() || opened_anew(
                    old(self).tree(),
                    final(self).tree(),
                    dir_of(old(self).root(), uploads(), name@),
                )
            },
            r matches Ok(container) ==> {
                &&& is_uuid_text(container.uuid@)
                &&& container.state@ == state_token(name@, container.uuid@, created_at)
                &&& container.state@.len() > 0
                &&& final(self).tree() == opened(
                    old(self).tree(),
                    upload_key(old(self).root(), name@, container.uuid@),
                )
            },
    ;

    /// Whether the upload session `uuid` of repository `name` exists.
    fn check_upload_container_validity(&self, name: String, uuid: String) -> (r: Result<
        bool,
        StorageError,
    >)
        ensures
            r matches Err(e) ==> e == StorageError::BackendUnavailable && !self.reliable(),
            r matches Ok(valid) ==> valid == is_file(
                self.tree(),
                upload_key(self.root(), name@, uuid@),
            ),
    ;

    /// Appends `chunks`, in order, to the upload session `uuid` of
    /// repository `name`, and returns the size that the session has then.
    /// The range is a hint of the caller's and decides nothing: bytes are
    /// appended in the order of the calls. Where the medium fails, the
    /// session keeps what it held and what was appended until then, a
    /// front part of the chunks, and nothing else has changed.
    fn write_upload_container(
        &mut self,
        name: String,
        uuid: String,
        chunks: &Vec<Vec<u8>>,
        range: (u64, u64),
    ) -> (r: Result<UploadStatus, StorageError>)
        ensures
            final(self).root() == old(self).root(),
            final(self).reliable() == old(self).reliable(),
            r matches Err(e) ==> {
                ||| e == StorageError::BackendUnavailable && !old(self).reliable()
                    && grown_in_part(
                    old(self).tree(),
                    final(self).tree(),
                    upload_key(old(self).root(), name@, uuid@),
                    concat_all(chunk_views(chunks@)),
                )
                ||| e == StorageError::SessionInvalid && !is_file(
                    old(self).tree(),
                    upload_key(old(self).root(), name@, uuid@),
                ) && final(self).tree() == old(self).tree()
            },
            r matches Ok(status) ==> {
                let key = upload_key(old(self).root(), name@, uuid@);
                let data = concat_all(chunk_views(chunks@));
                &&& is_file(old(self).tree(), key)
                &&& final(self).tree() == appended(old(self).tree(), key, data)
                &&& status.size == file_bytes(old(self).tree(), key).len() + data.len()
            },
    ;

    /// Finalizes the upload session `uuid` of repository `name`: hashes
    /// what it holds and, unless an expected digest says otherwise, moves
    /// it to the blob store, under its digest. The session is gone then.
    /// On any other outcome but a failure of the medium nothing is stored
    /// and the session stays as it is. Where the medium fails, the
    /// session is removed only after its bytes are the blob: the session
    /// holds them still, or the blob under their digest does, whole.
    fn close_upload_container(&mut self, name: String, uuid: String, expected: Option<String>) -> (r:
        Result<UploadDetails, StorageError>)
        ensures
            final(self).root() == old(self).root(),
            final(self).reliable() == old(self).reliable(),
            r matches Err(StorageError::BackendUnavailable) ==> !old(self).reliable()
                && finalize_interrupted(
                old(self).tree(),
                final(self).tree(),
                upload_key(old(self).root(), name@, uuid@),
                dir_of(old(self).root(), layers(), name@),
                text_of(expected),
            ),
            !(r matches Err(StorageError::BackendUnavailable)) ==> {
                let upload = upload_key(old(self).root(), name@, uuid@);
                let blobs = dir_of(old(self).root(), layers(), name@);
                &&& final(self).tree() == finalized(
                    old(self).tree(),
                    upload,
                    blobs,
                    text_of(expected),
                )
                &&& match r {
                    Ok(details) => finalize_verdict(old(self).tree(), upload, text_of(expected))
                        == Ok::<Seq<char>, StorageError>(details.digest@),
                    Err(e) => finalize_verdict(old(self).tree(), upload, text_of(expected))
                        == Err::<Seq<char>, StorageError>(e),
                }
            },
            r matches Ok(details) ==> is_digest_text(details.digest@),
    ;

    /// The manifest bytes that `reference` resolves to in repository
    /// `name`, with their digest.
    fn read_manifest(&self, name: String, reference: String) -> (r: Result<
        StoredManifest,
        StorageError,
    >)
        ensures
            r matches Err(e) ==> {
                ||| e == StorageError::BackendUnavailable && !self.reliable()
                ||| e == StorageError::NotFound && resolved(
                    self.tree(),
                    dir_of(self.root(), manifests(), name@),
                    reference@,
                ) is None
            },
            r matches Ok(stored) ==> {
                &&& resolved(self.tree(), dir_of(self.root(), manifests(), name@), reference@)
                    == Some(stored.content@)
                &&& stored.digest@ == digest_of(stored.content@)
                &&& is_digest_text(stored.digest@)
            },
    ;

    /// The manifest that `reference` resolves to in repository `name`, with
    /// the digest of its canonical bytes.
    ///
    /// The store holds manifests in canonical form only: `update_manifest`
    /// writes that form and `store_manifest` admits no other, so that the
    /// digest of what is stored is the digest of the document, whoever
    /// encodes it again. Bytes that are the canonical form of no manifest
    /// were put on the medium by other hands, and are refused as invalid:
    /// a document read from them would not hash to the digest under which
    /// it is served.
    fn get_manifest(&self, name: String, reference: String) -> (r: Result<
        ManifestDetails,
        StorageError,
    >)
        ensures
            r matches Err(e) ==> {
                ||| e == StorageError::BackendUnavailable && !self.reliable()
                ||| e == StorageError::NotFound && resolved(
                    self.tree(),
                    dir_of(self.root(), manifests(), name@),
                    reference@,
                ) is None
                ||| e == StorageError::ManifestInvalid && (resolved(
                    self.tree(),
                    dir_of(self.root(), manifests(), name@),
                    reference@,
                ) matches Some(content) && !is_canonical(content))
            },
            r matches Ok(details) ==> {
                &&& resolved(self.tree(), dir_of(self.root(), manifests(), name@), reference@)
                    == Some(canonical_bytes(details.manifest))
                &&& details.digest@ == digest_of(canonical_bytes(details.manifest))
                &&& is_digest_text(details.digest@)
            },
    ;

    /// Digest and size of the manifest that `reference` resolves to in
    /// repository `name`.
    fn get_manifest_summary(&self, name: String, reference: String) -> (r: Result<
        ManifestSummary,
        StorageError,
    >)
        ensures
            r matches Err(e) ==> {
                ||| e == StorageError::BackendUnavailable && !self.reliable()
                ||| e == StorageError::NotFound && resolved(
                    self.tree(),
                    dir_of(self.root(), manifests(), name@),
                    reference@,
                ) is None
            },
            r matches Ok(summary) ==> resolved(
                self.tree(),
                dir_of(self.root(), manifests(), name@),
                reference@,
            ) matches Some(content) && summary.digest@ == digest_of(content) && summary.size
                == content.len(),
    ;

    /// Puts `content`, the canonical form of a manifest, under `reference`
    /// in repository `name`: the primary copy under the reference, and an
    /// alias to it under the digest of `content`. The alias of what the
    /// reference held before is removed. Bytes that are the canonical form
    /// of no manifest are refused as invalid, and nothing changes.
    /// Where the medium fails, the put has stopped between two of these
    /// steps, in this order: the old alias goes, the primary copy is
    /// written, the new alias is made.
    fn store_manifest(&mut self, name: String, reference: String, content: &[u8]) -> (r: Result<
        UpdateManifestDetails,
        StorageError,
    >)
        ensures
            final(self).root() == old(self).root(),
            final(self).reliable() == old(self).reliable(),
            r matches Err(e) ==> {
                ||| e == StorageError::BackendUnavailable && !old(self).reliable() && is_canonical(
                    content@,
                ) && put_interrupted(
                    old(self).tree(),
                    final(self).tree(),
                    dir_of(old(self).root(), manifests(), name@),
                    reference@,
                    content@,
                )
                ||| e == StorageError::ManifestInvalid && !is_canonical(content@)
                    && final(self).tree() == old(self).tree()
            },
            r matches Ok(details) ==> {
                &&& is_canonical(content@)
                &&& details.digest@ == digest_of(content@)
                &&& is_digest_text(details.digest@)
                &&& final(self).tree() == put(
                    old(self).tree(),
                    dir_of(old(self).root(), manifests(), name@),
                    reference@,
                    content@,
                )
            },
    ;

    /// Puts `manifest`, in its canonical form, under `reference` in
    /// repository `name`, and returns the digest of that form. Where the
    /// medium fails, the put has stopped between two of its steps.
    fn update_manifest(&mut self, name: String, reference: String, manifest: Manifest) -> (r:
        Result<UpdateManifestDetails, StorageError>)
        ensures
            final(self).root() == old(self).root(),
            final(self).reliable() == old(self).reliable(),
            r matches Err(e) ==> {
                &&& e == StorageError::BackendUnavailable
                &&& !old(self).reliable()
                &&& put_interrupted(
                    old(self).tree(),
                    final(self).tree(),
                    dir_of(old(self).root(), manifests(), name@),
                    reference@,
                    canonical_bytes(manifest),
                )
            },
            r matches Ok(details) ==> {
                &&& details.digest@ == digest_of(canonical_bytes(manifest))
                &&& is_digest_text(details.digest@)
                &&& final(self).tree() == put(
                    old(self).tree(),
                    dir_of(old(self).root(), manifests(), name@),
                    reference@,
                    canonical_bytes(manifest),
                )
            },
    ;

    /// Deletes what `reference` holds in repository `name`. An alias to it
    /// is left in place and resolves to nothing from then on. Where the
    /// medium fails, the deletion took place or nothing has changed.
    fn delete_manifest(&mut self, name: String, reference: String) -> (r: Result<(), StorageError>)
        ensures
            final(self).root() == old(self).root(),
            final(self).reliable() == old(self).reliable(),
            r matches Err(e) ==> {
                ||| e == StorageError::BackendUnavailable && !old(self).reliable()
                    && delete_interrupted(
                    old(self).tree(),
                    final(self).tree(),
                    dir_of(old(self).root(), manifests(), name@),
                    reference@,
                )
                ||| e == StorageError::NotFound && resolved(
                    old(self).tree(),
                    dir_of(old(self).root(), manifests(), name@),
                    reference@,
                ) is None && final(self).tree() == old(self).tree()
            },
            r is Ok ==> {
                &&& resolved(
                    old(self).tree(),
                    dir_of(old(self).root(), manifests(), name@),
                    reference@,
                ) is Some
                &&& final(self).tree() == deleted(
                    old(self).tree(),
                    dir_of(old(self).root(), manifests(), name@),
                    reference@,
                )
            },
    ;
}

/// All that is left of an open blob, read chunk by chunk.
pub fn read_to_end<S: Storage>(storage: &S, reader: &mut LayerReader) -> (r: Result<
    Vec<u8>,
    StorageError,
>)
    ensures
        final(reader).key == old(reader).key,
        final(reader).size == old(reader).size,
        r matches Err(e) ==> {
            ||| e == StorageError::BackendUnavailable && !storage.reliable()
            ||| e == StorageError::NotFound && !(blob(storage.tree(), old(reader).key@)
                matches Some(bytes) && bytes.len() == old(reader).size)
        },
        r matches Ok(rest) ==> {
            ||| old(reader).offset >= old(reader).size && rest@.len() == 0 && final(reader).offset
                == old(reader).offset
            ||| blob(storage.tree(), old(reader).key@) matches Some(bytes) && bytes.len() == old(
                reader,
            ).size && rest@ == bytes.subrange(old(reader).offset as int, bytes.len() as int)
                && final(reader).offset == old(reader).size
        },
{
    let mut out: Vec<u8> = Vec::new();
    let ghost start = reader.offset;
    if reader.offset >= reader.size {
        return Ok(out);
    }
    loop
        invariant
            reader.key == old(reader).key,
            reader.size == old(reader).size,
            start == old(reader).offset,
            start <= reader.offset <= reader.size,
            start < reader.size,
            reader.offset > start ==> (blob(storage.tree(), reader.key@) matches Some(bytes)
                && bytes.len() == reader.size && out@ == bytes.subrange(
                start as int,
                reader.offset as int,
            )),
            reader.offset == start ==> out@.len() == 0,
        decreases reader.size - reader.offset,
    {
        let ghost before = reader.offset;
        let ghost sofar = out@;
        match storage.read_layer(reader, 65536) {
            Err(e) => {
                return Err(e);
            },
            Ok(None) => {
                return Ok(out);
            },
            Ok(Some(chunk)) => {
                super::memory::extend_bytes(&mut out, chunk.as_slice());
                proof {
                    let bytes = blob(storage.tree(), reader.key@)->0;
                    assert(sofar + chunk@ =~= bytes.subrange(start as int, reader.offset as int));
                }
            },
        }
    }
}

} // verus!
