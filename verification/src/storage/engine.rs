//! The operations that every backend shares, written against the medium.

use super::base::{
    chunk_views, ImageLayerInfo, LayerReader, ManifestDetails, ManifestSummary, StorageError,
    StoredManifest, UpdateManifestDetails, UploadContainer, UploadStatus,
};
use crate::reader::manifest_of_bytes;
use crate::utils::canonical_bytes;
use super::digest::{digest_bytes, digest_of, is_digest_text, is_sha256_digest, Hasher};
use super::layout::{key_in, layer_key, layers_dir, upload_key, uploads_dir};
use super::medium::{file_bytes, grown_in_part, is_file, window, Entry, Medium, Probe};
use super::memory::copy_bytes;
use super::model::{
    appended, blob, concat_all, delete_interrupted, deleted, followed, is_canonical, opened, put,
    put_interrupted, resolved, unaliased,
};
use super::token::{session_state, state_token};
use vstd::prelude::*;

verus! {

/// The number of bytes that the engine reads from a file at a time.
pub const CHUNK_SIZE: usize = 65536;

/// The byte sequence of optional bytes.
pub open spec fn bytes_of(bytes: Option<Vec<u8>>) -> Option<Seq<u8>> {
    match bytes {
        Some(b) => Some(b@),
        None => None,
    }
}

/// The key of the upload session `uuid` of repository `name`.
pub fn upload_path(root: &String, name: &String, uuid: &String) -> (key: String)
    ensures
        key@ == upload_key(root@, name@, uuid@),
{
    let dir = uploads_dir(root, name);
    key_in(&dir, uuid)
}

/// The key of the blob `digest` of repository `name`.
pub fn layer_path(root: &String, name: &String, digest: &String) -> (key: String)
    ensures
        key@ == layer_key(root@, name@, digest@),
{
    let dir = layers_dir(root, name);
    key_in(&dir, digest)
}

/// The size of a blob, or `None` where the key holds no file.
pub fn blob_info<M: Medium>(medium: &M, key: &String) -> (r: Result<
    Option<ImageLayerInfo>,
    StorageError,
>)
    ensures
        r matches Err(e) ==> e == StorageError::BackendUnavailable && !medium.reliable(),
        r matches Ok(Some(info)) ==> blob(medium.tree(), key@) matches Some(bytes) && info.size
            == bytes.len(),
        r matches Ok(None) ==> blob(medium.tree(), key@) is None,
{
    match medium.probe(key) {
        Err(_) => Err(StorageError::BackendUnavailable),
        Ok(Probe::File { size }) => Ok(Some(ImageLayerInfo { size })),
        Ok(_) => Ok(None),
    }
}

/// Opens the blob at `key` for reading.
pub fn open_blob<M: Medium>(medium: &M, key: String) -> (r: Result<LayerReader, StorageError>)
    ensures
        r matches Err(e) ==> {
            ||| e == StorageError::BackendUnavailable && !medium.reliable()
            ||| e == StorageError::NotFound && blob(medium.tree(), key@) is None
        },
        r matches Ok(reader) ==> {
            &&& reader.key@ == key@
            &&& reader.offset == 0
            &&& blob(medium.tree(), key@) matches Some(bytes) && reader.size == bytes.len()
        },
{
    match medium.probe(&key) {
        Err(_) => Err(StorageError::BackendUnavailable),
        Ok(Probe::File { size }) => Ok(LayerReader { key, offset: 0, size }),
        Ok(_) => Err(StorageError::NotFound),
    }
}

/// The next bytes of an open blob, at most `max` of them: `None` at the
/// end, else a chunk, which is not empty unless `max` is 0.
pub fn next_chunk<M: Medium>(medium: &M, reader: &mut LayerReader, max: usize) -> (r: Result<
    Option<Vec<u8>>,
    StorageError,
>)
    ensures
        final(reader).key == old(reader).key,
        final(reader).size == old(reader).size,
        r matches Err(e) ==> {
            ||| e == StorageError::BackendUnavailable && !medium.reliable()
            ||| e == StorageError::NotFound && !(blob(medium.tree(), old(reader).key@)
                matches Some(bytes) && bytes.len() == old(reader).size)
        },
        r matches Ok(None) ==> old(reader).offset >= old(reader).size && final(reader).offset
            == old(reader).offset,
        r matches Ok(Some(chunk)) ==> {
            &&& old(reader).offset < old(reader).size
            &&& blob(medium.tree(), old(reader).key@) matches Some(bytes) && bytes.len() == old(
                reader,
            ).size && chunk@ == window(bytes, old(reader).offset as int, max as int)
            &&& max > 0 ==> chunk@.len() > 0
            &&& final(reader).offset == old(reader).offset + chunk@.len()
        },
{
    if reader.offset >= reader.size {
        return Ok(None);
    }
    let size = match medium.probe(&reader.key) {
        Err(_) => {
            return Err(StorageError::BackendUnavailable);
        },
        Ok(Probe::File { size }) => size,
        Ok(_) => {
            return Err(StorageError::NotFound);
        },
    };
    if size != reader.size {
        return Err(StorageError::NotFound);
    }
    match medium.read_at(&reader.key, reader.offset, max) {
        Err(_) => Err(StorageError::BackendUnavailable),
        Ok(None) => Err(StorageError::NotFound),
        Ok(Some(chunk)) => {
            reader.offset = reader.offset + chunk.len() as u64;
            Ok(Some(chunk))
        },
    }
}

/// Opens the upload session `uuid` of repository `name`, empty.
pub fn open_session<M: Medium>(
    medium: &mut M,
    root: &String,
    name: String,
    uuid: String,
    created_at: u64,
) -> (r: Result<UploadContainer, StorageError>)
    ensures
        final(medium).reliable() == old(medium).reliable(),
        r matches Err(e) ==> {
            &&& e == StorageError::BackendUnavailable
            &&& !old(medium).reliable()
            &&& final(medium).tree() == old(medium).tree() || final(medium).tree() == opened(
                old(medium).tree(),
                upload_key(root@, name@, uuid@),
            )
        },
        r matches Ok(container) ==> {
            &&& container.uuid@ == uuid@
            &&& container.state@ == state_token(name@, uuid@, created_at)
            &&& container.state@.len() > 0
            &&& final(medium).tree() == opened(old(medium).tree(), upload_key(root@, name@, uuid@))
        },
{
    let key = upload_path(root, &name, &uuid);
    let empty: Vec<u8> = Vec::new();
    assert(empty@ =~= Seq::<u8>::empty());
    match medium.write(&key, empty.as_slice()) {
        Err(_) => Err(StorageError::BackendUnavailable),
        Ok(()) => {
            let state = session_state(&name, &uuid, created_at);
            Ok(UploadContainer { uuid, state })
        },
    }
}

/// Whether `key` holds an upload session.
pub fn session_exists<M: Medium>(medium: &M, key: &String) -> (r: Result<bool, StorageError>)
    ensures
        r matches Err(e) ==> e == StorageError::BackendUnavailable && !medium.reliable(),
        r matches Ok(valid) ==> valid == is_file(medium.tree(), key@),
{
    match medium.probe(key) {
        Err(_) => Err(StorageError::BackendUnavailable),
        Ok(Probe::File { size }) => Ok(true),
        Ok(_) => Ok(false),
    }
}

/// The front part of a sequence of chunks is the front part of their
/// concatenation.
pub proof fn lemma_concat_prefix(chunks: Seq<Seq<u8>>, n: int)
    requires
        0 <= n <= chunks.len(),
    ensures
        concat_all(chunks.take(n)).is_prefix_of(concat_all(chunks)),
    decreases chunks.len(),
{
    if n == chunks.len() {
        assert(chunks.take(n) =~= chunks);
    } else {
        let front = chunks.drop_last();
        lemma_concat_prefix(front, n);
        assert(front.take(n) =~= chunks.take(n));
    }
}

/// Appends `chunks`, in order and one at a time, to the session at `key`,
/// and returns the size that the session has then.
pub fn append_chunks<M: Medium>(medium: &mut M, key: &String, chunks: &Vec<Vec<u8>>) -> (r: Result<
    UploadStatus,
    StorageError,
>)
    ensures
        final(medium).reliable() == old(medium).reliable(),
        r matches Err(e) ==> {
            ||| e == StorageError::BackendUnavailable && !old(medium).reliable() && grown_in_part(
                old(medium).tree(),
                final(medium).tree(),
                key@,
                concat_all(chunk_views(chunks@)),
            )
            ||| e == StorageError::SessionInvalid && !is_file(old(medium).tree(), key@)
                && final(medium).tree() == old(medium).tree()
        },
        r matches Ok(status) ==> {
            let data = concat_all(chunk_views(chunks@));
            &&& is_file(old(medium).tree(), key@)
            &&& final(medium).tree() == appended(old(medium).tree(), key@, data)
            &&& status.size == file_bytes(old(medium).tree(), key@).len() + data.len()
        },
{
    let mut size = match medium.probe(key) {
        Err(_) => {
            proof {
                if is_file(medium.tree(), key@) {
                    let held = file_bytes(medium.tree(), key@);
                    assert(medium.tree() =~= medium.tree().insert(key@, medium.tree()[key@]));
                    assert(held.is_prefix_of(held + concat_all(chunk_views(chunks@))));
                }
            }
            return Err(StorageError::BackendUnavailable);
        },
        Ok(Probe::File { size }) => size,
        Ok(_) => {
            return Err(StorageError::SessionInvalid);
        },
    };
    let ghost before = medium.tree();
    let ghost held = file_bytes(before, key@);
    let ghost parts = chunk_views(chunks@);
    assert(appended(before, key@, concat_all(parts.take(0))) =~= before);
    let mut i: usize = 0;
    while i < chunks.len()
        invariant
            i <= chunks@.len(),
            parts == chunk_views(chunks@),
            medium.reliable() == old(medium).reliable(),
            before == old(medium).tree(),
            is_file(before, key@),
            held == file_bytes(before, key@),
            medium.tree() == appended(before, key@, concat_all(parts.take(i as int))),
            size == held.len() + concat_all(parts.take(i as int)).len(),
        decreases chunks@.len() - i,
    {
        let ghost sofar = concat_all(parts.take(i as int));
        let ghost grown = concat_all(parts.take(i + 1));
        proof {
            assert(parts.take(i + 1).drop_last() =~= parts.take(i as int));
            assert(parts.take(i + 1).last() == chunks@[i as int]@);
            assert(held + sofar + chunks@[i as int]@ =~= held + grown);
        }
        match medium.append(key, chunks[i].as_slice()) {
            Err(_) => {
                proof {
                    let now = file_bytes(medium.tree(), key@);
                    lemma_concat_prefix(parts, i + 1);
                    assert(medium.tree() =~= before.insert(key@, medium.tree()[key@]));
                    assert(held.is_prefix_of(held + sofar));
                    assert(held.is_prefix_of(now));
                    assert((held + grown).is_prefix_of(held + concat_all(parts)));
                    assert(now.is_prefix_of(held + concat_all(parts)));
                }
                return Err(StorageError::BackendUnavailable);
            },
            Ok(None) => {
                assert(false);
                return Err(StorageError::SessionInvalid);
            },
            Ok(Some(total)) => {
                size = total;
            },
        }
        assert(medium.tree() =~= appended(before, key@, grown));
        i += 1;
    }
    assert(parts.take(i as int) =~= parts);
    Ok(UploadStatus { size })
}

/// The digest of the file at `key`, hashed chunk by chunk; `None` where
/// the key holds no file.
pub fn hash_file<M: Medium>(medium: &M, key: &String) -> (r: Result<Option<String>, StorageError>)
    ensures
        r matches Err(e) ==> e == StorageError::BackendUnavailable && !medium.reliable(),
        r matches Ok(Some(digest)) ==> is_file(medium.tree(), key@) && digest@ == digest_of(
            file_bytes(medium.tree(), key@),
        ) && is_digest_text(digest@),
        r matches Ok(None) ==> !is_file(medium.tree(), key@),
{
    let size = match medium.probe(key) {
        Err(_) => {
            return Err(StorageError::BackendUnavailable);
        },
        Ok(Probe::File { size }) => size,
        Ok(_) => {
            return Ok(None);
        },
    };
    let ghost held = file_bytes(medium.tree(), key@);
    let mut hasher = Hasher::new();
    let mut offset: u64 = 0;
    assert(held.subrange(0, 0) =~= hasher@);
    while offset < size
        invariant
            offset <= size,
            size == held.len(),
            is_file(medium.tree(), key@),
            held == file_bytes(medium.tree(), key@),
            hasher@ == held.subrange(0, offset as int),
        decreases size - offset,
    {
        match medium.read_at(key, offset, CHUNK_SIZE) {
            Err(_) => {
                return Err(StorageError::BackendUnavailable);
            },
            Ok(None) => {
                assert(false);
                return Ok(None);
            },
            Ok(Some(chunk)) => {
                hasher.update(chunk.as_slice());
                assert(held.subrange(0, offset as int) + chunk@ =~= held.subrange(
                    0,
                    offset + chunk@.len(),
                ));
                offset = offset + chunk.len() as u64;
            },
        }
    }
    assert(held.subrange(0, offset as int) =~= held);
    Ok(Some(hasher.finalize()))
}

/// Whether a digest is the one that the caller expects, if any.
pub fn digest_expected(expected: &Option<String>, digest: &String) -> (ok: bool)
    ensures
        ok == !(expected matches Some(wanted) && wanted@ != digest@),
{
    match expected {
        Some(wanted) => *wanted == *digest,
        None => true,
    }
}

/// The manifest bytes that `reference` resolves to in the directory
/// `dir`, with their digest.
pub fn read_manifest<M: Medium>(medium: &M, dir: &String, reference: &String) -> (r: Result<
    StoredManifest,
    StorageError,
>)
    ensures
        r matches Err(e) ==> {
            ||| e == StorageError::BackendUnavailable && !medium.reliable()
            ||| e == StorageError::NotFound && resolved(medium.tree(), dir@, reference@) is None
        },
        r matches Ok(stored) ==> {
            &&& resolved(medium.tree(), dir@, reference@) == Some(stored.content@)
            &&& stored.digest@ == digest_of(stored.content@)
            &&& is_digest_text(stored.digest@)
        },
{
    let key = key_in(dir, reference);
    let found = match medium.probe(&key) {
        Err(_) => {
            return Err(StorageError::BackendUnavailable);
        },
        Ok(Probe::Absent) => None,
        Ok(Probe::File { size }) => match medium.read(&key) {
            Err(_) => {
                return Err(StorageError::BackendUnavailable);
            },
            Ok(content) => content,
        },
        Ok(Probe::Link { target }) => match medium.read(&target) {
            Err(_) => {
                return Err(StorageError::BackendUnavailable);
            },
            Ok(content) => content,
        },
    };
    assert(bytes_of(found) == followed(medium.tree(), key@));
    match found {
        None => Err(StorageError::NotFound),
        Some(content) => {
            let digest = digest_bytes(content.as_slice());
            if is_sha256_digest(reference) && !(digest == *reference) {
                Err(StorageError::NotFound)
            } else {
                Ok(StoredManifest { content, digest })
            }
        },
    }
}

/// The manifest that `reference` resolves to in the directory `dir`,
/// with the digest of its canonical bytes.
pub fn get_manifest<M: Medium>(medium: &M, dir: &String, reference: &String) -> (r: Result<
    ManifestDetails,
    StorageError,
>)
    ensures
        r matches Err(e) ==> {
            ||| e == StorageError::BackendUnavailable && !medium.reliable()
            ||| e == StorageError::NotFound && resolved(medium.tree(), dir@, reference@) is None
            ||| e == StorageError::ManifestInvalid && (resolved(medium.tree(), dir@, reference@)
                matches Some(content) && !is_canonical(content))
        },
        r matches Ok(details) ==> {
            &&& resolved(medium.tree(), dir@, reference@) == Some(
                canonical_bytes(details.manifest),
            )
            &&& details.digest@ == digest_of(canonical_bytes(details.manifest))
            &&& is_digest_text(details.digest@)
        },
{
    match read_manifest(medium, dir, reference) {
        Err(e) => Err(e),
        Ok(stored) => match manifest_of_bytes(stored.content) {
            Err(e) => Err(e),
            Ok(manifest) => Ok(ManifestDetails { manifest, digest: stored.digest }),
        },
    }
}

/// Digest and size of the manifest that `reference` resolves to in the
/// directory `dir`.
pub fn manifest_summary<M: Medium>(medium: &M, dir: &String, reference: &String) -> (r: Result<
    ManifestSummary,
    StorageError,
>)
    ensures
        r matches Err(e) ==> {
            ||| e == StorageError::BackendUnavailable && !medium.reliable()
            ||| e == StorageError::NotFound && resolved(medium.tree(), dir@, reference@) is None
        },
        r matches Ok(summary) ==> resolved(medium.tree(), dir@, reference@) matches Some(content)
            && summary.digest@ == digest_of(content) && summary.size == content.len(),
{
    match read_manifest(medium, dir, reference) {
        Err(e) => Err(e),
        Ok(stored) => Ok(
            ManifestSummary { digest: stored.digest, size: stored.content.len() as u64 },
        ),
    }
}

/// Puts `content` under `reference` in the directory `dir`, where it is
/// the canonical form of a manifest; other bytes are refused, and the
/// store is left as it is.
pub fn store_manifest<M: Medium>(
    medium: &mut M,
    dir: &String,
    reference: &String,
    content: &[u8],
) -> (r: Result<UpdateManifestDetails, StorageError>)
    ensures
        final(medium).reliable() == old(medium).reliable(),
        r matches Err(e) ==> {
            ||| e == StorageError::BackendUnavailable && !old(medium).reliable() && is_canonical(
                content@,
            ) && put_interrupted(old(medium).tree(), final(medium).tree(), dir@, reference@, content@)
            ||| e == StorageError::ManifestInvalid && !is_canonical(content@) && final(medium).tree()
                == old(medium).tree()
        },
        r matches Ok(details) ==> {
            &&& is_canonical(content@)
            &&& details.digest@ == digest_of(content@)
            &&& is_digest_text(details.digest@)
            &&& final(medium).tree() == put(old(medium).tree(), dir@, reference@, content@)
        },
{
    match manifest_of_bytes(copy_bytes(content)) {
        Err(e) => Err(e),
        Ok(manifest) => {
            assert(canonical_bytes(manifest) == content@);
            put_manifest(medium, dir, reference, content)
        },
    }
}

/// Puts `content` under `reference` in the directory `dir`, whatever the
/// bytes are: the old alias goes, the primary copy is written, the new
/// alias is made.
pub fn put_manifest<M: Medium>(
    medium: &mut M,
    dir: &String,
    reference: &String,
    content: &[u8],
) -> (r: Result<UpdateManifestDetails, StorageError>)
    ensures
        final(medium).reliable() == old(medium).reliable(),
        r matches Err(e) ==> {
            &&& e == StorageError::BackendUnavailable
            &&& !old(medium).reliable()
            &&& put_interrupted(
                old(medium).tree(),
                final(medium).tree(),
                dir@,
                reference@,
                content@,
            )
        },
        r matches Ok(details) ==> {
            &&& details.digest@ == digest_of(content@)
            &&& is_digest_text(details.digest@)
            &&& final(medium).tree() == put(old(medium).tree(), dir@, reference@, content@)
        },
{
    let primary = key_in(dir, reference);
    let ghost before = medium.tree();
    let ghost bare = unaliased(before, dir@, reference@);
    match medium.read(&primary) {
        Err(_) => {
            return Err(StorageError::BackendUnavailable);
        },
        Ok(None) => {},
        Ok(Some(held)) => {
            let stale = key_in(dir, &digest_bytes(held.as_slice()));
            match medium.probe(&stale) {
                Err(_) => {
                    return Err(StorageError::BackendUnavailable);
                },
                Ok(Probe::Link { target }) => {
                    if target == primary {
                        match medium.remove(&stale) {
                            Err(_) => {
                                return Err(StorageError::BackendUnavailable);
                            },
                            Ok(()) => {},
                        }
                    }
                },
                Ok(_) => {},
            }
        },
    }
    assert(medium.tree() == bare);
    let ghost written = bare.insert(primary@, Entry::File(content@));
    match medium.write(&primary, content) {
        Err(_) => {
            return Err(StorageError::BackendUnavailable);
        },
        Ok(()) => {},
    }
    let digest = digest_bytes(content);
    let alias = key_in(dir, &digest);
    if !(alias == primary) {
        match medium.link(&alias, &primary) {
            Err(_) => {
                return Err(StorageError::BackendUnavailable);
            },
            Ok(()) => {},
        }
    }
    Ok(UpdateManifestDetails { digest })
}

/// Deletes what `reference` holds in the directory `dir`.
pub fn delete_manifest<M: Medium>(medium: &mut M, dir: &String, reference: &String) -> (r: Result<
    (),
    StorageError,
>)
    ensures
        final(medium).reliable() == old(medium).reliable(),
        r matches Err(e) ==> {
            ||| e == StorageError::BackendUnavailable && !old(medium).reliable()
                && delete_interrupted(old(medium).tree(), final(medium).tree(), dir@, reference@)
            ||| e == StorageError::NotFound && resolved(old(medium).tree(), dir@, reference@)
                is None && final(medium).tree() == old(medium).tree()
        },
        r is Ok ==> {
            &&& resolved(old(medium).tree(), dir@, reference@) is Some
            &&& final(medium).tree() == deleted(old(medium).tree(), dir@, reference@)
        },
{
    let key = key_in(dir, reference);
    match read_manifest(medium, dir, reference) {
        Err(e) => Err(e),
        Ok(_) => match medium.remove(&key) {
            Err(_) => Err(StorageError::BackendUnavailable),
            Ok(()) => Ok(()),
        },
    }
}

} // verus!
