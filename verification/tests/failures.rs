use std::cell::Cell;

use rustgistry::storage::base::read_to_end;
use rustgistry::storage::digest::digest_bytes;
use rustgistry::storage::medium::{Fault, FileMedium, Medium, Probe, Tree};
use rustgistry::storage::memory::MemoryMedium;
use rustgistry::storage::types::manifest::{LayerEntry, Manifest, ManifestConfig};
use rustgistry::storage::{LocalStorage, S3Storage, Storage, StorageError};
use rustgistry::utils::to_json_normalized;

/// The operations of a medium.
#[derive(Debug, Clone, Copy, PartialEq, Eq)]
enum Op {
    Probe,
    ReadAt,
    Write,
    Append,
    Copy,
    Remove,
    Link,
    Rename,
}

/// How a step fails.
#[derive(Debug, Clone, Copy, PartialEq, Eq)]
enum How {
    /// Nothing was done.
    Undone,
    /// The step took place, and the answer was lost.
    Done,
    /// Of an append, the front half took place.
    Half,
}

/// A medium in memory that fails once: at the step `op`, after `skip`
/// such steps went well.
struct Flaky {
    inner: MemoryMedium,
    op: Op,
    skip: Cell<usize>,
    how: How,
    spent: Cell<bool>,
}

impl Flaky {
    fn new(op: Op, skip: usize, how: How) -> Flaky {
        Flaky { inner: MemoryMedium::new(), op, skip: Cell::new(skip), how, spent: Cell::new(false) }
    }

    fn fails(&self, op: Op) -> bool {
        if self.spent.get() || op != self.op {
            return false;
        }
        if self.skip.get() > 0 {
            self.skip.set(self.skip.get() - 1);
            return false;
        }
        self.spent.set(true);
        true
    }
}

impl Medium for Flaky {
    fn tree(&self) -> Tree {
        unreachable!()
    }

    fn reliable(&self) -> bool {
        unreachable!()
    }

    fn probe(&self, key: &String) -> Result<Probe, Fault> {
        if self.fails(Op::Probe) {
            return Err(Fault);
        }
        self.inner.probe(key)
    }

    fn read(&self, key: &String) -> Result<Option<Vec<u8>>, Fault> {
        self.inner.read(key)
    }

    fn read_at(&self, key: &String, offset: u64, max: usize) -> Result<Option<Vec<u8>>, Fault> {
        if self.fails(Op::ReadAt) {
            return Err(Fault);
        }
        self.inner.read_at(key, offset, max)
    }

    fn write(&mut self, key: &String, data: &[u8]) -> Result<(), Fault> {
        if self.fails(Op::Write) {
            if self.how == How::Done {
                self.inner.write(key, data)?;
            }
            return Err(Fault);
        }
        self.inner.write(key, data)
    }

    fn append(&mut self, key: &String, data: &[u8]) -> Result<Option<u64>, Fault> {
        if self.fails(Op::Append) {
            match self.how {
                How::Undone => {}
                How::Done => {
                    self.inner.append(key, data)?;
                }
                How::Half => {
                    self.inner.append(key, &data[..data.len() / 2])?;
                }
            }
            return Err(Fault);
        }
        self.inner.append(key, data)
    }

    fn copy(&mut self, from: &String, to: &String) -> Result<bool, Fault> {
        if self.fails(Op::Copy) {
            if self.how == How::Done {
                self.inner.copy(from, to)?;
            }
            return Err(Fault);
        }
        self.inner.copy(from, to)
    }

    fn remove(&mut self, key: &String) -> Result<(), Fault> {
        if self.fails(Op::Remove) {
            if self.how == How::Done {
                self.inner.remove(key)?;
            }
            return Err(Fault);
        }
        self.inner.remove(key)
    }

    fn link(&mut self, alias: &String, target: &String) -> Result<(), Fault> {
        if self.fails(Op::Link) {
            if self.how == How::Done {
                self.inner.link(alias, target)?;
            }
            return Err(Fault);
        }
        self.inner.link(alias, target)
    }
}

impl FileMedium for Flaky {
    fn rename(&mut self, from: &String, to: &String) -> Result<bool, Fault> {
        if self.fails(Op::Rename) {
            return Err(Fault);
        }
        self.inner.rename(from, to)
    }
}

fn on_bucket(op: Op, skip: usize, how: How) -> S3Storage<Flaky> {
    S3Storage::new("bucket".to_string(), Flaky::new(op, skip, how))
}

fn on_disk(op: Op, skip: usize, how: How) -> LocalStorage<Flaky> {
    LocalStorage::new("/srv".to_string(), Flaky::new(op, skip, how))
}

fn session<S: Storage>(s: &mut S, content: &[u8]) -> String {
    let c = s.open_upload_container("demo".to_string(), "one".to_string(), 0).unwrap();
    s.write_upload_container("demo".to_string(), c.uuid.clone(), &vec![content.to_vec()], (0, 0)).unwrap();
    c.uuid
}

fn blob_of<S: Storage>(s: &S, digest: &str) -> Option<Vec<u8>> {
    match s.get_layer("demo".to_string(), digest.to_string()) {
        Err(e) => {
            assert_eq!(e, StorageError::NotFound);
            None
        }
        Ok(mut reader) => Some(read_to_end(s, &mut reader).unwrap()),
    }
}

fn manifest(layers: u32) -> Manifest {
    Manifest {
        schema_version: 2,
        media_type: "application/vnd.docker.distribution.manifest.v2+json".to_string(),
        config: ManifestConfig {
            media_type: "application/vnd.docker.container.image.v1+json".to_string(),
            size: 7023,
            digest: format!("sha256:{}", "a".repeat(64)),
        },
        manifests: None,
        layers: Some(
            (0..layers)
                .map(|i| LayerEntry {
                    media_type: "application/vnd.docker.image.rootfs.diff.tar.gzip".to_string(),
                    size: 100 + i,
                    digest: format!("sha256:{}", "b".repeat(64)),
                })
                .collect(),
        ),
    }
}

fn canonical(m: &Manifest) -> Vec<u8> {
    to_json_normalized(m).unwrap().into_bytes()
}

#[test]
fn failed_copy_keeps_the_session() {
    let mut s = on_bucket(Op::Copy, 0, How::Undone);
    let content = vec![1u8, 2, 3];
    let digest = digest_bytes(&content);
    let uuid = session(&mut s, &content);
    assert_eq!(
        s.close_upload_container("demo".to_string(), uuid.clone(), None).unwrap_err(),
        StorageError::BackendUnavailable
    );
    assert!(s.check_upload_container_validity("demo".to_string(), uuid.clone()).unwrap());
    assert_eq!(blob_of(&s, &digest), None);
    assert_eq!(s.medium.inner.len(), 1);
    assert_eq!(s.close_upload_container("demo".to_string(), uuid.clone(), None).unwrap().digest, digest);
    assert_eq!(blob_of(&s, &digest), Some(content));
    assert!(!s.check_upload_container_validity("demo".to_string(), uuid).unwrap());
}

#[test]
fn copy_that_lost_its_answer_leaves_blob_and_session() {
    let mut s = on_bucket(Op::Copy, 0, How::Done);
    let content = vec![9u8; 70000];
    let digest = digest_bytes(&content);
    let uuid = session(&mut s, &content);
    assert_eq!(
        s.close_upload_container("demo".to_string(), uuid.clone(), None).unwrap_err(),
        StorageError::BackendUnavailable
    );
    assert!(s.check_upload_container_validity("demo".to_string(), uuid.clone()).unwrap());
    assert_eq!(blob_of(&s, &digest), Some(content));
    assert_eq!(s.close_upload_container("demo".to_string(), uuid, None).unwrap().digest, digest);
    assert_eq!(s.medium.inner.len(), 1);
}

#[test]
fn failed_removal_comes_after_the_copy() {
    for how in [How::Undone, How::Done] {
        let mut s = on_bucket(Op::Remove, 0, how);
        let content = vec![4u8, 5];
        let digest = digest_bytes(&content);
        let uuid = session(&mut s, &content);
        assert_eq!(
            s.close_upload_container("demo".to_string(), uuid.clone(), None).unwrap_err(),
            StorageError::BackendUnavailable
        );
        assert_eq!(blob_of(&s, &digest), Some(content));
        let left = s.check_upload_container_validity("demo".to_string(), uuid).unwrap();
        assert_eq!(left, how == How::Undone);
    }
}

#[test]
fn failed_read_while_hashing_changes_nothing() {
    let content = vec![7u8; 150000];
    let front = digest_bytes(&content[..65536]);
    let digest = digest_bytes(&content);
    let mut disk = on_disk(Op::ReadAt, 1, How::Undone);
    let uuid = session(&mut disk, &content);
    assert_eq!(
        disk.close_upload_container("demo".to_string(), uuid.clone(), None).unwrap_err(),
        StorageError::BackendUnavailable
    );
    assert!(disk.check_upload_container_validity("demo".to_string(), uuid.clone()).unwrap());
    assert_eq!(blob_of(&disk, &front), None);
    assert_eq!(blob_of(&disk, &digest), None);
    assert_eq!(disk.medium.inner.len(), 1);
    assert_eq!(disk.close_upload_container("demo".to_string(), uuid, None).unwrap().digest, digest);

    let mut bucket = on_bucket(Op::ReadAt, 1, How::Undone);
    let uuid = session(&mut bucket, &content);
    assert_eq!(
        bucket.close_upload_container("demo".to_string(), uuid.clone(), None).unwrap_err(),
        StorageError::BackendUnavailable
    );
    assert!(bucket.check_upload_container_validity("demo".to_string(), uuid).unwrap());
    assert_eq!(blob_of(&bucket, &front), None);
    assert_eq!(bucket.medium.inner.len(), 1);
}

#[test]
fn failed_move_changes_nothing() {
    let mut s = on_disk(Op::Rename, 0, How::Undone);
    let content = vec![1u8, 2, 3];
    let digest = digest_bytes(&content);
    let uuid = session(&mut s, &content);
    assert_eq!(
        s.close_upload_container("demo".to_string(), uuid.clone(), Some(digest.clone())).unwrap_err(),
        StorageError::BackendUnavailable
    );
    assert!(s.check_upload_container_validity("demo".to_string(), uuid.clone()).unwrap());
    assert_eq!(blob_of(&s, &digest), None);
    assert_eq!(s.close_upload_container("demo".to_string(), uuid, Some(digest.clone())).unwrap().digest, digest);
    assert_eq!(blob_of(&s, &digest), Some(content));
}

#[test]
fn interrupted_append_keeps_what_was_received() {
    for (how, kept) in [(How::Undone, 3usize), (How::Half, 5), (How::Done, 7)] {
        let mut s = on_disk(Op::Append, 2, how);
        let uuid = session(&mut s, &[1, 2]);
        let chunks = vec![vec![3u8], vec![4u8, 5, 6, 7], vec![8u8]];
        assert_eq!(
            s.write_upload_container("demo".to_string(), uuid.clone(), &chunks, (0, 0)).unwrap_err(),
            StorageError::BackendUnavailable
        );
        let all = [1u8, 2, 3, 4, 5, 6, 7, 8];
        let digest = s.close_upload_container("demo".to_string(), uuid, None).unwrap().digest;
        assert_eq!(digest, digest_bytes(&all[..kept]));
        assert_eq!(blob_of(&s, &digest), Some(all[..kept].to_vec()));
    }
}

#[test]
fn failed_probe_before_an_append_changes_nothing() {
    let mut s = on_bucket(Op::Probe, 0, How::Undone);
    let uuid = session_after_probe(&mut s);
    assert_eq!(s.medium.inner.len(), 1);
    let d = s.close_upload_container("demo".to_string(), uuid, None).unwrap().digest;
    assert_eq!(d, digest_bytes(&[]));
}

fn session_after_probe(s: &mut S3Storage<Flaky>) -> String {
    let c = s.open_upload_container("demo".to_string(), "one".to_string(), 0).unwrap();
    assert_eq!(
        s.write_upload_container("demo".to_string(), c.uuid.clone(), &vec![vec![1u8]], (0, 0)).unwrap_err(),
        StorageError::BackendUnavailable
    );
    c.uuid
}

#[test]
fn failed_open_leaves_a_session_or_nothing() {
    for how in [How::Undone, How::Done] {
        let mut s = on_disk(Op::Write, 0, how);
        assert_eq!(
            s.open_upload_container("demo".to_string(), "one".to_string(), 0).unwrap_err(),
            StorageError::BackendUnavailable
        );
        let there = s.check_upload_container_validity("demo".to_string(), "one".to_string()).unwrap();
        assert_eq!(there, how == How::Done);
        assert_eq!(s.medium.inner.len(), if there { 1 } else { 0 });
    }
}

#[test]
fn interrupted_put_shows_the_old_manifest_or_the_new() {
    let old = canonical(&manifest(1));
    let new = canonical(&manifest(2));
    let (d_old, d_new) = (digest_bytes(&old), digest_bytes(&new));
    let read = |s: &LocalStorage<Flaky>, r: &str| {
        s.read_manifest("repo".to_string(), r.to_string()).map(|m| m.content)
    };
    let gone = Err(StorageError::NotFound);

    // the removal of the old alias fails
    let mut s = on_disk(Op::Remove, 0, How::Undone);
    s.update_manifest("repo".to_string(), "latest".to_string(), manifest(1)).unwrap();
    assert_eq!(
        s.update_manifest("repo".to_string(), "latest".to_string(), manifest(2)).unwrap_err(),
        StorageError::BackendUnavailable
    );
    assert_eq!(read(&s, "latest"), Ok(old.clone()));
    assert_eq!(read(&s, &d_old), Ok(old.clone()));
    assert_eq!(read(&s, &d_new), gone);

    // the write of the primary copy fails
    let mut s = on_disk(Op::Write, 1, How::Undone);
    s.update_manifest("repo".to_string(), "latest".to_string(), manifest(1)).unwrap();
    assert_eq!(
        s.update_manifest("repo".to_string(), "latest".to_string(), manifest(2)).unwrap_err(),
        StorageError::BackendUnavailable
    );
    assert_eq!(read(&s, "latest"), Ok(old.clone()));
    assert_eq!(read(&s, &d_old), gone);
    assert_eq!(read(&s, &d_new), gone);

    // the new alias fails
    let mut s = on_disk(Op::Link, 1, How::Undone);
    s.update_manifest("repo".to_string(), "latest".to_string(), manifest(1)).unwrap();
    assert_eq!(
        s.update_manifest("repo".to_string(), "latest".to_string(), manifest(2)).unwrap_err(),
        StorageError::BackendUnavailable
    );
    assert_eq!(read(&s, "latest"), Ok(new.clone()));
    assert_eq!(read(&s, &d_old), gone);
    assert_eq!(read(&s, &d_new), gone);

    // a second try completes the put
    assert_eq!(s.update_manifest("repo".to_string(), "latest".to_string(), manifest(2)).unwrap().digest, d_new);
    assert_eq!(read(&s, &d_new), Ok(new));
}

#[test]
fn failed_delete_leaves_the_manifest_or_removes_it() {
    for how in [How::Undone, How::Done] {
        let mut s = on_bucket(Op::Remove, 0, how);
        let d = s.update_manifest("repo".to_string(), "v1".to_string(), manifest(1)).unwrap().digest;
        assert_eq!(
            s.delete_manifest("repo".to_string(), "v1".to_string()).unwrap_err(),
            StorageError::BackendUnavailable
        );
        let by_tag = s.read_manifest("repo".to_string(), "v1".to_string());
        let by_digest = s.read_manifest("repo".to_string(), d);
        assert_eq!(by_tag.is_ok(), how == How::Undone);
        assert_eq!(by_digest.is_ok(), how == How::Undone);
    }
}
