//! The durable medium under the engine: a finite map from keys to files
//! and links. A local file system and an object store both fit it; the
//! engine is written against this interface alone.
//!
//! An object store has no cheap way to grow an object: there `append` is
//! built from what the store offers, such as a multipart upload whose
//! first part the store copies from the object itself. The engine appends
//! chunk by chunk and never holds a whole session in memory.

use vstd::prelude::*;

verus! {

/// What one key of a medium holds.
pub enum Entry {
    /// A file and its bytes.
    File(Seq<u8>),
    /// A pointer record that names another key.
    Link(Seq<char>),
}

/// The whole content of a medium.
pub type Tree = Map<Seq<char>, Entry>;

/// Whether `key` holds a file.
pub open spec fn is_file(tree: Tree, key: Seq<char>) -> bool {
    tree.contains_key(key) && tree[key] is File
}

/// The bytes of the file at `key`.
pub open spec fn file_bytes(tree: Tree, key: Seq<char>) -> Seq<u8>
    recommends
        is_file(tree, key),
{
    tree[key]->File_0
}

/// At most `max` bytes of `bytes`, from `offset` on.
pub open spec fn window(bytes: Seq<u8>, offset: int, max: int) -> Seq<u8>
    recommends
        0 <= offset <= bytes.len(),
        0 <= max,
{
    bytes.subrange(
        offset,
        if offset + max <= bytes.len() {
            offset + max
        } else {
            bytes.len() as int
        },
    )
}

/// Whether `after` is what an interrupted append of `data` at `key` may
/// leave of `before`: the file at `key` holds what it held and then some
/// front part of `data`, and no other key has changed. Where `key` held
/// no file, nothing has changed.
pub open spec fn grown_in_part(before: Tree, after: Tree, key: Seq<char>, data: Seq<u8>) -> bool {
    if is_file(before, key) {
        &&& is_file(after, key)
        &&& after == before.insert(key, after[key])
        &&& file_bytes(before, key).is_prefix_of(file_bytes(after, key))
        &&& file_bytes(after, key).is_prefix_of(file_bytes(before, key) + data)
    } else {
        after == before
    }
}

/// What a look at one key found.
#[derive(Debug, Clone)]
pub enum Probe {
    /// Nothing is stored under the key.
    Absent,
    /// A file of `size` bytes.
    File { size: u64 },
    /// A link to `target`.
    Link { target: String },
}

/// Whether `probe` describes what `tree` holds under `key`.
pub open spec fn probe_agrees(tree: Tree, key: Seq<char>, probe: Probe) -> bool {
    match probe {
        Probe::Absent => !tree.contains_key(key),
        Probe::File { size } => is_file(tree, key) && file_bytes(tree, key).len() == size,
        Probe::Link { target } => tree.contains_key(key) && tree[key] == Entry::Link(target@),
    }
}

/// The medium failed, whatever was asked of it.
#[derive(Debug, Clone, Copy)]
pub struct Fault;

/// A durable key-value medium with files and links: what an object store
/// offers.
///
/// Every operation may fail with a [`Fault`] on a medium that is not
/// `reliable`; on a reliable one none does. An operation that changes the
/// medium is one step: where it fails, it has taken place as a whole or
/// not at all, and no reader finds a key half written. The one exception
/// is `append`, which may leave a front part of what it was to append.
pub trait Medium: Sized {
    /// What the medium holds.
    spec fn tree(&self) -> Tree;

    /// Whether the medium never fails.
    spec fn reliable(&self) -> bool;

    /// Looks at one key without following links.
    fn probe(&self, key: &String) -> (r: Result<Probe, Fault>)
        ensures
            r is Err ==> !self.reliable(),
            r matches Ok(p) ==> probe_agrees(self.tree(), key@, p),
    ;

    /// The bytes of the file at `key`; `None` where the key holds no file.
    fn read(&self, key: &String) -> (r: Result<Option<Vec<u8>>, Fault>)
        ensures
            r is Err ==> !self.reliable(),
            r matches Ok(Some(bytes)) ==> is_file(self.tree(), key@) && bytes@ == file_bytes(
                self.tree(),
                key@,
            ),
            r matches Ok(None) ==> !is_file(self.tree(), key@),
    ;

    /// At most `max` bytes of the file at `key`, from `offset` on; `None`
    /// where the key holds no file or the file ends before `offset`.
    fn read_at(&self, key: &String, offset: u64, max: usize) -> (r: Result<Option<Vec<u8>>, Fault>)
        ensures
            r is Err ==> !self.reliable(),
            r matches Ok(Some(chunk)) ==> {
                &&& is_file(self.tree(), key@)
                &&& offset <= file_bytes(self.tree(), key@).len()
                &&& chunk@ == window(file_bytes(self.tree(), key@), offset as int, max as int)
            },
            r matches Ok(None) ==> !is_file(self.tree(), key@) || offset > file_bytes(
                self.tree(),
                key@,
            ).len(),
    ;

    /// Stores `data` as the file at `key`, in place of whatever was there.
    /// A failed write has left the medium as it was, or has taken place.
    fn write(&mut self, key: &String, data: &[u8]) -> (r: Result<(), Fault>)
        ensures
            final(self).reliable() == old(self).reliable(),
            r is Err ==> !old(self).reliable(),
            r is Ok ==> final(self).tree() == old(self).tree().insert(key@, Entry::File(data@)),
            r is Err ==> final(self).tree() == old(self).tree() || final(self).tree() == old(
                self,
            ).tree().insert(key@, Entry::File(data@)),
    ;

    /// Appends `data` to the file at `key` and returns its new size; leaves
    /// the medium as it is and returns `None` where the key holds no file.
    /// A failed append has kept what the file held, and may have added a
    /// front part of `data` to it.
    fn append(&mut self, key: &String, data: &[u8]) -> (r: Result<Option<u64>, Fault>)
        ensures
            final(self).reliable() == old(self).reliable(),
            r is Err ==> !old(self).reliable(),
            r matches Ok(Some(size)) ==> {
                &&& is_file(old(self).tree(), key@)
                &&& size == file_bytes(old(self).tree(), key@).len() + data@.len()
                &&& final(self).tree() == old(self).tree().insert(
                    key@,
                    Entry::File(file_bytes(old(self).tree(), key@) + data@),
                )
            },
            r matches Ok(None) ==> !is_file(old(self).tree(), key@) && final(self).tree() == old(
                self,
            ).tree(),
            r is Err ==> grown_in_part(old(self).tree(), final(self).tree(), key@, data@),
    ;

    /// Copies what `from` holds to `to`, in place of whatever was there;
    /// leaves the medium as it is and returns `false` where `from` holds
    /// nothing. A failed copy has left the medium as it was, or has taken
    /// place: `to` never holds a part of what `from` holds.
    fn copy(&mut self, from: &String, to: &String) -> (r: Result<bool, Fault>)
        ensures
            final(self).reliable() == old(self).reliable(),
            r is Err ==> !old(self).reliable(),
            r matches Ok(copied) ==> copied == old(self).tree().contains_key(from@),
            r matches Ok(true) ==> final(self).tree() == old(self).tree().insert(
                to@,
                old(self).tree()[from@],
            ),
            r matches Ok(false) ==> final(self).tree() == old(self).tree(),
            r is Err ==> final(self).tree() == old(self).tree() || (old(self).tree().contains_key(
                from@,
            ) && final(self).tree() == old(self).tree().insert(to@, old(self).tree()[from@])),
    ;

    /// Removes what `key` holds, if anything; links are not followed. A
    /// failed removal has left the medium as it was, or has taken place.
    fn remove(&mut self, key: &String) -> (r: Result<(), Fault>)
        ensures
            final(self).reliable() == old(self).reliable(),
            r is Err ==> !old(self).reliable(),
            r is Ok ==> final(self).tree() == old(self).tree().remove(key@),
            r is Err ==> final(self).tree() == old(self).tree() || final(self).tree() == old(
                self,
            ).tree().remove(key@),
    ;

    /// Stores at `alias` a link that names `target`, in place of whatever
    /// was there. A failed link has left the medium as it was, or has
    /// taken place.
    fn link(&mut self, alias: &String, target: &String) -> (r: Result<(), Fault>)
        ensures
            final(self).reliable() == old(self).reliable(),
            r is Err ==> !old(self).reliable(),
            r is Ok ==> final(self).tree() == old(self).tree().insert(
                alias@,
                Entry::Link(target@),
            ),
            r is Err ==> final(self).tree() == old(self).tree() || final(self).tree() == old(
                self,
            ).tree().insert(alias@, Entry::Link(target@)),
    ;
}

/// A medium that can also move an entry in one step, as a file system
/// can.
pub trait FileMedium: Medium {
    /// Moves what `from` holds to `to`, in place of whatever was there, in
    /// one step; leaves the medium as it is and returns `false` where
    /// `from` holds nothing. A failed move has left the medium as it was.
    fn rename(&mut self, from: &String, to: &String) -> (r: Result<bool, Fault>)
        ensures
            final(self).reliable() == old(self).reliable(),
            r is Err ==> !old(self).reliable(),
            r matches Ok(moved) ==> moved == old(self).tree().contains_key(from@),
            r matches Ok(true) ==> final(self).tree() == old(self).tree().remove(from@).insert(
                to@,
                old(self).tree()[from@],
            ),
            r matches Ok(false) ==> final(self).tree() == old(self).tree(),
            r is Err ==> final(self).tree() == old(self).tree(),
    ;
}

} // verus!
