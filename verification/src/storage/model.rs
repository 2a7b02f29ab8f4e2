//! What each storage operation does to the content of a medium, as
//! functions on trees.

use super::base::StorageError;
use super::digest::{digest_of, is_digest_text};
use super::medium::{file_bytes, is_file, Entry, Tree};
use super::types::manifest::Manifest;
use crate::utils::canonical_bytes;
use vstd::prelude::*;

verus! {

/// The tree after a session was opened at `upload`: an empty file there.
pub open spec fn opened(tree: Tree, upload: Seq<char>) -> Tree {
    tree.insert(upload, Entry::File(Seq::empty()))
}

/// The tree after `data` was appended to the session at `upload`; a
/// session that does not exist leaves the tree as it is.
pub open spec fn appended(tree: Tree, upload: Seq<char>, data: Seq<u8>) -> Tree {
    if is_file(tree, upload) {
        tree.insert(upload, Entry::File(file_bytes(tree, upload) + data))
    } else {
        tree
    }
}

/// All chunks of a sequence, one after the other.
pub open spec fn concat_all(chunks: Seq<Seq<u8>>) -> Seq<u8>
    decreases chunks.len(),
{
    if chunks.len() == 0 {
        Seq::empty()
    } else {
        concat_all(chunks.drop_last()) + chunks.last()
    }
}

/// How finalizing the session at `upload` ends: with the digest of what
/// the session holds, or with the reason why nothing is stored.
pub open spec fn finalize_verdict(
    tree: Tree,
    upload: Seq<char>,
    expected: Option<Seq<char>>,
) -> Result<Seq<char>, StorageError> {
    if !is_file(tree, upload) {
        Err(StorageError::SessionInvalid)
    } else {
        let digest = digest_of(file_bytes(tree, upload));
        if expected is Some && expected->0 != digest {
            Err(StorageError::DigestMismatch)
        } else {
            Ok(digest)
        }
    }
}

/// The tree after finalizing the session at `upload`: on success the
/// session is gone and its bytes are the blob under their digest in
/// `blobs`; on failure the tree is as it was.
pub open spec fn finalized(
    tree: Tree,
    upload: Seq<char>,
    blobs: Seq<char>,
    expected: Option<Seq<char>>,
) -> Tree {
    match finalize_verdict(tree, upload, expected) {
        Ok(digest) => tree.remove(upload).insert(blobs + digest, tree[upload]),
        Err(_) => tree,
    }
}

/// Whether `after` is what an interrupted finalization of the session at
/// `upload` may leave of `before`. Nothing has changed; or the session's
/// bytes are the blob under their digest and the session is still there;
/// or the finalization took place. The last two come only where the
/// verdict was to store: under a digest that was not expected nothing
/// appears.
pub open spec fn finalize_interrupted(
    before: Tree,
    after: Tree,
    upload: Seq<char>,
    blobs: Seq<char>,
    expected: Option<Seq<char>>,
) -> bool {
    ||| after == before
    ||| finalize_verdict(before, upload, expected) matches Ok(digest) && (after == before.insert(
        blobs + digest,
        before[upload],
    ) || after == finalized(before, upload, blobs, expected))
}

/// The bytes of the blob at `key`, if there is one.
pub open spec fn blob(tree: Tree, key: Seq<char>) -> Option<Seq<u8>> {
    if is_file(tree, key) {
        Some(file_bytes(tree, key))
    } else {
        None
    }
}

/// The bytes that `key` leads to: those of the file there, or of the file
/// that the link there names.
pub open spec fn followed(tree: Tree, key: Seq<char>) -> Option<Seq<u8>> {
    if !tree.contains_key(key) {
        None
    } else {
        match tree[key] {
            Entry::File(bytes) => Some(bytes),
            Entry::Link(target) => blob(tree, target),
        }
    }
}

/// The manifest bytes that `reference` resolves to in the directory
/// `dir`. A reference of digest form resolves only to bytes that hash to
/// it.
pub open spec fn resolved(tree: Tree, dir: Seq<char>, reference: Seq<char>) -> Option<Seq<u8>> {
    match followed(tree, dir + reference) {
        Some(bytes) => if is_digest_text(reference) && digest_of(bytes) != reference {
            None
        } else {
            Some(bytes)
        },
        None => None,
    }
}

/// The tree without the alias of the manifest that `reference` holds
/// now, if that alias points at it.
pub open spec fn unaliased(tree: Tree, dir: Seq<char>, reference: Seq<char>) -> Tree {
    let primary = dir + reference;
    if is_file(tree, primary) {
        let alias = dir + digest_of(file_bytes(tree, primary));
        if tree.contains_key(alias) && tree[alias] == Entry::Link(primary) {
            tree.remove(alias)
        } else {
            tree
        }
    } else {
        tree
    }
}

/// The tree after `content` was put under `reference`: the alias of what
/// the reference held before is gone, the primary copy is a file under the
/// reference, and the digest of `content` is a link to it (no link where
/// the reference is that digest itself).
pub open spec fn put(tree: Tree, dir: Seq<char>, reference: Seq<char>, content: Seq<u8>) -> Tree {
    let primary = dir + reference;
    let alias = dir + digest_of(content);
    let written = unaliased(tree, dir, reference).insert(primary, Entry::File(content));
    if alias == primary {
        written
    } else {
        written.insert(alias, Entry::Link(primary))
    }
}

/// Whether `content` is the canonical form of some manifest.
pub open spec fn is_canonical(content: Seq<u8>) -> bool {
    exists|m: Manifest| #[trigger] canonical_bytes(m) == content
}

/// Whether `after` is what an interrupted put of `content` under
/// `reference` may leave of `before`: the put stopped between two of its
/// steps. Nothing has changed; or the alias of what the reference held is
/// gone; or the primary copy is written as well; or the put took place.
pub open spec fn put_interrupted(
    before: Tree,
    after: Tree,
    dir: Seq<char>,
    reference: Seq<char>,
    content: Seq<u8>,
) -> bool {
    let bare = unaliased(before, dir, reference);
    ||| after == before
    ||| after == bare
    ||| after == bare.insert(dir + reference, Entry::File(content))
    ||| after == put(before, dir, reference, content)
}

/// The tree after the manifest under `reference` was deleted; a reference
/// that resolves to nothing leaves the tree as it is.
pub open spec fn deleted(tree: Tree, dir: Seq<char>, reference: Seq<char>) -> Tree {
    if resolved(tree, dir, reference) is Some {
        tree.remove(dir + reference)
    } else {
        tree
    }
}

/// Whether `after` is what an interrupted deletion of the manifest under
/// `reference` may leave of `before`: the deletion took place, or nothing
/// has changed.
pub open spec fn delete_interrupted(
    before: Tree,
    after: Tree,
    dir: Seq<char>,
    reference: Seq<char>,
) -> bool {
    after == before || after == deleted(before, dir, reference)
}

} // verus!
