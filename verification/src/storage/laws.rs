//! What holds of the engine across operations, proved of the model that
//! the operations' contracts speak of.

use super::base::StorageError;
use super::digest::{digest_of, is_digest_text, is_tag_text, lemma_tag_is_no_digest};
use super::layout::{
    dir_of, layer_key, layers, lemma_areas_apart, lemma_same_dir, manifests, upload_key,
};
use super::medium::{file_bytes, grown_in_part, is_file, Entry, Tree};
use super::model::{
    appended, blob, concat_all, delete_interrupted, deleted, finalize_interrupted,
    finalize_verdict, finalized, followed, is_canonical, opened, put, put_interrupted, resolved,
    unaliased,
};
use super::types::manifest::Manifest;
use crate::reader::{lemma_canonical_injective, manifest_model};
use crate::utils::{canonical, canonical_bytes};
use vstd::prelude::*;

verus! {

/// The tree after each chunk of `chunks` was appended to the session at
/// `upload` by a call of its own, in order.
pub open spec fn appended_each(tree: Tree, upload: Seq<char>, chunks: Seq<Seq<u8>>) -> Tree
    decreases chunks.len(),
{
    if chunks.len() == 0 {
        tree
    } else {
        appended(appended_each(tree, upload, chunks.drop_last()), upload, chunks.last())
    }
}

/// Appending keeps a session a session, and a missing session missing.
pub proof fn law_append_keeps_session(tree: Tree, upload: Seq<char>, data: Seq<u8>)
    ensures
        is_file(appended(tree, upload, data), upload) == is_file(tree, upload),
        is_file(tree, upload) ==> file_bytes(appended(tree, upload, data), upload) == file_bytes(
            tree,
            upload,
        ) + data,
{
}

/// Chunked equals monolithic: any number of appends, with any split
/// points, leaves what one append of the whole content leaves.
pub proof fn law_chunked_is_monolithic(tree: Tree, upload: Seq<char>, chunks: Seq<Seq<u8>>)
    ensures
        appended_each(tree, upload, chunks) == appended(tree, upload, concat_all(chunks)),
    decreases chunks.len(),
{
    if chunks.len() == 0 {
        assert(appended(tree, upload, concat_all(chunks)) =~= tree) by {
            if is_file(tree, upload) {
                assert(file_bytes(tree, upload) + Seq::<u8>::empty() =~= file_bytes(tree, upload));
            }
        }
    } else {
        let front = chunks.drop_last();
        law_chunked_is_monolithic(tree, upload, front);
        if is_file(tree, upload) {
            let held = file_bytes(tree, upload);
            assert(held + concat_all(front) + chunks.last() =~= held + (concat_all(front)
                + chunks.last()));
            assert(appended_each(tree, upload, chunks) =~= appended(
                tree,
                upload,
                concat_all(chunks),
            ));
        }
    }
}

/// Chunked and monolithic uploads of one content finalize alike: to the
/// same verdict, the same digest, and the same tree.
pub proof fn law_chunked_finalizes_alike(
    tree: Tree,
    upload: Seq<char>,
    blobs: Seq<char>,
    chunks: Seq<Seq<u8>>,
    content: Seq<u8>,
    expected: Option<Seq<char>>,
)
    requires
        concat_all(chunks) == content,
    ensures
        finalize_verdict(appended_each(tree, upload, chunks), upload, expected) == finalize_verdict(
            appended(tree, upload, content),
            upload,
            expected,
        ),
        finalized(appended_each(tree, upload, chunks), upload, blobs, expected) == finalized(
            appended(tree, upload, content),
            upload,
            blobs,
            expected,
        ),
{
    law_chunked_is_monolithic(tree, upload, chunks);
}

/// Digest correctness: a session that was opened, fed exactly `content`
/// and finalized yields the digest of `content`, and the blob under that
/// digest is exactly `content`.
pub proof fn law_upload_digest(
    tree: Tree,
    root: Seq<char>,
    name: Seq<char>,
    uuid: Seq<char>,
    content: Seq<u8>,
)
    ensures
        ({
            let upload = upload_key(root, name, uuid);
            let blobs = dir_of(root, layers(), name);
            let fed = appended(opened(tree, upload), upload, content);
            &&& finalize_verdict(fed, upload, None) == Ok::<Seq<char>, StorageError>(
                digest_of(content),
            )
            &&& finalize_verdict(fed, upload, Some(digest_of(content))) == Ok::<
                Seq<char>,
                StorageError,
            >(digest_of(content))
            &&& blob(finalized(fed, upload, blobs, None), blobs + digest_of(content)) == Some(
                content,
            )
        }),
{
    let upload = upload_key(root, name, uuid);
    let fed = appended(opened(tree, upload), upload, content);
    assert(file_bytes(fed, upload) =~= content);
}

/// Finalizing stores the session's bytes under their digest, whatever
/// else the tree holds.
pub proof fn law_finalize_stores_blob(
    tree: Tree,
    upload: Seq<char>,
    blobs: Seq<char>,
    expected: Option<Seq<char>>,
)
    requires
        finalize_verdict(tree, upload, expected) is Ok,
    ensures
        finalize_verdict(tree, upload, expected) == Ok::<Seq<char>, StorageError>(
            digest_of(file_bytes(tree, upload)),
        ),
        blob(
            finalized(tree, upload, blobs, expected),
            blobs + digest_of(file_bytes(tree, upload)),
        ) == Some(file_bytes(tree, upload)),
{
}

/// Session lifecycle: a session that does not exist cannot be finalized.
pub proof fn law_unknown_session(
    tree: Tree,
    upload: Seq<char>,
    blobs: Seq<char>,
    expected: Option<Seq<char>>,
)
    requires
        !is_file(tree, upload),
    ensures
        finalize_verdict(tree, upload, expected) == Err::<Seq<char>, StorageError>(
            StorageError::SessionInvalid,
        ),
        finalized(tree, upload, blobs, expected) == tree,
        appended(tree, upload, Seq::<u8>::empty()) == tree,
{
}

/// Session lifecycle: once a session was finalized it is gone. A second
/// finalization fails with `SessionInvalid`, and so does an append.
pub proof fn law_finalized_session_is_gone(
    tree: Tree,
    root: Seq<char>,
    name: Seq<char>,
    uuid: Seq<char>,
    expected: Option<Seq<char>>,
    again: Option<Seq<char>>,
    data: Seq<u8>,
)
    requires
        finalize_verdict(tree, upload_key(root, name, uuid), expected) is Ok,
    ensures
        ({
            let upload = upload_key(root, name, uuid);
            let after = finalized(tree, upload, dir_of(root, layers(), name), expected);
            &&& !is_file(after, upload)
            &&& finalize_verdict(after, upload, again) == Err::<Seq<char>, StorageError>(
                StorageError::SessionInvalid,
            )
            &&& appended(after, upload, data) == after
        }),
{
    let upload = upload_key(root, name, uuid);
    let digest = digest_of(file_bytes(tree, upload));
    lemma_areas_apart(root, name, uuid, name, digest);
}

/// Digest mismatch rejection: where the expected digest is not the digest
/// of what the session holds, finalizing fails with `DigestMismatch` and
/// leaves the tree as it was: no blob appears under either digest, and
/// the session stays.
pub proof fn law_digest_mismatch(
    tree: Tree,
    upload: Seq<char>,
    blobs: Seq<char>,
    expected: Seq<char>,
)
    requires
        is_file(tree, upload),
        expected != digest_of(file_bytes(tree, upload)),
    ensures
        finalize_verdict(tree, upload, Some(expected)) == Err::<Seq<char>, StorageError>(
            StorageError::DigestMismatch,
        ),
        finalized(tree, upload, blobs, Some(expected)) == tree,
{
}

/// An interrupted append keeps what was received: the session is still
/// there, and what it held is the front of what it holds.
pub proof fn law_interrupted_append(
    before: Tree,
    after: Tree,
    upload: Seq<char>,
    data: Seq<u8>,
)
    requires
        is_file(before, upload),
        grown_in_part(before, after, upload, data),
    ensures
        is_file(after, upload),
        file_bytes(before, upload).len() <= file_bytes(after, upload).len()
            <= file_bytes(before, upload).len() + data.len(),
        file_bytes(after, upload).subrange(0, file_bytes(before, upload).len() as int)
            == file_bytes(before, upload),
        forall|key: Seq<char>|
            key != upload ==> after.contains_key(key) == before.contains_key(key) && after[key]
                == before[key],
{
}

/// An interrupted finalization loses nothing and shows nothing by
/// halves. Every key but the session's and the blob's holds what it
/// held. The blob's key holds what it held, or exactly the session's
/// bytes. The session holds its bytes still, unless they are the blob:
/// the source goes only after the copy is there. And where the expected
/// digest is another, nothing has changed.
pub proof fn law_interrupted_finalize(
    before: Tree,
    after: Tree,
    upload: Seq<char>,
    blobs: Seq<char>,
    expected: Option<Seq<char>>,
)
    requires
        is_file(before, upload),
        finalize_interrupted(before, after, upload, blobs, expected),
    ensures
        ({
            let held = file_bytes(before, upload);
            let key = blobs + digest_of(held);
            &&& forall|k: Seq<char>|
                k != upload && k != key ==> after.contains_key(k) == before.contains_key(k)
                    && after[k] == before[k]
            &&& blob(after, key) == Some(held) || (after.contains_key(key) == before.contains_key(
                key,
            ) && after[key] == before[key])
            &&& blob(after, upload) == Some(held) || blob(after, key) == Some(held)
            &&& expected is Some && expected->0 != digest_of(held) ==> after == before
        }),
{
}

/// Where no session is at `upload`, an interrupted finalization has
/// changed nothing.
pub proof fn law_interrupted_finalize_of_nothing(
    before: Tree,
    after: Tree,
    upload: Seq<char>,
    blobs: Seq<char>,
    expected: Option<Seq<char>>,
)
    requires
        !is_file(before, upload),
        finalize_interrupted(before, after, upload, blobs, expected),
    ensures
        after == before,
{
}

/// An interrupted put under a tag shows the old content or the new: the
/// tag resolves to what it resolved to, or to `content`, and a reference
/// of digest form resolves to nothing or to bytes that hash to it.
pub proof fn law_interrupted_put(
    before: Tree,
    after: Tree,
    dir: Seq<char>,
    tag: Seq<char>,
    content: Seq<u8>,
    digest: Seq<char>,
)
    requires
        is_tag_text(tag),
        is_digest_text(digest),
        put_interrupted(before, after, dir, tag, content),
    ensures
        resolved(after, dir, tag) == resolved(before, dir, tag) || resolved(after, dir, tag)
            == Some(content),
        resolved(after, dir, digest) matches Some(bytes) ==> digest_of(bytes) == digest,
{
    let primary = dir + tag;
    let bare = unaliased(before, dir, tag);
    lemma_tag_is_no_digest(tag, content);
    lemma_same_dir(dir, tag, digest_of(content));
    if is_file(before, primary) {
        lemma_tag_is_no_digest(tag, file_bytes(before, primary));
        lemma_same_dir(dir, tag, digest_of(file_bytes(before, primary)));
    }
    assert(resolved(bare, dir, tag) == resolved(before, dir, tag));
    law_tag_and_digest_converge(before, dir, tag, content);
}

/// An interrupted deletion shows the manifest or nothing: the reference
/// resolves to what it resolved to, or to nothing.
pub proof fn law_interrupted_delete(
    before: Tree,
    after: Tree,
    dir: Seq<char>,
    reference: Seq<char>,
)
    requires
        delete_interrupted(before, after, dir, reference),
    ensures
        resolved(after, dir, reference) == resolved(before, dir, reference) || resolved(
            after,
            dir,
            reference,
        ) is None,
{
}

/// Tag/digest convergence: after `content` was put under a tag, the tag
/// and the digest of `content` resolve to the same bytes, `content`. The
/// same holds of a reference that is the digest of `content` itself.
pub proof fn law_tag_and_digest_converge(
    tree: Tree,
    dir: Seq<char>,
    reference: Seq<char>,
    content: Seq<u8>,
)
    requires
        is_tag_text(reference) || reference == digest_of(content),
    ensures
        resolved(put(tree, dir, reference, content), dir, reference) == Some(content),
        resolved(put(tree, dir, reference, content), dir, digest_of(content)) == Some(content),
{
    if is_tag_text(reference) {
        lemma_tag_is_no_digest(reference, content);
    }
    lemma_same_dir(dir, reference, digest_of(content));
}

/// Overwrite correctness: after a second put under the same tag with
/// content of another digest, the tag resolves to the second content, and
/// the digest of the first resolves to nothing: never to the second
/// content.
pub proof fn law_overwrite(
    tree: Tree,
    dir: Seq<char>,
    tag: Seq<char>,
    first: Seq<u8>,
    second: Seq<u8>,
)
    requires
        is_tag_text(tag),
        digest_of(first) != digest_of(second),
    ensures
        ({
            let after = put(put(tree, dir, tag, first), dir, tag, second);
            &&& resolved(after, dir, tag) == Some(second)
            &&& resolved(after, dir, digest_of(second)) == Some(second)
            &&& resolved(after, dir, digest_of(first)) is None
        }),
{
    let once = put(tree, dir, tag, first);
    law_tag_and_digest_converge(once, dir, tag, second);
    lemma_tag_is_no_digest(tag, first);
    lemma_tag_is_no_digest(tag, second);
    lemma_same_dir(dir, tag, digest_of(first));
    lemma_same_dir(dir, tag, digest_of(second));
    lemma_same_dir(dir, digest_of(first), digest_of(second));
    assert(once[dir + tag] == Entry::File(first));
    assert(once[dir + digest_of(first)] == Entry::Link(dir + tag));
}

/// Putting the same content again under a tag changes nothing that the
/// tag or the digest resolve to.
pub proof fn law_put_again(tree: Tree, dir: Seq<char>, tag: Seq<char>, content: Seq<u8>)
    requires
        is_tag_text(tag),
    ensures
        put(put(tree, dir, tag, content), dir, tag, content) == put(tree, dir, tag, content),
{
    let once = put(tree, dir, tag, content);
    lemma_tag_is_no_digest(tag, content);
    lemma_same_dir(dir, tag, digest_of(content));
    assert(once[dir + tag] == Entry::File(content));
    assert(once[dir + digest_of(content)] == Entry::Link(dir + tag));
    assert(put(once, dir, tag, content) =~= once);
}

/// After a tag was deleted, the tag and the alias of its content resolve
/// to nothing.
pub proof fn law_delete(tree: Tree, dir: Seq<char>, tag: Seq<char>, content: Seq<u8>)
    requires
        is_tag_text(tag),
    ensures
        ({
            let after = deleted(put(tree, dir, tag, content), dir, tag);
            &&& resolved(after, dir, tag) is None
            &&& resolved(after, dir, digest_of(content)) is None
        }),
{
    law_tag_and_digest_converge(tree, dir, tag, content);
    lemma_tag_is_no_digest(tag, content);
    lemma_same_dir(dir, tag, digest_of(content));
}

/// The canonical bytes of a manifest say all that the manifest says:
/// manifests with the same canonical bytes, hence with the same digest
/// input, are the same document.
pub proof fn law_canonical_bytes_injective(a: Manifest, b: Manifest)
    requires
        canonical_bytes(a) == canonical_bytes(b),
    ensures
        manifest_model(a) == manifest_model(b),
{
    vstd::utf8::encode_utf8_decode_utf8(canonical(a));
    vstd::utf8::encode_utf8_decode_utf8(canonical(b));
    lemma_canonical_injective(a, b);
}

/// A manifest that was put under a tag is the manifest that the tag and
/// its digest resolve to: whatever manifest has the bytes that they
/// resolve to says what the one that was put says.
pub proof fn law_manifest_read_back(
    tree: Tree,
    dir: Seq<char>,
    tag: Seq<char>,
    written: Manifest,
    read: Manifest,
)
    requires
        is_tag_text(tag),
        resolved(put(tree, dir, tag, canonical_bytes(written)), dir, tag) == Some(
            canonical_bytes(read),
        ) || resolved(
            put(tree, dir, tag, canonical_bytes(written)),
            dir,
            digest_of(canonical_bytes(written)),
        ) == Some(canonical_bytes(read)),
    ensures
        manifest_model(read) == manifest_model(written),
{
    law_tag_and_digest_converge(tree, dir, tag, canonical_bytes(written));
    law_canonical_bytes_injective(read, written);
}

/// Whether bytes that a reference resolves to, if any, are in canonical
/// form.
pub open spec fn canonical_if_any(found: Option<Seq<u8>>) -> bool {
    found matches Some(content) ==> is_canonical(content)
}

/// Whether every manifest that resolves in the directory `dir` is in
/// canonical form.
pub open spec fn manifests_canonical(tree: Tree, dir: Seq<char>) -> bool {
    forall|reference: Seq<char>| canonical_if_any(#[trigger] resolved(tree, dir, reference))
}

/// Taking a key out keeps the manifests canonical.
proof fn lemma_canonical_without(tree: Tree, dir: Seq<char>, key: Seq<char>)
    requires
        manifests_canonical(tree, dir),
    ensures
        manifests_canonical(tree.remove(key), dir),
{
    let after = tree.remove(key);
    assert forall|r: Seq<char>| canonical_if_any(#[trigger] resolved(after, dir, r)) by {
        assert(canonical_if_any(resolved(tree, dir, r)));
        assert(followed(after, dir + r) is None || followed(after, dir + r) == followed(
            tree,
            dir + r,
        ));
    }
}

/// Writing canonical bytes at a key keeps the manifests canonical.
proof fn lemma_canonical_with_file(tree: Tree, dir: Seq<char>, key: Seq<char>, content: Seq<u8>)
    requires
        manifests_canonical(tree, dir),
        is_canonical(content),
    ensures
        manifests_canonical(tree.insert(key, Entry::File(content)), dir),
{
    let after = tree.insert(key, Entry::File(content));
    assert forall|r: Seq<char>| canonical_if_any(#[trigger] resolved(after, dir, r)) by {
        assert(canonical_if_any(resolved(tree, dir, r)));
        assert(followed(after, dir + r) == Some(content) || followed(after, dir + r) == followed(
            tree,
            dir + r,
        ));
    }
}

/// A link to canonical bytes keeps the manifests canonical.
proof fn lemma_canonical_with_link(tree: Tree, dir: Seq<char>, key: Seq<char>, target: Seq<char>)
    requires
        manifests_canonical(tree, dir),
        canonical_if_any(blob(tree, target)),
    ensures
        manifests_canonical(tree.insert(key, Entry::Link(target)), dir),
{
    let after = tree.insert(key, Entry::Link(target));
    assert forall|r: Seq<char>| canonical_if_any(#[trigger] resolved(after, dir, r)) by {
        assert(canonical_if_any(resolved(tree, dir, r)));
        assert(followed(after, dir + r) is None || followed(after, dir + r) == blob(tree, target)
            || followed(after, dir + r) == followed(tree, dir + r));
    }
}

/// The store holds manifests in canonical form only: a put of canonical
/// bytes and a deletion keep it so, and so does a put that was
/// interrupted. On such a store no manifest that resolves is refused as
/// invalid.
pub proof fn law_manifests_stay_canonical(
    tree: Tree,
    after: Tree,
    dir: Seq<char>,
    reference: Seq<char>,
    content: Seq<u8>,
)
    requires
        manifests_canonical(tree, dir),
        is_canonical(content),
        put_interrupted(tree, after, dir, reference, content),
    ensures
        manifests_canonical(after, dir),
        manifests_canonical(put(tree, dir, reference, content), dir),
        manifests_canonical(deleted(tree, dir, reference), dir),
{
    let primary = dir + reference;
    let alias = dir + digest_of(content);
    let bare = unaliased(tree, dir, reference);
    let written = bare.insert(primary, Entry::File(content));
    if is_file(tree, primary) {
        lemma_canonical_without(tree, dir, dir + digest_of(file_bytes(tree, primary)));
    }
    assert(manifests_canonical(bare, dir));
    lemma_canonical_with_file(bare, dir, primary, content);
    lemma_canonical_with_link(written, dir, alias, primary);
    lemma_canonical_without(tree, dir, primary);
}

/// Content addressing of blobs: every blob under a key of digest form
/// hashes to that digest.
pub open spec fn blobs_sound(tree: Tree, root: Seq<char>) -> bool {
    forall|name: Seq<char>, digest: Seq<char>|
        is_digest_text(digest) && is_file(tree, #[trigger] layer_key(root, name, digest))
            ==> digest == digest_of(file_bytes(tree, layer_key(root, name, digest)))
}

/// Two blob keys of digest form are equal only where their digests are.
pub proof fn lemma_blob_keys(
    root: Seq<char>,
    name1: Seq<char>,
    digest1: Seq<char>,
    name2: Seq<char>,
    digest2: Seq<char>,
)
    requires
        is_digest_text(digest1),
        is_digest_text(digest2),
        layer_key(root, name1, digest1) == layer_key(root, name2, digest2),
    ensures
        digest1 == digest2,
{
    let k1 = layer_key(root, name1, digest1);
    let k2 = layer_key(root, name2, digest2);
    let a1 = dir_of(root, layers(), name1);
    let a2 = dir_of(root, layers(), name2);
    assert(k1.len() == a1.len() + 71);
    assert(k2.len() == a2.len() + 71);
    assert forall|i: int| 0 <= i < 71 implies digest1[i] == digest2[i] by {
        assert(k1[a1.len() + i] == digest1[i]);
        assert(k2[a2.len() + i] == digest2[i]);
    }
    assert(digest1 =~= digest2);
}

/// An empty medium is sound.
pub proof fn law_empty_is_sound(root: Seq<char>)
    ensures
        blobs_sound(Tree::empty(), root),
{
}

/// Finalizing keeps content addressing: the blob that it stores hashes to
/// its key, and no other blob changes.
pub proof fn law_finalize_keeps_blobs_sound(
    tree: Tree,
    root: Seq<char>,
    name: Seq<char>,
    uuid: Seq<char>,
    expected: Option<Seq<char>>,
)
    requires
        blobs_sound(tree, root),
        is_file(tree, upload_key(root, name, uuid)) ==> is_digest_text(
            digest_of(file_bytes(tree, upload_key(root, name, uuid))),
        ),
    ensures
        blobs_sound(
            finalized(tree, upload_key(root, name, uuid), dir_of(root, layers(), name), expected),
            root,
        ),
{
    let upload = upload_key(root, name, uuid);
    let after = finalized(tree, upload, dir_of(root, layers(), name), expected);
    if finalize_verdict(tree, upload, expected) is Ok {
        let held = file_bytes(tree, upload);
        let stored = digest_of(held);
        assert forall|n: Seq<char>, d: Seq<char>|
            is_digest_text(d) && is_file(after, #[trigger] layer_key(root, n, d)) implies d
            == digest_of(file_bytes(after, layer_key(root, n, d))) by {
            let key = layer_key(root, n, d);
            lemma_areas_apart(root, name, uuid, n, d);
            if key == layer_key(root, name, stored) {
                lemma_blob_keys(root, n, d, name, stored);
            } else {
                assert(is_file(tree, key));
            }
        }
    }
}

/// Sessions and manifests keep content addressing: opening a session,
/// appending to it, putting a manifest and deleting one change no blob.
pub proof fn law_other_operations_keep_blobs(
    tree: Tree,
    root: Seq<char>,
    name: Seq<char>,
    leaf: Seq<char>,
    data: Seq<u8>,
)
    requires
        blobs_sound(tree, root),
    ensures
        blobs_sound(opened(tree, upload_key(root, name, leaf)), root),
        blobs_sound(appended(tree, upload_key(root, name, leaf), data), root),
        blobs_sound(put(tree, dir_of(root, manifests(), name), leaf, data), root),
        blobs_sound(deleted(tree, dir_of(root, manifests(), name), leaf), root),
{
    let upload = upload_key(root, name, leaf);
    let dir = dir_of(root, manifests(), name);
    let after_open = opened(tree, upload);
    let after_append = appended(tree, upload, data);
    let after_put = put(tree, dir, leaf, data);
    let after_delete = deleted(tree, dir, leaf);
    assert forall|n: Seq<char>, d: Seq<char>| #![trigger layer_key(root, n, d)] true implies ({
        let key = layer_key(root, n, d);
        &&& after_open.contains_key(key) == tree.contains_key(key)
        &&& after_append.contains_key(key) == tree.contains_key(key)
        &&& after_put.contains_key(key) == tree.contains_key(key)
        &&& after_delete.contains_key(key) == tree.contains_key(key)
        &&& tree.contains_key(key) ==> after_open[key] == tree[key] && after_append[key]
            == tree[key] && after_put[key] == tree[key] && after_delete[key] == tree[key]
    }) by {
        lemma_areas_apart(root, name, leaf, n, d);
        lemma_areas_apart(root, n, d, name, leaf);
        lemma_areas_apart(root, n, d, name, digest_of(data));
        if is_file(tree, dir + leaf) {
            lemma_areas_apart(root, n, d, name, digest_of(file_bytes(tree, dir + leaf)));
        }
    }
    assert(blobs_sound(after_open, root));
    assert(blobs_sound(after_append, root));
    assert(blobs_sound(after_put, root));
    assert(blobs_sound(after_delete, root));
}

/// Content addressing of manifests: what a reference of digest form
/// resolves to hashes to that reference.
pub proof fn law_resolved_digest(tree: Tree, dir: Seq<char>, reference: Seq<char>)
    requires
        is_digest_text(reference),
        resolved(tree, dir, reference) is Some,
    ensures
        digest_of(resolved(tree, dir, reference)->0) == reference,
{
}

} // verus!
