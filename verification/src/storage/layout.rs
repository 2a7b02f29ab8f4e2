//! The keys under which the engine keeps its data:
//!
//! ```text
//! <root>/uploads/<repository>/<session id>      an upload in progress
//! <root>/layers/<repository>/<digest>           a finalized blob
//! <root>/manifests/<repository>/<reference>     a manifest, or an alias to one
//! ```
//!
//! With an empty root the keys start at the area: the layout of an object
//! store.

use vstd::prelude::*;
use vstd::string::*;

verus! {

/// The area of uploads in progress.
pub open spec fn uploads() -> Seq<char> {
    seq!['u', 'p', 'l', 'o', 'a', 'd', 's', '/']
}

/// The area of finalized blobs.
pub open spec fn layers() -> Seq<char> {
    seq!['l', 'a', 'y', 'e', 'r', 's', '/']
}

/// The area of manifests and their aliases.
pub open spec fn manifests() -> Seq<char> {
    seq!['m', 'a', 'n', 'i', 'f', 'e', 's', 't', 's', '/']
}

/// What stands before the area in every key: nothing for an empty root,
/// the root itself where it ends in a separator, else the root and a
/// separator.
pub open spec fn prefix_of(root: Seq<char>) -> Seq<char> {
    if root.len() == 0 || root.last() == '/' {
        root
    } else {
        root.push('/')
    }
}

/// The directory of one repository in one area.
pub open spec fn dir_of(root: Seq<char>, area: Seq<char>, name: Seq<char>) -> Seq<char> {
    prefix_of(root) + area + name.push('/')
}

/// The key of an upload session.
pub open spec fn upload_key(root: Seq<char>, name: Seq<char>, uuid: Seq<char>) -> Seq<char> {
    dir_of(root, uploads(), name) + uuid
}

/// The key of a blob.
pub open spec fn layer_key(root: Seq<char>, name: Seq<char>, digest: Seq<char>) -> Seq<char> {
    dir_of(root, layers(), name) + digest
}

/// The key of a manifest or of an alias.
pub open spec fn manifest_key(root: Seq<char>, name: Seq<char>, reference: Seq<char>) -> Seq<
    char,
> {
    dir_of(root, manifests(), name) + reference
}

/// Two keys of one directory are equal only where their last parts are.
pub proof fn lemma_same_dir(dir: Seq<char>, a: Seq<char>, b: Seq<char>)
    ensures
        (dir + a == dir + b) <==> a == b,
{
    if dir + a == dir + b {
        assert((dir + a).len() == (dir + b).len());
        assert forall|i: int| 0 <= i < a.len() implies a[i] == b[i] by {
            assert((dir + a)[dir.len() + i] == (dir + b)[dir.len() + i]);
        }
        assert(a =~= b);
    }
}

/// No key of one area is a key of another.
pub proof fn lemma_areas_apart(
    root: Seq<char>,
    name1: Seq<char>,
    leaf1: Seq<char>,
    name2: Seq<char>,
    leaf2: Seq<char>,
)
    ensures
        upload_key(root, name1, leaf1) != layer_key(root, name2, leaf2),
        upload_key(root, name1, leaf1) != manifest_key(root, name2, leaf2),
        layer_key(root, name1, leaf1) != manifest_key(root, name2, leaf2),
{
    let p = prefix_of(root);
    let n = p.len() as int;
    let u = upload_key(root, name1, leaf1);
    let l1 = layer_key(root, name1, leaf1);
    let l2 = layer_key(root, name2, leaf2);
    let m = manifest_key(root, name2, leaf2);
    assert(u[n] == uploads()[0]);
    assert(l1[n] == layers()[0]);
    assert(l2[n] == layers()[0]);
    assert(m[n] == manifests()[0]);
}

/// Whether a text holds no separator.
pub open spec fn has_no_slash(s: Seq<char>) -> bool {
    forall|i: int| 0 <= i < s.len() ==> s[i] != '/'
}

/// Two texts that a separator joins alike are the same two texts, where
/// the front ones hold no separator or the back ones hold none.
pub proof fn lemma_joined_alike(a1: Seq<char>, b1: Seq<char>, a2: Seq<char>, b2: Seq<char>)
    requires
        a1.push('/') + b1 == a2.push('/') + b2,
        (has_no_slash(a1) && has_no_slash(a2)) || (has_no_slash(b1) && has_no_slash(b2)),
    ensures
        a1 == a2,
        b1 == b2,
{
    let k1 = a1.push('/') + b1;
    let k2 = a2.push('/') + b2;
    assert(k1.len() == k2.len());
    assert(k1[a1.len() as int] == '/');
    assert(k2[a2.len() as int] == '/');
    if a1.len() < a2.len() {
        assert(k2[a1.len() as int] == a2[a1.len() as int]);
        assert(k1[a2.len() as int] == b1[a2.len() - a1.len() - 1]);
        assert(false);
    }
    if a2.len() < a1.len() {
        assert(k1[a2.len() as int] == a1[a2.len() as int]);
        assert(k2[a1.len() as int] == b2[a1.len() - a2.len() - 1]);
        assert(false);
    }
    assert forall|i: int| 0 <= i < a1.len() implies a1[i] == a2[i] by {
        assert(k1[i] == a1[i]);
        assert(k2[i] == a2[i]);
    }
    assert(a1 =~= a2);
    lemma_same_dir(a1.push('/'), b1, b2);
}

/// No key of one repository is a key of another: within one area, two
/// keys are equal only where both the repositories and the last parts
/// are. This holds where the repository names hold no separator, and
/// also where the last parts hold none, as session ids, digests and tags
/// do. A caller that admits separators in both has to tell repositories
/// apart itself.
pub proof fn lemma_repositories_apart(
    root: Seq<char>,
    area: Seq<char>,
    name1: Seq<char>,
    leaf1: Seq<char>,
    name2: Seq<char>,
    leaf2: Seq<char>,
)
    requires
        (has_no_slash(name1) && has_no_slash(name2)) || (has_no_slash(leaf1) && has_no_slash(
            leaf2,
        )),
    ensures
        (dir_of(root, area, name1) + leaf1 == dir_of(root, area, name2) + leaf2) <==> (name1
            == name2 && leaf1 == leaf2),
{
    let front = prefix_of(root) + area;
    assert(dir_of(root, area, name1) + leaf1 =~= front + (name1.push('/') + leaf1));
    assert(dir_of(root, area, name2) + leaf2 =~= front + (name2.push('/') + leaf2));
    lemma_same_dir(front, name1.push('/') + leaf1, name2.push('/') + leaf2);
    if name1.push('/') + leaf1 == name2.push('/') + leaf2 {
        lemma_joined_alike(name1, leaf1, name2, leaf2);
    }
}

/// The directory of one repository in one area, as a string.
fn dir_path(root: &String, area: &str, name: &String) -> (dir: String)
    ensures
        dir@ == prefix_of(root@) + area@ + name@.push('/'),
{
    let mut dir = root.clone();
    let n = root.as_str().unicode_len();
    if n > 0 && root.as_str().get_char(n - 1) != '/' {
        dir.push('/');
    }
    assert(dir@ == prefix_of(root@));
    dir.append(area);
    dir.append(name.as_str());
    dir.push('/');
    assert(dir@ =~= prefix_of(root@) + area@ + name@.push('/'));
    dir
}

/// The directory of a repository's uploads.
pub fn uploads_dir(root: &String, name: &String) -> (dir: String)
    ensures
        dir@ == dir_of(root@, uploads(), name@),
{
    proof {
        reveal_strlit("uploads/");
    }
    assert("uploads/"@ =~= uploads());
    dir_path(root, "uploads/", name)
}

/// The directory of a repository's blobs.
pub fn layers_dir(root: &String, name: &String) -> (dir: String)
    ensures
        dir@ == dir_of(root@, layers(), name@),
{
    proof {
        reveal_strlit("layers/");
    }
    assert("layers/"@ =~= layers());
    dir_path(root, "layers/", name)
}

/// The directory of a repository's manifests.
pub fn manifests_dir(root: &String, name: &String) -> (dir: String)
    ensures
        dir@ == dir_of(root@, manifests(), name@),
{
    proof {
        reveal_strlit("manifests/");
    }
    assert("manifests/"@ =~= manifests());
    dir_path(root, "manifests/", name)
}

/// The key of `leaf` in `dir`.
pub fn key_in(dir: &String, leaf: &String) -> (key: String)
    ensures
        key@ == dir@ + leaf@,
{
    let mut key = dir.clone();
    key.append(leaf.as_str());
    key
}

} // verus!
