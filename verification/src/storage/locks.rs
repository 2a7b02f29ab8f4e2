//! The table of keys that are being changed. A call that changes a
//! session or a manifest reference takes the key of what it changes for
//! its duration, and gives it back however it ends; two calls on one key
//! never run at once. Waiting for a key is the caller's: the table only
//! says whether the key is free.

use vstd::prelude::*;

verus! {

/// One key that is being changed: a session id or a manifest reference,
/// with its repository.
#[derive(Debug, Clone)]
pub struct Held {
    pub repository: String,
    pub key: String,
}

impl Held {
    /// The pair of texts that names the key.
    pub open spec fn pair(self) -> (Seq<char>, Seq<char>) {
        (self.repository@, self.key@)
    }
}

/// No key occurs twice.
pub open spec fn held_once(held: Seq<Held>) -> bool {
    forall|i: int, j: int|
        0 <= i < held.len() && 0 <= j < held.len() && i != j ==> (#[trigger] held[i]).pair() != (
        #[trigger] held[j]).pair()
}

/// The set of keys in a list.
pub open spec fn pairs_of(held: Seq<Held>) -> Set<(Seq<char>, Seq<char>)> {
    Set::new(
        |p: (Seq<char>, Seq<char>)|
            exists|i: int| 0 <= i < held.len() && (#[trigger] held[i]).pair() == p,
    )
}

/// Adding a key to the list adds it to the set.
proof fn lemma_taken(held: Seq<Held>, one: Held)
    requires
        held_once(held),
        !pairs_of(held).contains(one.pair()),
    ensures
        held_once(held.push(one)),
        pairs_of(held.push(one)) == pairs_of(held).insert(one.pair()),
{
    let after = held.push(one);
    assert forall|i: int, j: int|
        0 <= i < after.len() && 0 <= j < after.len() && i != j implies (#[trigger] after[i]).pair()
        != (#[trigger] after[j]).pair() by {
        if i < held.len() {
            assert(after[i] == held[i]);
        }
        if j < held.len() {
            assert(after[j] == held[j]);
        }
    }
    assert forall|p: (Seq<char>, Seq<char>)|
        pairs_of(after).contains(p) == pairs_of(held).insert(one.pair()).contains(p) by {
        if pairs_of(after).contains(p) {
            let i = choose|i: int| 0 <= i < after.len() && (#[trigger] after[i]).pair() == p;
            if i < held.len() {
                assert(held[i].pair() == p);
            }
        }
        if pairs_of(held).contains(p) {
            let i = choose|i: int| 0 <= i < held.len() && (#[trigger] held[i]).pair() == p;
            assert(after[i].pair() == p);
        }
        if p == one.pair() {
            assert(after[held.len() as int].pair() == p);
        }
    }
    assert(pairs_of(after) =~= pairs_of(held).insert(one.pair()));
}

/// Taking a key out of the list takes it out of the set.
proof fn lemma_given_back(held: Seq<Held>, at: int)
    requires
        held_once(held),
        0 <= at < held.len(),
    ensures
        held_once(held.remove(at)),
        pairs_of(held.remove(at)) == pairs_of(held).remove(held[at].pair()),
{
    let after = held.remove(at);
    assert forall|i: int| 0 <= i < after.len() implies #[trigger] after[i] == held[if i < at {
        i
    } else {
        i + 1
    }] by {}
    assert(held_once(after));
    assert forall|p: (Seq<char>, Seq<char>)|
        pairs_of(after).contains(p) == pairs_of(held).remove(held[at].pair()).contains(p) by {
        if pairs_of(after).contains(p) {
            let i = choose|i: int| 0 <= i < after.len() && (#[trigger] after[i]).pair() == p;
            let j = if i < at {
                i
            } else {
                i + 1
            };
            assert(after[i] == held[j]);
            assert(held[j].pair() == p);
        }
        if pairs_of(held).contains(p) && p != held[at].pair() {
            let j = choose|j: int| 0 <= j < held.len() && (#[trigger] held[j]).pair() == p;
            let i = if j < at {
                j
            } else {
                j - 1
            };
            assert(after[i] == held[j]);
            assert(after[i].pair() == p);
        }
    }
    assert(pairs_of(after) =~= pairs_of(held).remove(held[at].pair()));
}

/// The place of a key in the list, if it is there.
fn place(held: &Vec<Held>, repository: &String, key: &String) -> (r: Option<usize>)
    ensures
        r matches Some(i) ==> i < held@.len() && held@[i as int].pair() == (repository@, key@),
        r is None ==> !pairs_of(held@).contains((repository@, key@)),
{
    let mut i: usize = 0;
    while i < held.len()
        invariant
            i <= held@.len(),
            forall|j: int| 0 <= j < i ==> (#[trigger] held@[j]).pair() != (repository@, key@),
        decreases held@.len() - i,
    {
        if held[i].repository == *repository && held[i].key == *key {
            return Some(i);
        }
        i += 1;
    }
    None
}

/// The keys that are being changed.
pub struct LockTable {
    held: Vec<Held>,
}

impl LockTable {
    #[verifier::type_invariant]
    spec fn once(&self) -> bool {
        held_once(self.held@)
    }

    /// The set of keys that are taken.
    pub closed spec fn view(&self) -> Set<(Seq<char>, Seq<char>)> {
        pairs_of(self.held@)
    }

    /// A table in which every key is free.
    pub fn new() -> (table: LockTable)
        ensures
            table@ == Set::<(Seq<char>, Seq<char>)>::empty(),
    {
        let table = LockTable { held: Vec::new() };
        assert(pairs_of(table.held@) =~= Set::<(Seq<char>, Seq<char>)>::empty());
        table
    }

    /// Whether `key` of `repository` is taken.
    pub fn is_held(&self, repository: &String, key: &String) -> (taken: bool)
        ensures
            taken == self@.contains((repository@, key@)),
    {
        place(&self.held, repository, key).is_some()
    }

    /// Takes `key` of `repository` where it is free, and says whether it
    /// did: a key that is taken stays with its holder.
    pub fn try_acquire(&mut self, repository: &String, key: &String) -> (got: bool)
        ensures
            got == !old(self)@.contains((repository@, key@)),
            final(self)@ == old(self)@.insert((repository@, key@)),
    {
        proof {
            use_type_invariant(&*self);
        }
        let mut held: Vec<Held> = Vec::new();
        std::mem::swap(&mut self.held, &mut held);
        let got = match place(&held, repository, key) {
            Some(i) => {
                assert(pairs_of(held@).contains(held@[i as int].pair()));
                assert(pairs_of(held@) =~= pairs_of(held@).insert((repository@, key@)));
                false
            },
            None => {
                let one = Held { repository: repository.clone(), key: key.clone() };
                proof {
                    lemma_taken(held@, one);
                }
                held.push(one);
                true
            },
        };
        std::mem::swap(&mut self.held, &mut held);
        got
    }

    /// Gives `key` of `repository` back; a key that is free stays free.
    pub fn release(&mut self, repository: &String, key: &String)
        ensures
            final(self)@ == old(self)@.remove((repository@, key@)),
    {
        proof {
            use_type_invariant(&*self);
        }
        let mut held: Vec<Held> = Vec::new();
        std::mem::swap(&mut self.held, &mut held);
        match place(&held, repository, key) {
            Some(i) => {
                proof {
                    lemma_given_back(held@, i as int);
                }
                let _ = held.remove(i);
            },
            None => {
                assert(pairs_of(held@) =~= pairs_of(held@).remove((repository@, key@)));
            },
        }
        std::mem::swap(&mut self.held, &mut held);
    }
}

/// Mutual exclusion: a key that was taken is not given to another until it
/// is given back, and taking or giving back one key leaves every other as
/// it is.
pub proof fn law_one_holder(
    taken: Set<(Seq<char>, Seq<char>)>,
    key: (Seq<char>, Seq<char>),
    other: (Seq<char>, Seq<char>),
)
    requires
        other != key,
    ensures
        taken.insert(key).contains(key),
        !taken.insert(key).remove(key).contains(key),
        taken.insert(key).contains(other) == taken.contains(other),
        taken.remove(key).contains(other) == taken.contains(other),
{
}

} // verus!
