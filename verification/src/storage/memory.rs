//! A medium that lives in memory. It never fails, and serves wherever no
//! durable medium is at hand.

use super::medium::{Entry, Fault, FileMedium, Medium, Probe, Tree};
use vstd::prelude::*;

verus! {

/// What a slot holds.
#[derive(Debug, Clone)]
pub enum Node {
    File(Vec<u8>),
    Link(String),
}

impl Node {
    /// The entry that the node stands for.
    pub open spec fn entry(self) -> Entry {
        match self {
            Node::File(bytes) => Entry::File(bytes@),
            Node::Link(target) => Entry::Link(target@),
        }
    }
}

/// One key and what it holds.
#[derive(Debug, Clone)]
pub struct Slot {
    pub key: String,
    pub node: Node,
}

/// No key occurs in two slots.
pub open spec fn keys_distinct(slots: Seq<Slot>) -> bool {
    forall|i: int, j: int|
        0 <= i < slots.len() && 0 <= j < slots.len() && i != j ==> (#[trigger] slots[i]).key@ != (
        #[trigger] slots[j]).key@
}

/// Whether some slot has `key`.
pub open spec fn has_key(slots: Seq<Slot>, key: Seq<char>) -> bool {
    exists|i: int| 0 <= i < slots.len() && (#[trigger] slots[i]).key@ == key
}

/// The position of a slot with `key`.
pub open spec fn slot_of(slots: Seq<Slot>, key: Seq<char>) -> int {
    choose|i: int| 0 <= i < slots.len() && (#[trigger] slots[i]).key@ == key
}

/// The map that a sequence of slots stands for.
pub open spec fn tree_of(slots: Seq<Slot>) -> Tree {
    Map::new(
        |key: Seq<char>| has_key(slots, key),
        |key: Seq<char>| slots[slot_of(slots, key)].node.entry(),
    )
}

/// With distinct keys, the slot at `i` is what the map holds under its key.
pub proof fn lemma_slot_is_entry(slots: Seq<Slot>, i: int)
    requires
        keys_distinct(slots),
        0 <= i < slots.len(),
    ensures
        tree_of(slots).contains_key(slots[i].key@),
        tree_of(slots)[slots[i].key@] == slots[i].node.entry(),
{
    let key = slots[i].key@;
    assert(has_key(slots, key));
    let j = slot_of(slots, key);
    assert(slots[j].key@ == key);
    assert(i == j);
}

/// Replacing the node of slot `i` is an insertion under its key.
proof fn lemma_replace(slots: Seq<Slot>, i: int, slot: Slot)
    requires
        keys_distinct(slots),
        0 <= i < slots.len(),
        slot.key@ == slots[i].key@,
    ensures
        keys_distinct(slots.update(i, slot)),
        tree_of(slots.update(i, slot)) == tree_of(slots).insert(slot.key@, slot.node.entry()),
{
    let after = slots.update(i, slot);
    assert(keys_distinct(after)) by {
        assert forall|a: int, b: int|
            0 <= a < after.len() && 0 <= b < after.len() && a != b implies (
        #[trigger] after[a]).key@ != (#[trigger] after[b]).key@ by {
            assert(after[a].key@ == slots[a].key@);
            assert(after[b].key@ == slots[b].key@);
        }
    }
    let want = tree_of(slots).insert(slot.key@, slot.node.entry());
    assert forall|key: Seq<char>| tree_of(after).contains_key(key) == want.contains_key(
        key,
    ) by {
        if has_key(after, key) {
            let a = slot_of(after, key);
            assert(slots[a].key@ == key);
        }
        if has_key(slots, key) {
            let a = slot_of(slots, key);
            assert(after[a].key@ == key);
        }
        if key == slot.key@ {
            assert(after[i].key@ == key);
        }
    }
    assert forall|key: Seq<char>| tree_of(after).contains_key(key) implies tree_of(after)[key]
        == want[key] by {
        let a = slot_of(after, key);
        lemma_slot_is_entry(after, a);
        if a != i {
            assert(slots[a].key@ == key);
            lemma_slot_is_entry(slots, a);
        }
    }
    assert(tree_of(after) =~= want);
}

/// Adding a slot with a new key is an insertion.
proof fn lemma_add(slots: Seq<Slot>, slot: Slot)
    requires
        keys_distinct(slots),
        !has_key(slots, slot.key@),
    ensures
        keys_distinct(slots.push(slot)),
        tree_of(slots.push(slot)) == tree_of(slots).insert(slot.key@, slot.node.entry()),
{
    let after = slots.push(slot);
    assert(keys_distinct(after)) by {
        assert forall|a: int, b: int|
            0 <= a < after.len() && 0 <= b < after.len() && a != b implies (
        #[trigger] after[a]).key@ != (#[trigger] after[b]).key@ by {
            if a < slots.len() {
                assert(after[a] == slots[a]);
            }
            if b < slots.len() {
                assert(after[b] == slots[b]);
            }
        }
    }
    let want = tree_of(slots).insert(slot.key@, slot.node.entry());
    let last = slots.len() as int;
    assert forall|key: Seq<char>| tree_of(after).contains_key(key) == want.contains_key(
        key,
    ) by {
        if has_key(after, key) {
            let a = slot_of(after, key);
            if a < last {
                assert(slots[a].key@ == key);
            }
        }
        if has_key(slots, key) {
            let a = slot_of(slots, key);
            assert(after[a].key@ == key);
        }
        if key == slot.key@ {
            assert(after[last].key@ == key);
        }
    }
    assert forall|key: Seq<char>| tree_of(after).contains_key(key) implies tree_of(after)[key]
        == want[key] by {
        let a = slot_of(after, key);
        lemma_slot_is_entry(after, a);
        if a < last {
            assert(slots[a].key@ == key);
            lemma_slot_is_entry(slots, a);
        }
    }
    assert(tree_of(after) =~= want);
}

/// Taking the slot at `i` out is a removal of its key.
proof fn lemma_take_out(slots: Seq<Slot>, i: int)
    requires
        keys_distinct(slots),
        0 <= i < slots.len(),
    ensures
        keys_distinct(slots.remove(i)),
        tree_of(slots.remove(i)) == tree_of(slots).remove(slots[i].key@),
{
    let after = slots.remove(i);
    assert forall|a: int| 0 <= a < after.len() implies #[trigger] after[a] == slots[if a < i {
        a
    } else {
        a + 1
    }] by {}
    assert(keys_distinct(after));
    let want = tree_of(slots).remove(slots[i].key@);
    assert forall|key: Seq<char>| tree_of(after).contains_key(key) == want.contains_key(
        key,
    ) by {
        if has_key(after, key) {
            let a = slot_of(after, key);
            let b = if a < i {
                a
            } else {
                a + 1
            };
            assert(after[a] == slots[b]);
            assert(slots[b].key@ == key);
        }
        if has_key(slots, key) && key != slots[i].key@ {
            let b = slot_of(slots, key);
            let a = if b < i {
                b
            } else {
                b - 1
            };
            assert(after[a] == slots[b]);
            assert(after[a].key@ == key);
        }
    }
    assert forall|key: Seq<char>| tree_of(after).contains_key(key) implies tree_of(after)[key]
        == want[key] by {
        let a = slot_of(after, key);
        let b = if a < i {
            a
        } else {
            a + 1
        };
        assert(after[a] == slots[b]);
        lemma_slot_is_entry(after, a);
        lemma_slot_is_entry(slots, b);
    }
    assert(tree_of(after) =~= want);
}

/// A copy of a byte slice.
pub fn copy_bytes(data: &[u8]) -> (out: Vec<u8>)
    ensures
        out@ == data@,
{
    let mut out: Vec<u8> = Vec::new();
    let mut i: usize = 0;
    while i < data.len()
        invariant
            i <= data@.len(),
            out@ == data@.subrange(0, i as int),
        decreases data@.len() - i,
    {
        out.push(data[i]);
        assert(data@.subrange(0, i as int).push(data@[i as int]) =~= data@.subrange(
            0,
            i + 1,
        ));
        i += 1;
    }
    assert(data@.subrange(0, i as int) =~= data@);
    out
}

/// Appends a byte slice to a vector.
pub fn extend_bytes(dst: &mut Vec<u8>, data: &[u8])
    ensures
        final(dst)@ == old(dst)@ + data@,
{
    let mut i: usize = 0;
    while i < data.len()
        invariant
            i <= data@.len(),
            dst@ == old(dst)@ + data@.subrange(0, i as int),
        decreases data@.len() - i,
    {
        dst.push(data[i]);
        assert((old(dst)@ + data@.subrange(0, i as int)).push(data@[i as int]) =~= old(dst)@
            + data@.subrange(0, i + 1));
        i += 1;
    }
    assert(data@.subrange(0, i as int) =~= data@);
}

/// A medium held in memory: a list of slots with distinct keys.
pub struct MemoryMedium {
    slots: Vec<Slot>,
}

impl MemoryMedium {
    #[verifier::type_invariant]
    spec fn distinct(&self) -> bool {
        keys_distinct(self.slots@)
    }

    /// An empty medium.
    pub fn new() -> (m: MemoryMedium)
        ensures
            m.tree() == Tree::empty(),
            m.reliable(),
    {
        let m = MemoryMedium { slots: Vec::new() };
        assert(tree_of(m.slots@) =~= Tree::empty());
        m
    }

    /// The number of keys in use.
    pub fn len(&self) -> (n: usize)
        ensures
            n == self.tree().len(),
            self.tree().dom().finite(),
    {
        proof {
            use_type_invariant(self);
            lemma_tree_size(self.slots@);
        }
        self.slots.len()
    }

    fn find(&self, key: &String) -> (r: Option<usize>)
        ensures
            r matches Some(i) ==> i < self.slots@.len() && self.slots@[i as int].key@ == key@,
            r is None ==> !has_key(self.slots@, key@),
    {
        position(&self.slots, key)
    }

    fn take_slots(&mut self) -> (slots: Vec<Slot>)
        ensures
            slots@ == old(self).slots@,
            keys_distinct(slots@),
            final(self).slots@ == Seq::<Slot>::empty(),
    {
        proof {
            use_type_invariant(&*self);
        }
        let mut slots: Vec<Slot> = Vec::new();
        std::mem::swap(&mut self.slots, &mut slots);
        slots
    }

    fn restore_slots(&mut self, slots: Vec<Slot>)
        requires
            keys_distinct(slots@),
        ensures
            final(self).slots@ == slots@,
    {
        let mut slots = slots;
        std::mem::swap(&mut self.slots, &mut slots);
    }
}

/// The position of the slot with `key`, if there is one.
fn position(slots: &Vec<Slot>, key: &String) -> (r: Option<usize>)
    ensures
        r matches Some(i) ==> i < slots@.len() && slots@[i as int].key@ == key@,
        r is None ==> !has_key(slots@, key@),
{
    let mut i: usize = 0;
    while i < slots.len()
        invariant
            i <= slots@.len(),
            forall|j: int| 0 <= j < i ==> (#[trigger] slots@[j]).key@ != key@,
        decreases slots@.len() - i,
    {
        if slots[i].key == *key {
            return Some(i);
        }
        i += 1;
    }
    None
}

/// Stores `slot`, in place of the slot with its key if there is one.
fn put(slots: &mut Vec<Slot>, slot: Slot)
    requires
        keys_distinct(old(slots)@),
    ensures
        keys_distinct(final(slots)@),
        tree_of(final(slots)@) == tree_of(old(slots)@).insert(slot.key@, slot.node.entry()),
{
    match position(slots, &slot.key) {
        None => {
            proof {
                lemma_add(slots@, slot);
            }
            slots.push(slot);
        },
        Some(i) => {
            proof {
                lemma_replace(slots@, i as int, slot);
            }
            slots[i] = slot;
        },
    }
}

/// Takes out the slot with `key` and returns what it held.
fn take(slots: &mut Vec<Slot>, key: &String) -> (node: Option<Node>)
    requires
        keys_distinct(old(slots)@),
    ensures
        keys_distinct(final(slots)@),
        tree_of(final(slots)@) == tree_of(old(slots)@).remove(key@),
        node is Some == tree_of(old(slots)@).contains_key(key@),
        node matches Some(n) ==> n.entry() == tree_of(old(slots)@)[key@],
{
    match position(slots, key) {
        None => {
            assert(tree_of(slots@).remove(key@) =~= tree_of(slots@));
            None
        },
        Some(i) => {
            proof {
                lemma_slot_is_entry(slots@, i as int);
                lemma_take_out(slots@, i as int);
            }
            let slot = slots.remove(i);
            Some(slot.node)
        },
    }
}

/// With distinct keys, the map has as many keys as there are slots.
pub proof fn lemma_tree_size(slots: Seq<Slot>)
    requires
        keys_distinct(slots),
    ensures
        tree_of(slots).dom().finite(),
        tree_of(slots).len() == slots.len(),
    decreases slots.len(),
{
    if slots.len() == 0 {
        assert(tree_of(slots) =~= Tree::empty());
    } else {
        let last = slots.len() - 1;
        let front = slots.drop_last();
        assert(keys_distinct(front)) by {
            assert forall|a: int, b: int|
                0 <= a < front.len() && 0 <= b < front.len() && a != b implies (
            #[trigger] front[a]).key@ != (#[trigger] front[b]).key@ by {
                assert(front[a] == slots[a]);
                assert(front[b] == slots[b]);
            }
        }
        lemma_tree_size(front);
        assert(!has_key(front, slots[last].key@)) by {
            if has_key(front, slots[last].key@) {
                let a = slot_of(front, slots[last].key@);
                assert(front[a] == slots[a]);
            }
        }
        lemma_add(front, slots[last]);
        assert(front.push(slots[last]) =~= slots);
        assert(!tree_of(front).dom().contains(slots[last].key@));
    }
}

impl Medium for MemoryMedium {
    closed spec fn tree(&self) -> Tree {
        tree_of(self.slots@)
    }

    open spec fn reliable(&self) -> bool {
        true
    }

    fn probe(&self, key: &String) -> (r: Result<Probe, Fault>) {
        proof {
            use_type_invariant(self);
        }
        match self.find(key) {
            None => Ok(Probe::Absent),
            Some(i) => {
                proof {
                    lemma_slot_is_entry(self.slots@, i as int);
                }
                match &self.slots[i].node {
                    Node::File(bytes) => Ok(Probe::File { size: bytes.len() as u64 }),
                    Node::Link(target) => Ok(Probe::Link { target: target.clone() }),
                }
            },
        }
    }

    fn read(&self, key: &String) -> (r: Result<Option<Vec<u8>>, Fault>) {
        proof {
            use_type_invariant(self);
        }
        match self.find(key) {
            None => Ok(None),
            Some(i) => {
                proof {
                    lemma_slot_is_entry(self.slots@, i as int);
                }
                match &self.slots[i].node {
                    Node::File(bytes) => Ok(Some(copy_bytes(bytes.as_slice()))),
                    Node::Link(_) => Ok(None),
                }
            },
        }
    }

    fn read_at(&self, key: &String, offset: u64, max: usize) -> (r: Result<Option<Vec<u8>>, Fault>) {
        proof {
            use_type_invariant(self);
        }
        match self.find(key) {
            None => Ok(None),
            Some(i) => {
                proof {
                    lemma_slot_is_entry(self.slots@, i as int);
                }
                match &self.slots[i].node {
                    Node::Link(_) => Ok(None),
                    Node::File(bytes) => {
                        if offset > bytes.len() as u64 {
                            return Ok(None);
                        }
                        let start = offset as usize;
                        let count = if max <= bytes.len() - start {
                            max
                        } else {
                            bytes.len() - start
                        };
                        let part = vstd::slice::slice_subrange(
                            bytes.as_slice(),
                            start,
                            start + count,
                        );
                        Ok(Some(copy_bytes(part)))
                    },
                }
            },
        }
    }

    fn write(&mut self, key: &String, data: &[u8]) -> (r: Result<(), Fault>) {
        let mut slots = self.take_slots();
        put(&mut slots, Slot { key: key.clone(), node: Node::File(copy_bytes(data)) });
        self.restore_slots(slots);
        Ok(())
    }

    fn append(&mut self, key: &String, data: &[u8]) -> (r: Result<Option<u64>, Fault>) {
        proof {
            use_type_invariant(&*self);
        }
        match self.find(key) {
            None => Ok(None),
            Some(i) => {
                proof {
                    lemma_slot_is_entry(self.slots@, i as int);
                }
                match &self.slots[i].node {
                    Node::Link(_) => Ok(None),
                    Node::File(bytes) => {
                        let mut grown = copy_bytes(bytes.as_slice());
                        extend_bytes(&mut grown, data);
                        let size = grown.len() as u64;
                        let mut slots = self.take_slots();
                        put(&mut slots, Slot { key: key.clone(), node: Node::File(grown) });
                        self.restore_slots(slots);
                        Ok(Some(size))
                    },
                }
            },
        }
    }

    fn copy(&mut self, from: &String, to: &String) -> (r: Result<bool, Fault>) {
        proof {
            use_type_invariant(&*self);
        }
        match self.find(from) {
            None => Ok(false),
            Some(i) => {
                proof {
                    lemma_slot_is_entry(self.slots@, i as int);
                }
                let node = match &self.slots[i].node {
                    Node::File(bytes) => Node::File(copy_bytes(bytes.as_slice())),
                    Node::Link(target) => Node::Link(target.clone()),
                };
                let mut slots = self.take_slots();
                put(&mut slots, Slot { key: to.clone(), node });
                self.restore_slots(slots);
                Ok(true)
            },
        }
    }

    fn remove(&mut self, key: &String) -> (r: Result<(), Fault>) {
        let mut slots = self.take_slots();
        let _ = take(&mut slots, key);
        self.restore_slots(slots);
        Ok(())
    }

    fn link(&mut self, alias: &String, target: &String) -> (r: Result<(), Fault>) {
        let mut slots = self.take_slots();
        put(&mut slots, Slot { key: alias.clone(), node: Node::Link(target.clone()) });
        self.restore_slots(slots);
        Ok(())
    }
}

impl FileMedium for MemoryMedium {
    fn rename(&mut self, from: &String, to: &String) -> (r: Result<bool, Fault>) {
        let mut slots = self.take_slots();
        let moved = match take(&mut slots, from) {
            None => false,
            Some(node) => {
                put(&mut slots, Slot { key: to.clone(), node });
                true
            },
        };
        self.restore_slots(slots);
        Ok(moved)
    }
}

} // verus!
