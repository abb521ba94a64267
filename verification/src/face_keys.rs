//! Faces by the set of their nodes.

use std::collections::HashMap;
use vstd::multiset::Multiset;
use vstd::prelude::*;

verus! {

broadcast use vstd::std_specs::hash::group_hash_axioms;

/// A sorted list with a node put in its place.
pub open spec fn inserted(sorted: Seq<usize>, node: usize) -> Seq<usize>
    decreases sorted.len(),
{
    if sorted.len() == 0 || sorted.last() <= node {
        sorted.push(node)
    } else {
        inserted(sorted.drop_last(), node).push(sorted.last())
    }
}

/// The nodes of a face in increasing order.
pub open spec fn face_key(nodes: Seq<usize>) -> Seq<usize>
    decreases nodes.len(),
{
    if nodes.len() == 0 {
        Seq::empty()
    } else {
        inserted(face_key(nodes.drop_last()), nodes.last())
    }
}

/// Whether nodes stand in increasing order.
pub open spec fn sorted(nodes: Seq<usize>) -> bool {
    forall|i: int, j: int| 0 <= i <= j < nodes.len() ==> nodes[i] <= nodes[j]
}

proof fn lemma_inserted(list: Seq<usize>, node: usize)
    requires
        sorted(list),
    ensures
        sorted(inserted(list, node)),
        inserted(list, node).to_multiset() == list.to_multiset().insert(node),
        inserted(list, node).len() == list.len() + 1,
        list.len() > 0 && list.last() > node ==> inserted(list, node).last() == list.last(),
    decreases list.len(),
{
    broadcast use vstd::seq_lib::group_to_multiset_ensures;

    if list.len() == 0 || list.last() <= node {
        assert(list.push(node).to_multiset() =~= list.to_multiset().insert(node));
    } else {
        let head = list.drop_last();
        lemma_inserted(head, node);
        let grown = inserted(head, node);
        let out = grown.push(list.last());
        assert(list =~= head.push(list.last()));
        assert(out.to_multiset() =~= list.to_multiset().insert(node));
        assert forall|i: int| 0 <= i < grown.len() implies grown[i] <= list.last() by {
            assert(grown.to_multiset().count(grown[i]) > 0);
            if grown[i] != node {
                assert(head.to_multiset().count(grown[i]) > 0);
                assert(head.contains(grown[i]));
            }
        }
    }
}

/// A key holds the nodes of its face in increasing order.
pub proof fn key_is_sorted(nodes: Seq<usize>)
    ensures
        sorted(face_key(nodes)),
        face_key(nodes).to_multiset() == nodes.to_multiset(),
        face_key(nodes).len() == nodes.len(),
    decreases nodes.len(),
{
    broadcast use vstd::seq_lib::group_to_multiset_ensures;

    if nodes.len() > 0 {
        key_is_sorted(nodes.drop_last());
        lemma_inserted(face_key(nodes.drop_last()), nodes.last());
        assert(nodes =~= nodes.drop_last().push(nodes.last()));
    }
}

proof fn lemma_sorted_unique(a: Seq<usize>, b: Seq<usize>)
    requires
        sorted(a),
        sorted(b),
        a.to_multiset() == b.to_multiset(),
    ensures
        a == b,
    decreases a.len(),
{
    broadcast use vstd::seq_lib::group_to_multiset_ensures;

    assert(a.len() == a.to_multiset().len());
    assert(b.len() == b.to_multiset().len());
    if a.len() == 0 {
        assert(a =~= b);
    } else {
        assert(a.to_multiset().count(a.last()) > 0);
        assert(b.contains(a.last()));
        assert(b.to_multiset().count(b.last()) > 0);
        assert(a.contains(b.last()));
        assert(a.last() == b.last());
        let x = a.drop_last();
        let y = b.drop_last();
        assert(a =~= x.push(a.last()));
        assert(b =~= y.push(b.last()));
        assert(x.to_multiset() =~= a.to_multiset().remove(a.last()));
        assert(y.to_multiset() =~= b.to_multiset().remove(b.last()));
        lemma_sorted_unique(x, y);
        assert(a =~= b);
    }
}

/// Two faces have one key exactly when they have the same nodes, in whatever
/// order.
pub proof fn same_key_iff_same_nodes(left: Seq<usize>, right: Seq<usize>)
    ensures
        face_key(left) == face_key(right) <==> left.to_multiset() == right.to_multiset(),
{
    key_is_sorted(left);
    key_is_sorted(right);
    if left.to_multiset() == right.to_multiset() {
        lemma_sorted_unique(face_key(left), face_key(right));
    }
}

/// The key of a face: its nodes in increasing order.
pub fn key_from_nodes(nodes: &[usize]) -> (key: Vec<usize>)
    ensures
        key@ == face_key(nodes@),
{
    let mut key: Vec<usize> = Vec::new();
    let mut at: usize = 0;
    assert(key@ =~= face_key(nodes@.take(0)));
    while at < nodes.len()
        invariant
            at <= nodes@.len(),
            key@ == face_key(nodes@.take(at as int)),
        decreases nodes@.len() - at,
    {
        assert(nodes@.take(at + 1).drop_last() =~= nodes@.take(at as int));
        let node: usize = nodes[at];
        let ghost before = key@;
        let mut place: usize = key.len();
        let ghost mut tail: Seq<usize> = Seq::empty();
        assert(before.take(place as int) =~= before);
        assert(inserted(before, node) =~= inserted(before.take(place as int), node) + tail);
        while place > 0 && key[place - 1] > node
            invariant
                place <= before.len(),
                key@ == before,
                tail == before.skip(place as int),
                inserted(before, node) == inserted(before.take(place as int), node) + tail,
            decreases place,
        {
            proof {
                let part = before.take(place as int);
                assert(part.drop_last() =~= before.take(place - 1));
                assert(part.last() == before[place - 1]);
                let last = part.last();
                let shorter = inserted(before.take(place - 1), node);
                assert(before.skip(place - 1) =~= seq![last] + tail);
                assert(shorter.push(last) + tail =~= shorter + (seq![last] + tail));
                tail = before.skip(place - 1);
            }
            place -= 1;
        }
        key.insert(place, node);
        assert(key@ =~= before.take(place as int).push(node) + tail);
        at += 1;
    }
    assert(nodes@.take(at as int) =~= nodes@);
    key
}

/// A list of keys, none of which occurs twice, in the order in which they
/// came.
#[derive(Debug)]
pub struct KeyIndex {
    keys: Vec<Vec<usize>>,
    buckets: HashMap<usize, Vec<usize>>,
}

/// The bucket of a key: its smallest node.
spec fn bucket(key: Seq<usize>) -> usize {
    if key.len() == 0 {
        0
    } else {
        key[0]
    }
}

/// The keys of a list.
pub open spec fn key_views(keys: Seq<Vec<usize>>) -> Seq<Seq<usize>> {
    Seq::new(keys.len(), |i: int| keys[i]@)
}

/// Whether no key occurs twice.
pub open spec fn distinct(keys: Seq<Seq<usize>>) -> bool {
    forall|i: int, j: int| 0 <= i < j < keys.len() ==> keys[i] != keys[j]
}

/// The first place from `at` on of a key.
pub open spec fn place_from(keys: Seq<Seq<usize>>, key: Seq<usize>, at: int) -> Option<int>
    decreases keys.len() - at,
{
    if at >= keys.len() {
        None
    } else if keys[at] == key {
        Some(at)
    } else {
        place_from(keys, key, at + 1)
    }
}

/// The place of a key.
pub open spec fn place_of(keys: Seq<Seq<usize>>, key: Seq<usize>) -> Option<int> {
    place_from(keys, key, 0)
}

/// Where a key stands is its first place, if no key occurs twice.
pub proof fn lemma_place_is(keys: Seq<Seq<usize>>, key: Seq<usize>, at: int, place: int)
    requires
        distinct(keys),
        0 <= at <= place < keys.len(),
        keys[place] == key,
    ensures
        place_from(keys, key, at) == Some(place),
    decreases keys.len() - at,
{
    if at < place {
        lemma_place_is(keys, key, at + 1, place);
    }
}

/// A key that stands nowhere has no place.
pub proof fn lemma_no_place(keys: Seq<Seq<usize>>, key: Seq<usize>, at: int)
    requires
        0 <= at,
        forall|i: int| at <= i < keys.len() ==> #[trigger] keys[i] != key,
    ensures
        place_from(keys, key, at) is None,
    decreases keys.len() - at,
{
    if at < keys.len() {
        lemma_no_place(keys, key, at + 1);
    }
}

/// The place of a key is where it stands.
pub proof fn lemma_place_holds(keys: Seq<Seq<usize>>, key: Seq<usize>, at: int)
    requires
        0 <= at,
    ensures
        match place_from(keys, key, at) {
            Some(place) => at <= place < keys.len() && keys[place] == key,
            None => forall|i: int| at <= i < keys.len() ==> #[trigger] keys[i] != key,
        },
    decreases keys.len() - at,
{
    if at < keys.len() && keys[at] != key {
        lemma_place_holds(keys, key, at + 1);
    }
}

impl View for KeyIndex {
    type V = Seq<Seq<usize>>;

    closed spec fn view(&self) -> Seq<Seq<usize>> {
        key_views(self.keys@)
    }
}

fn same_nodes(left: &Vec<usize>, right: &Vec<usize>) -> (same: bool)
    ensures
        same == (left@ == right@),
{
    if left.len() != right.len() {
        return false;
    }
    let mut i: usize = 0;
    while i < left.len()
        invariant
            i <= left@.len(),
            left@.len() == right@.len(),
            forall|k: int| 0 <= k < i ==> left@[k] == right@[k],
        decreases left@.len() - i,
    {
        if left[i] != right[i] {
            return false;
        }
        i += 1;
    }
    assert(left@ =~= right@);
    true
}

fn bucket_of(key: &Vec<usize>) -> (node: usize)
    ensures
        node == bucket(key@),
{
    if key.len() == 0 {
        0
    } else {
        key[0]
    }
}

impl KeyIndex {
    /// Every key stands in its bucket, and every bucket holds places of keys
    /// of its own.
    pub closed spec fn valid(&self) -> bool {
        &&& distinct(self@)
        &&& forall|i: int|
            0 <= i < self.keys@.len() ==> self.buckets@.contains_key(
                bucket((#[trigger] self.keys@[i])@),
            ) && self.buckets@[bucket(self.keys@[i]@)]@.contains(i as usize)
        &&& forall|b: usize, k: int|
            self.buckets@.contains_key(b) && 0 <= k < self.buckets@[b]@.len() ==> (
            #[trigger] self.buckets@[b]@[k]) < self.keys@.len()
    }

    /// A list without keys.
    pub fn new() -> (index: KeyIndex)
        ensures
            index@ == Seq::<Seq<usize>>::empty(),
            index.valid(),
    {
        let index = KeyIndex { keys: Vec::new(), buckets: HashMap::new() };
        assert(index@ =~= Seq::empty());
        index
    }

    /// The number of keys.
    pub fn len(&self) -> (count: usize)
        ensures
            count == self@.len(),
    {
        self.keys.len()
    }

    /// The key at a place.
    pub fn key(&self, place: usize) -> (key: &Vec<usize>)
        requires
            place < self@.len(),
        ensures
            key@ == self@[place as int],
    {
        &self.keys[place]
    }

    /// The place of a key.
    pub fn find(&self, key: &Vec<usize>) -> (place: Option<usize>)
        requires
            self.valid(),
        ensures
            match place {
                Some(found) => found < self@.len() && place_of(self@, key@) == Some(found as int),
                None => place_of(self@, key@) is None,
            },
            distinct(self@),
    {
        let count: usize = self.keys.len();
        let node: usize = bucket_of(key);
        match self.buckets.get(&node) {
            None => {
                proof {
                    assert forall|i: int| 0 <= i < self@.len() implies #[trigger] self@[i] != key@ by {
                        assert(self@[i] == self.keys@[i]@);
                    }
                    lemma_no_place(self@, key@, 0);
                }
                None
            },
            Some(places) => {
                assert(*places == self.buckets@[node]);
                let mut k: usize = 0;
                while k < places.len()
                    invariant
                        k <= places@.len(),
                        self.buckets@.contains_key(node),
                        *places == self.buckets@[node],
                        self.valid(),
                        node == bucket(key@),
                        count == self.keys@.len(),
                        forall|m: int|
                            0 <= m < k ==> self@[#[trigger] places@[m] as int] != key@,
                    decreases places@.len() - k,
                {
                    let place: usize = places[k];
                    assert(self.buckets@[node]@[k as int] < self.keys@.len());
                    if same_nodes(&self.keys[place], key) {
                        proof {
                            assert(self@[place as int] == key@);
                            lemma_place_is(self@, key@, 0, place as int);
                        }
                        return Some(place);
                    }
                    assert(self@[places@[k as int] as int] != key@);
                    k += 1;
                }
                proof {
                    assert forall|i: int| 0 <= i < self@.len() implies #[trigger] self@[i] != key@ by {
                        if self@[i] == key@ {
                            assert(self.keys@[i]@ == key@);
                            assert(places@.contains(i as usize));
                            let m = choose|m: int| 0 <= m < places@.len() && places@[m] == i as usize;
                            assert(self@[places@[m] as int] != key@);
                        }
                    }
                    lemma_no_place(self@, key@, 0);
                }
                None
            },
        }
    }

    /// Adds a key that the list does not hold.
    pub fn push(&mut self, key: Vec<usize>)
        requires
            old(self).valid(),
            place_of(old(self)@, key@) is None,
        ensures
            final(self)@ == old(self)@.push(key@),
            final(self).valid(),
    {
        proof {
            lemma_place_holds(self@, key@, 0);
        }
        let ghost before = self@;
        let ghost old_keys = self.keys@;
        let ghost old_buckets = self.buckets@;
        let node: usize = bucket_of(&key);
        let place: usize = self.keys.len();
        let ghost added = key@;
        let mut places: Vec<usize> = match self.buckets.remove(&node) {
            Some(found) => found,
            None => Vec::new(),
        };
        let ghost old_places = places@;
        places.push(place);
        let ghost new_places = places;
        self.buckets.insert(node, places);
        self.keys.push(key);
        proof {
            let keys = self.keys@;
            let buckets = self.buckets@;
            assert(key_views(keys) =~= before.push(added));
            assert(buckets =~= old_buckets.insert(node, new_places));
            assert forall|i: int| 0 <= i < keys.len() implies buckets.contains_key(
                bucket((#[trigger] keys[i])@),
            ) && buckets[bucket(keys[i]@)]@.contains(i as usize) by {
                if i < old_keys.len() {
                    assert(keys[i] == old_keys[i]);
                    assert(old_buckets[bucket(old_keys[i]@)]@.contains(i as usize));
                    if bucket(keys[i]@) == node {
                        assert(old_places.contains(i as usize));
                        let m = choose|m: int|
                            0 <= m < old_places.len() && old_places[m] == i as usize;
                        assert(new_places@[m] == i as usize);
                    }
                } else {
                    assert(new_places@[old_places.len() as int] == i as usize);
                }
            }
            assert forall|b: usize, k: int|
                buckets.contains_key(b) && 0 <= k < buckets[b]@.len() implies (
            #[trigger] buckets[b]@[k]) < keys.len() by {
                if b == node {
                    if k < old_places.len() {
                        assert(new_places@[k] == old_places[k]);
                    }
                } else {
                    assert(old_buckets[b]@[k] < old_keys.len());
                }
            }
        }
    }
}

} // verus!
