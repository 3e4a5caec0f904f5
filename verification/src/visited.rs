//! The set of the canonical keys that a crawl has admitted.

use crate::identity::{
    key_before, lemma_key_transitive, lemma_key_trichotomy, PartialUrl, PartialUrlView,
};
use vstd::prelude::*;

verus! {

/// The views of a list of keys.
pub open spec fn keys_view(keys: Seq<PartialUrl>) -> Seq<PartialUrlView> {
    keys.map_values(|key: PartialUrl| key@)
}

/// Every key of the list comes strictly before every later one. Such a list
/// holds no key twice.
pub open spec fn ascending(keys: Seq<PartialUrlView>) -> bool {
    forall|i: int, j: int| 0 <= i < j < keys.len() ==> key_before(keys[i], keys[j])
}

/// In an ascending list no key occurs twice.
pub proof fn lemma_ascending_has_no_duplicates(keys: Seq<PartialUrlView>)
    requires
        ascending(keys),
    ensures
        keys.no_duplicates(),
{
    assert forall|i: int, j: int| 0 <= i < keys.len() && 0 <= j < keys.len() && i != j implies keys[i]
        != keys[j] by {
        lemma_key_trichotomy(keys[i], keys[j]);
    }
}

/// Where `key` would stand in the ascending list `keys`: every key before
/// that place comes before `key`, and no key from that place on does.
pub open spec fn is_place_of(keys: Seq<PartialUrlView>, key: PartialUrlView, place: int) -> bool {
    &&& 0 <= place <= keys.len()
    &&& forall|i: int| 0 <= i < place ==> key_before(#[trigger] keys[i], key)
    &&& forall|i: int| place <= i < keys.len() ==> !key_before(#[trigger] keys[i], key)
}

/// In an ascending list a key can only be found at its place.
pub proof fn lemma_found_at_its_place(keys: Seq<PartialUrlView>, key: PartialUrlView, place: int)
    requires
        ascending(keys),
        is_place_of(keys, key, place),
    ensures
        keys.contains(key) <==> place < keys.len() && keys[place] == key,
{
    if keys.contains(key) {
        let j = choose|j: int| 0 <= j < keys.len() && keys[j] == key;
        lemma_key_trichotomy(keys[j], key);
    }
}

/// Putting a key that the ascending list does not hold at its place keeps
/// the list ascending, and adds just that key.
pub proof fn lemma_insert_at_its_place(keys: Seq<PartialUrlView>, key: PartialUrlView, place: int)
    requires
        ascending(keys),
        is_place_of(keys, key, place),
        !keys.contains(key),
    ensures
        ascending(keys.insert(place, key)),
        keys.insert(place, key).to_set() == keys.to_set().insert(key),
{
    let longer = keys.insert(place, key);
    assert forall|i: int, j: int| 0 <= i < j < longer.len() implies key_before(
        longer[i],
        longer[j],
    ) by {
        if j == place {
            assert(longer[i] == keys[i]);
        } else if i == place {
            assert(longer[j] == keys[j - 1]);
            assert(keys.contains(keys[j - 1]));
            lemma_key_trichotomy(keys[j - 1], key);
        } else {
            let a = if i < place { i } else { i - 1 };
            let b = if j < place { j } else { j - 1 };
            assert(longer[i] == keys[a] && longer[j] == keys[b]);
        }
    }
    assert forall|k: PartialUrlView| longer.to_set().contains(k) <==> keys.to_set().insert(
        key,
    ).contains(k) by {
        if longer.contains(k) {
            let i = choose|i: int| 0 <= i < longer.len() && longer[i] == k;
            if i < place {
                assert(keys[i] == k);
            } else if i > place {
                assert(keys[i - 1] == k);
            }
        }
        if keys.contains(k) {
            let i = choose|i: int| 0 <= i < keys.len() && keys[i] == k;
            if i < place {
                assert(longer[i] == k);
            } else {
                assert(longer[i + 1] == k);
            }
        }
        if k == key {
            assert(longer[place] == k);
        }
    }
}

/// The canonical keys of the pages admitted so far, each held once.
pub struct VisitedSet {
    keys: Vec<PartialUrl>,
}

impl View for VisitedSet {
    type V = Set<PartialUrlView>;

    /// The keys in the set.
    open spec fn view(&self) -> Set<PartialUrlView> {
        self.keys().to_set()
    }
}

/// A well-formed set holds no key twice, and as many keys as it has members.
pub proof fn lemma_visited_holds_no_key_twice(visited: VisitedSet)
    requires
        visited.wf(),
    ensures
        visited.keys().no_duplicates(),
        visited@.finite(),
        visited@.len() == visited.keys().len(),
{
    lemma_ascending_has_no_duplicates(visited.keys());
    visited.keys().unique_seq_to_set();
}

impl VisitedSet {
    /// The keys as the set holds them, one after the other.
    pub closed spec fn keys(&self) -> Seq<PartialUrlView> {
        keys_view(self.keys@)
    }

    /// The set is well formed: its keys are held in ascending order.
    pub open spec fn wf(&self) -> bool {
        ascending(self.keys())
    }

    /// The empty set.
    pub fn new() -> (visited: VisitedSet)
        ensures
            visited.wf(),
            visited@ == Set::<PartialUrlView>::empty(),
    {
        VisitedSet { keys: Vec::new() }
    }

    /// How many keys the set holds.
    pub fn len(&self) -> (count: usize)
        requires
            self.wf(),
        ensures
            self@.finite(),
            count == self@.len(),
    {
        proof {
            lemma_visited_holds_no_key_twice(*self);
        }
        self.keys.len()
    }

    /// The place of `key` among the keys.
    fn place_of(&self, key: &PartialUrl) -> (place: usize)
        requires
            self.wf(),
        ensures
            is_place_of(keys_view(self.keys@), key@, place as int),
    {
        let ghost keys = keys_view(self.keys@);
        let mut low: usize = 0;
        let mut high: usize = self.keys.len();
        while low < high
            invariant
                low <= high <= self.keys.len(),
                keys == keys_view(self.keys@),
                ascending(keys),
                forall|i: int| 0 <= i < low ==> key_before(#[trigger] keys[i], key@),
                forall|i: int| high <= i < keys.len() ==> !key_before(#[trigger] keys[i], key@),
            decreases high - low,
        {
            let middle: usize = low + (high - low) / 2;
            if self.keys[middle].comes_before(key) {
                assert forall|i: int| 0 <= i < middle + 1 implies key_before(
                    #[trigger] keys[i],
                    key@,
                ) by {
                    if i < middle {
                        lemma_key_transitive(keys[i], keys[middle as int], key@);
                    }
                }
                low = middle + 1;
            } else {
                assert forall|i: int| middle <= i < keys.len() implies !key_before(
                    #[trigger] keys[i],
                    key@,
                ) by {
                    if middle < i && key_before(keys[i], key@) {
                        lemma_key_transitive(keys[middle as int], keys[i], key@);
                    }
                }
                high = middle;
            }
        }
        low
    }

    /// Whether the set holds `key`.
    pub fn contains(&self, key: &PartialUrl) -> (found: bool)
        requires
            self.wf(),
        ensures
            found == self@.contains(key@),
    {
        let place: usize = self.place_of(key);
        proof {
            lemma_found_at_its_place(keys_view(self.keys@), key@, place as int);
        }
        place < self.keys.len() && self.keys[place] == *key
    }

    /// Adds `key`, unless the set holds it already. Says whether it was
    /// added.
    pub fn insert(&mut self, key: PartialUrl) -> (added: bool)
        requires
            old(self).wf(),
        ensures
            final(self).wf(),
            added == !old(self)@.contains(key@),
            final(self)@ == old(self)@.insert(key@),
    {
        let ghost keys = keys_view(self.keys@);
        let place: usize = self.place_of(&key);
        proof {
            lemma_found_at_its_place(keys, key@, place as int);
        }
        if place < self.keys.len() && self.keys[place] == key {
            false
        } else {
            proof {
                lemma_insert_at_its_place(keys, key@, place as int);
            }
            self.keys.insert(place, key);
            assert(keys_view(self.keys@) =~= keys.insert(place as int, key@));
            true
        }
    }
}

} // verus!
