//! The type registry: which wire id each message type travels under.
use vstd::prelude::*;
use std::any::TypeId;
use std::collections::hash_map::DefaultHasher;
use std::hash::{Hash, Hasher};

verus! {

#[verifier::external_type_specification]
#[verifier::external_body]
pub struct ExTypeId(TypeId);

/// Relies on `TypeId`'s `==`, which compares the whole value.
#[verifier::external_body]
fn same_type(a: &TypeId, b: &TypeId) -> (r: bool)
    ensures
        r == (*a == *b),
{
    *a == *b
}

/// Relies on `TypeId`'s `Hash` impl, which feeds the type's identity to the
/// hasher; what it writes is not documented, so nothing is stated of it.
#[verifier::external_body]
fn feed_type(key: &TypeId, state: &mut DefaultHasher) {
    key.hash(state)
}

/// Maps each message type that has been used or configured to its wire id.
///
/// An id is assigned on first use, from a hash of the type's identity, or set
/// explicitly; once there it changes only through `set_id`.
pub struct TypeRegistry {
    entries: Vec<(TypeId, u64)>,
    model: Ghost<Map<TypeId, u64>>,
}

impl TypeRegistry {
    /// The ids assigned so far.
    pub closed spec fn ids(&self) -> Map<TypeId, u64> {
        self.model@
    }

    /// Each type has one entry, and the entries are exactly the model.
    pub closed spec fn wf(&self) -> bool {
        &&& forall|i: int|
            0 <= i < self.entries@.len() ==> {
                &&& #[trigger] self.model@.contains_key(self.entries@[i].0)
                &&& self.model@[self.entries@[i].0] == self.entries@[i].1
            }
        &&& forall|k: TypeId|
            #[trigger] self.model@.contains_key(k) ==> exists|i: int|
                0 <= i < self.entries@.len() && #[trigger] self.entries@[i].0 == k
        &&& forall|i: int, j: int|
            0 <= i < self.entries@.len() && 0 <= j < self.entries@.len() && i != j
                ==> #[trigger] self.entries@[i].0 != #[trigger] self.entries@[j].0
    }

    /// A registry with no ids.
    pub fn new() -> (r: Self)
        ensures
            r.wf(),
            r.ids() == Map::<TypeId, u64>::empty(),
    {
        TypeRegistry { entries: Vec::new(), model: Ghost(Map::empty()) }
    }

    /// The position of `key`'s entry, if it has one.
    fn find(&self, key: &TypeId) -> (r: Option<usize>)
        requires
            self.wf(),
        ensures
            match r {
                Some(i) => i < self.entries@.len() && self.entries@[i as int].0 == *key,
                None => !self.ids().contains_key(*key),
            },
    {
        let mut i: usize = 0;
        while i < self.entries.len()
            invariant
                0 <= i <= self.entries@.len(),
                forall|j: int| 0 <= j < i ==> self.entries@[j].0 != *key,
            decreases self.entries@.len() - i,
        {
            if same_type(&self.entries[i].0, key) {
                return Some(i);
            }
            i = i + 1;
        }
        None
    }

    /// The automatic id of a type: a hash of its identity with std's
    /// `DefaultHasher`. Equal within one build; not promised across builds.
    fn calculate_hash(key: &TypeId) -> u64 {
        let mut hasher = DefaultHasher::new();
        feed_type(key, &mut hasher);
        hasher.finish()
    }

    /// The wire id of `key`: the one it has, or else a newly computed
    /// automatic id, which is recorded.
    pub fn get_id(&mut self, key: TypeId) -> (r: u64)
        requires
            old(self).wf(),
        ensures
            final(self).wf(),
            old(self).ids().contains_key(key) ==> r == old(self).ids()[key]
                && final(self).ids() == old(self).ids(),
            !old(self).ids().contains_key(key) ==> final(self).ids()
                == old(self).ids().insert(key, r),
    {
        match self.find(&key) {
            Some(i) => self.entries[i].1,
            None => {
                let id = Self::calculate_hash(&key);
                let ghost before = self.entries@;
                self.entries.push((key, id));
                self.model = Ghost(self.model@.insert(key, id));
                assert forall|k: TypeId| #[trigger] self.model@.contains_key(k) implies exists|
                    i: int,
                |
                    0 <= i < self.entries@.len() && #[trigger] self.entries@[i].0 == k by {
                    if k != key {
                        let i = choose|i: int|
                            0 <= i < before.len() && #[trigger] before[i].0 == k;
                        assert(self.entries@[i].0 == k);
                    } else {
                        assert(self.entries@[before.len() as int].0 == k);
                    }
                }
                id
            },
        }
    }

    /// Makes `id` the wire id of `key`, in place of any it had.
    pub fn set_id(&mut self, key: TypeId, id: u64)
        requires
            old(self).wf(),
        ensures
            final(self).wf(),
            final(self).ids() == old(self).ids().insert(key, id),
    {
        let ghost before = self.entries@;
        match self.find(&key) {
            Some(i) => {
                self.entries.set(i, (key, id));
                self.model = Ghost(self.model@.insert(key, id));
                assert forall|k: TypeId| #[trigger] self.model@.contains_key(k) implies exists|
                    j: int,
                |
                    0 <= j < self.entries@.len() && #[trigger] self.entries@[j].0 == k by {
                    let j = choose|j: int| 0 <= j < before.len() && #[trigger] before[j].0 == k;
                    assert(self.entries@[j].0 == k);
                }
            },
            None => {
                self.entries.push((key, id));
                self.model = Ghost(self.model@.insert(key, id));
                assert forall|k: TypeId| #[trigger] self.model@.contains_key(k) implies exists|
                    j: int,
                |
                    0 <= j < self.entries@.len() && #[trigger] self.entries@[j].0 == k by {
                    if k != key {
                        let j = choose|j: int| 0 <= j < before.len() && #[trigger] before[j].0 == k;
                        assert(self.entries@[j].0 == k);
                    } else {
                        assert(self.entries@[before.len() as int].0 == k);
                    }
                }
            },
        }
    }
}

} // verus!
