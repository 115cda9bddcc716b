//! The collection store: the one authoritative mapping from collection id to
//! its ordered list of recipe ids. Readers borrow it shared, writers borrow
//! it exclusively, so a reader sees a whole state, before or after a
//! mutation, never part of one.
use vstd::prelude::*;
use crate::fixture::Environment;
use crate::policy::{added, appended_dedup, retained_without, strs, without};

verus! {

/// Why a store operation was refused.
#[derive(Clone, Copy, Debug, PartialEq, Eq, Structural)]
pub enum StoreError {
    /// The list of recipe ids to add or remove was empty.
    ClientInput,
    /// No collection has the given id.
    NotFound,
}

/// A change to one collection.
#[derive(Debug)]
pub enum Mutation {
    /// Append these ids, then collapse adjacent duplicates.
    Add(Vec<String>),
    /// Drop every occurrence of these ids.
    Remove(Vec<String>),
}

impl Mutation {
    /// What the mutation makes of a collection's contents.
    pub open spec fn applied_to(self, s: Seq<Seq<char>>) -> Seq<Seq<char>> {
        match self {
            Mutation::Add(v) => added(s, strs(v@)),
            Mutation::Remove(v) => without(s, strs(v@)),
        }
    }
}

/// The store, with the profile that seeded it.
pub struct MutableStaticData {
    env: Environment,
    collections: Vec<(String, Vec<String>)>,
}

impl View for MutableStaticData {
    type V = Map<Seq<char>, Seq<Seq<char>>>;

    /// Each collection id to the recipe ids that its collection holds.
    closed spec fn view(&self) -> Map<Seq<char>, Seq<Seq<char>>> {
        Map::new(
            |k: Seq<char>| self.keys().contains(k),
            |k: Seq<char>| strs(self.collections@[self.key_index(k)].1@),
        )
    }
}

impl MutableStaticData {
    /// The collection ids, in the order they are kept.
    closed spec fn keys(&self) -> Seq<Seq<char>> {
        self.collections@.map_values(|e: (String, Vec<String>)| e.0@)
    }

    closed spec fn key_index(&self, k: Seq<char>) -> int {
        choose|j: int| 0 <= j < self.keys().len() && self.keys()[j] == k
    }

    /// No collection id occurs twice.
    pub closed spec fn wf(&self) -> bool {
        self.keys().no_duplicates()
    }

    /// The profile that the store was seeded from.
    pub closed spec fn profile(&self) -> Environment {
        self.env
    }

    proof fn lemma_view_at(&self, i: int)
        requires
            self.wf(),
            0 <= i < self.collections@.len(),
        ensures
            self@.contains_key(self.collections@[i].0@),
            self@[self.collections@[i].0@] == strs(self.collections@[i].1@),
    {
        let k = self.collections@[i].0@;
        assert(self.keys()[i] == k);
        assert(self.keys().contains(k));
        let j = self.key_index(k);
        assert(self.keys()[j] == k);
    }

    proof fn lemma_view_key(&self, k: Seq<char>)
        requires
            self@.contains_key(k),
        ensures
            0 <= self.key_index(k) < self.collections@.len(),
            self.collections@[self.key_index(k)].0@ == k,
            self@[k] == strs(self.collections@[self.key_index(k)].1@),
    {
        assert(self.keys().contains(k));
        let j = self.key_index(k);
        assert(self.keys()[j] == self.collections@[j].0@);
    }

    proof fn lemma_view_absent(&self, k: Seq<char>)
        requires
            forall|j: int| 0 <= j < self.collections@.len() ==> self.collections@[j].0@ != k,
        ensures
            !self@.contains_key(k),
    {
        if self.keys().contains(k) {
            let j = choose|j: int| 0 <= j < self.keys().len() && self.keys()[j] == k;
            assert(self.collections@[j].0@ == k);
        }
    }

    /// A store of the given profile that holds no collection.
    pub fn empty(env: Environment) -> (r: MutableStaticData)
        ensures
            r.wf(),
            r.profile() == env,
            r@ == Map::<Seq<char>, Seq<Seq<char>>>::empty(),
    {
        let r = MutableStaticData { env, collections: Vec::new() };
        assert(r@ =~= Map::<Seq<char>, Seq<Seq<char>>>::empty());
        r
    }

    /// The profile that the store was seeded from.
    pub fn env(&self) -> (r: Environment)
        ensures
            r == self.profile(),
    {
        self.env
    }

    /// Where the collection `id` is kept, if there is one.
    fn find(&self, id: &str) -> (r: Option<usize>)
        requires
            self.wf(),
        ensures
            match r {
                Some(i) => i < self.collections@.len() && self.collections@[i as int].0@ == id@,
                None => !self@.contains_key(id@),
            },
    {
        let key = id.to_string();
        let mut i: usize = 0;
        while i < self.collections.len()
            invariant
                key@ == id@,
                i <= self.collections@.len(),
                forall|j: int| 0 <= j < i ==> self.collections@[j].0@ != id@,
            decreases self.collections.len() - i,
        {
            if self.collections[i].0 == key {
                return Some(i);
            }
            i += 1;
        }
        proof {
            self.lemma_view_absent(id@);
        }
        None
    }

    /// The number of collections.
    pub fn collection_count(&self) -> (r: usize)
        requires
            self.wf(),
        ensures
            r == self@.dom().len(),
    {
        proof {
            assert(self@.dom() =~= self.keys().to_set());
            self.keys().unique_seq_to_set();
        }
        self.collections.len()
    }

    /// A read-only view of the whole collection `collection_id`, or `None`
    /// where no such collection was seeded.
    pub fn get(&self, collection_id: &str) -> (r: Option<&Vec<String>>)
        requires
            self.wf(),
        ensures
            match r {
                Some(v) => self@.contains_key(collection_id@) && strs(v@) == self@[collection_id@],
                None => !self@.contains_key(collection_id@),
            },
    {
        match self.find(collection_id) {
            Some(i) => {
                proof {
                    self.lemma_view_at(i as int);
                }
                Some(&self.collections[i].1)
            },
            None => None,
        }
    }

    /// Gives the collection `id` the contents `recipes`: a new collection
    /// where none had that id, else a replacement of the old contents.
    pub fn insert_collection(&mut self, id: String, recipes: Vec<String>)
        requires
            old(self).wf(),
        ensures
            final(self).wf(),
            final(self).profile() == old(self).profile(),
            final(self)@ == old(self)@.insert(id@, strs(recipes@)),
    {
        let ghost before = *self;
        match self.find(id.as_str()) {
            Some(i) => {
                self.collections.set(i, (id, recipes));
                proof {
                    self.lemma_replaced(before, i as int);
                }
            },
            None => {
                let ghost k = id@;
                self.collections.push((id, recipes));
                proof {
                    let n = before.collections@.len() as int;
                    assert(self.keys() =~= before.keys().push(k));
                    assert(!before.keys().contains(k)) by {
                        if before.keys().contains(k) {
                            let j = choose|j: int| 0 <= j < before.keys().len() && before.keys()[j] == k;
                            assert(before.keys()[j] == before.collections@[j].0@);
                            before.lemma_view_at(j);
                        }
                    }
                    assert(self.wf()) by {
                        assert forall|a: int, b: int|
                            0 <= a < self.keys().len() && 0 <= b < self.keys().len() && a != b
                                implies self.keys()[a] != self.keys()[b] by {
                            if a < n && b < n {
                                assert(before.keys()[a] != before.keys()[b]);
                            } else if a == n {
                                assert(before.keys().contains(self.keys()[b]) || b == n);
                            } else {
                                assert(before.keys().contains(self.keys()[a]) || a == n);
                            }
                        }
                    }
                    let v = strs(self.collections@[n].1@);
                    assert(self.keys()[n] == k);
                    self.lemma_view_at(n);
                    assert forall|k2: Seq<char>| #[trigger] self@.contains_key(k2) implies before@.insert(
                        k,
                        v,
                    ).contains_key(k2) && self@[k2] == before@.insert(k, v)[k2] by {
                        self.lemma_view_key(k2);
                        let j = self.key_index(k2);
                        if j != n {
                            assert(before.keys()[j] == k2);
                            before.lemma_view_at(j);
                        }
                    }
                    assert forall|k2: Seq<char>| #[trigger] before@.insert(k, v).contains_key(k2) implies self@.contains_key(k2) by {
                        if k2 != k {
                            before.lemma_view_key(k2);
                            let j = before.key_index(k2);
                            assert(self.keys()[j] == k2);
                        }
                    }
                    assert(self@ =~= before@.insert(k, v));
                }
            },
        }
    }

    /// After the entry at `i` got new contents under the same id, the view
    /// changed at that id alone.
    proof fn lemma_replaced(&self, before: MutableStaticData, i: int)
        requires
            before.wf(),
            0 <= i < before.collections@.len(),
            self.collections@.len() == before.collections@.len(),
            self.collections@[i].0@ == before.collections@[i].0@,
            forall|j: int|
                0 <= j < self.collections@.len() && j != i ==> self.collections@[j]
                    == before.collections@[j],
        ensures
            self.wf(),
            self@ == before@.insert(self.collections@[i].0@, strs(self.collections@[i].1@)),
    {
        assert(self.keys() =~= before.keys());
        let k = self.collections@[i].0@;
        let v = strs(self.collections@[i].1@);
        assert(self.keys()[i] == k);
        self.lemma_view_at(i);
        assert forall|k2: Seq<char>| #[trigger] self@.contains_key(k2) implies before@.insert(
            k,
            v,
        ).contains_key(k2) && self@[k2] == before@.insert(k, v)[k2] by {
            self.lemma_view_key(k2);
            let j = self.key_index(k2);
            if j != i {
                assert(self.keys()[j] != self.keys()[i]);
                assert(before.keys()[j] == k2);
                before.lemma_view_at(j);
            }
        }
        assert forall|k2: Seq<char>| #[trigger] before@.insert(k, v).contains_key(k2) implies self@.contains_key(k2) by {
            if k2 != k {
                before.lemma_view_key(k2);
                let j = before.key_index(k2);
                assert(self.keys()[j] == k2);
            }
        }
        assert(self@ =~= before@.insert(k, v));
    }

    /// Applies `op` to the collection `collection_id` in place. Fails with
    /// `NotFound`, and changes nothing, where no such collection exists.
    pub fn mutate(&mut self, collection_id: &str, op: Mutation) -> (r: Result<(), StoreError>)
        requires
            old(self).wf(),
        ensures
            final(self).wf(),
            final(self).profile() == old(self).profile(),
            r is Ok <==> old(self)@.contains_key(collection_id@),
            r is Err ==> r == Err::<(), StoreError>(StoreError::NotFound) && final(self)@ == old(
                self,
            )@,
            r is Ok ==> final(self)@ == old(self)@.insert(
                collection_id@,
                op.applied_to(old(self)@[collection_id@]),
            ),
    {
        let ghost before = *self;
        match self.find(collection_id) {
            None => Err(StoreError::NotFound),
            Some(i) => {
                proof {
                    before.lemma_view_at(i as int);
                }
                let updated = match &op {
                    Mutation::Add(ids) => appended_dedup(&self.collections[i].1, ids),
                    Mutation::Remove(ids) => retained_without(&self.collections[i].1, ids),
                };
                let id = self.collections[i].0.clone();
                self.collections.set(i, (id, updated));
                proof {
                    self.lemma_replaced(before, i as int);
                }
                Ok(())
            },
        }
    }
}

/// Rejects an empty list of recipe ids: there is nothing to add or remove.
pub fn check_id_list(recipe_id_list: &Vec<String>) -> (r: Result<(), StoreError>)
    ensures
        r is Ok <==> recipe_id_list@.len() > 0,
        r is Err ==> r == Err::<(), StoreError>(StoreError::ClientInput),
{
    if recipe_id_list.len() == 0 {
        Err(StoreError::ClientInput)
    } else {
        Ok(())
    }
}

/// Adds the ids to the collection: appended in order, then adjacent
/// duplicates collapsed. An empty list is refused before the collection is
/// looked up; an unknown collection is `NotFound`. A refusal changes
/// nothing.
pub fn add_to_state(
    state: &mut MutableStaticData,
    collection_id: &str,
    recipe_id_list: Vec<String>,
) -> (r: Result<(), StoreError>)
    requires
        old(state).wf(),
    ensures
        final(state).wf(),
        final(state).profile() == old(state).profile(),
        recipe_id_list@.len() == 0 ==> r == Err::<(), StoreError>(StoreError::ClientInput),
        recipe_id_list@.len() > 0 && !old(state)@.contains_key(collection_id@) ==> r == Err::<
            (),
            StoreError,
        >(StoreError::NotFound),
        recipe_id_list@.len() > 0 && old(state)@.contains_key(collection_id@) ==> r is Ok,
        r is Err ==> final(state)@ == old(state)@,
        r is Ok ==> final(state)@ == old(state)@.insert(
            collection_id@,
            added(old(state)@[collection_id@], strs(recipe_id_list@)),
        ),
{
    check_id_list(&recipe_id_list)?;
    state.mutate(collection_id, Mutation::Add(recipe_id_list))
}

/// Removes every occurrence of each of the ids from the collection, keeping
/// the order of what stays; ids that are not there are ignored. An empty
/// list is refused before the collection is looked up; an unknown
/// collection is `NotFound`. A refusal changes nothing.
pub fn remove_from_state(
    state: &mut MutableStaticData,
    collection_id: &str,
    recipe_id_list: Vec<String>,
) -> (r: Result<(), StoreError>)
    requires
        old(state).wf(),
    ensures
        final(state).wf(),
        final(state).profile() == old(state).profile(),
        recipe_id_list@.len() == 0 ==> r == Err::<(), StoreError>(StoreError::ClientInput),
        recipe_id_list@.len() > 0 && !old(state)@.contains_key(collection_id@) ==> r == Err::<
            (),
            StoreError,
        >(StoreError::NotFound),
        recipe_id_list@.len() > 0 && old(state)@.contains_key(collection_id@) ==> r is Ok,
        r is Err ==> final(state)@ == old(state)@,
        r is Ok ==> final(state)@ == old(state)@.insert(
            collection_id@,
            without(old(state)@[collection_id@], strs(recipe_id_list@)),
        ),
{
    check_id_list(&recipe_id_list)?;
    state.mutate(collection_id, Mutation::Remove(recipe_id_list))
}

} // verus!
