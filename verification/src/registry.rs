use vstd::prelude::*;

verus! {

/// The identifiers of a list of (follower, offset) entries, in order.
pub open spec fn ids_of<V>(entries: Seq<(String, V)>) -> Seq<Seq<char>> {
    entries.map_values(|e: (String, V)| e.0@)
}

/// The map from identifiers to offsets that a list of entries stands for.
pub open spec fn map_of<V>(entries: Seq<(String, V)>) -> Map<Seq<char>, V> {
    let ids = ids_of(entries);
    Map::new(
        |k: Seq<char>| ids.contains(k),
        |k: Seq<char>| entries[choose|i: int| 0 <= i < ids.len() && ids[i] == k].1,
    )
}

proof fn lemma_map_of_at<V>(entries: Seq<(String, V)>, i: int)
    requires
        ids_of(entries).no_duplicates(),
        0 <= i < entries.len(),
    ensures
        map_of(entries).dom().contains(entries[i].0@),
        map_of(entries)[entries[i].0@] == entries[i].1,
{
    let ids = ids_of(entries);
    let k = entries[i].0@;
    assert(ids[i] == k);
    let j: int = choose|j: int| 0 <= j < ids.len() && ids[j] == k;
    assert(j == i);
}

/// The followers registered with a leader, each with its tempo offset.
///
/// Each follower identifier occurs at most once; registering an identifier
/// that is already present replaces its offset.
#[derive(Debug)]
pub struct FollowerTable<V> {
    entries: Vec<(String, V)>,
}

impl<V> FollowerTable<V> {
    #[verifier::type_invariant]
    closed spec fn ids_unique(self) -> bool {
        ids_of(self.entries@).no_duplicates()
    }

    /// The registered followers, each mapped to its offset.
    pub closed spec fn view(&self) -> Map<Seq<char>, V> {
        map_of(self.entries@)
    }

    /// A table with no follower.
    pub fn new() -> (t: Self)
        ensures
            t.view() == Map::<Seq<char>, V>::empty(),
    {
        let t = FollowerTable { entries: Vec::new() };
        assert(t.view() =~= Map::<Seq<char>, V>::empty());
        t
    }

    /// The position of `id` in the table, if registered.
    fn find(&self, id: &String) -> (r: Option<usize>)
        ensures
            r matches Some(i) ==> i < self.entries@.len() && self.entries@[i as int].0@ == id@,
            r is None ==> !ids_of(self.entries@).contains(id@),
    {
        let n: usize = self.entries.len();
        let mut i: usize = 0;
        while i < n
            invariant
                n == self.entries@.len(),
                i <= n,
                forall|j: int| 0 <= j < i ==> self.entries@[j].0@ != id@,
            decreases n - i,
        {
            if self.entries[i].0 == *id {
                return Some(i);
            }
            i = i + 1;
        }
        proof {
            let ids = ids_of(self.entries@);
            if ids.contains(id@) {
                let j: int = choose|j: int| 0 <= j < ids.len() && ids[j] == id@;
                assert(self.entries@[j].0@ == id@);
            }
        }
        None
    }

    /// Registers `id` with `offset`, replacing the offset of a follower
    /// already registered under that identifier.
    pub fn add(&mut self, id: String, offset: V)
        ensures
            final(self).view() == old(self).view().insert(id@, offset),
    {
        proof {
            use_type_invariant(&*self);
        }
        let ghost old_entries = self.entries@;
        let ghost k = id@;
        let found = self.find(&id);
        let mut entries = Vec::new();
        std::mem::swap(&mut entries, &mut self.entries);
        match found {
            Some(i) => {
                entries.set(i, (id, offset));
                proof {
                    assert(ids_of(entries@) =~= ids_of(old_entries));
                }
                self.entries = entries;
                proof {
                    let ids0 = ids_of(old_entries);
                    let ids1 = ids_of(self.entries@);
                    let expect = map_of(old_entries).insert(k, offset);
                    assert forall|key: Seq<char>|
                        #![trigger self.view().dom().contains(key)]
                        self.view().dom().contains(key) == expect.dom().contains(key) by {
                        assert(ids1[i as int] == k);
                    }
                    assert forall|key: Seq<char>| #[trigger]
                        self.view().dom().contains(key) implies self.view()[key] == expect[key] by {
                        let j: int = choose|j: int| 0 <= j < ids1.len() && ids1[j] == key;
                        lemma_map_of_at(self.entries@, j);
                        assert(ids1[i as int] == k);
                        if j != i {
                            assert(key != k);
                            assert(ids0[j] == key);
                            assert(old_entries[j] == self.entries@[j]);
                            lemma_map_of_at(old_entries, j);
                        }
                    }
                    assert(self.view() =~= expect);
                }
            },
            None => {
                entries.push((id, offset));
                proof {
                    let ids0 = ids_of(old_entries);
                    let ids1 = ids_of(entries@);
                    assert(ids1 =~= ids0.push(k));
                    assert(!ids0.contains(k));
                    assert forall|a: int, b: int|
                        0 <= a < ids1.len() && 0 <= b < ids1.len() && a != b implies ids1[a]
                        != ids1[b] by {
                        if a == ids0.len() {
                            assert(ids0[b] == ids1[b]);
                        } else if b == ids0.len() {
                            assert(ids0[a] == ids1[a]);
                        }
                    }
                }
                self.entries = entries;
                proof {
                    let ids0 = ids_of(old_entries);
                    let ids1 = ids_of(self.entries@);
                    assert(ids1 =~= ids0.push(k));
                    let expect = map_of(old_entries).insert(k, offset);
                    assert forall|key: Seq<char>|
                        #![trigger self.view().dom().contains(key)]
                        self.view().dom().contains(key) == expect.dom().contains(key) by {
                        if ids1.contains(key) && key != k {
                            let j: int = choose|j: int| 0 <= j < ids1.len() && ids1[j] == key;
                            assert(ids0[j] == key);
                        }
                        if ids0.contains(key) {
                            let j: int = choose|j: int| 0 <= j < ids0.len() && ids0[j] == key;
                            assert(ids1[j] == key);
                        }
                        if key == k {
                            assert(ids1[ids0.len() as int] == k);
                        }
                    }
                    assert forall|key: Seq<char>| #[trigger]
                        self.view().dom().contains(key) implies self.view()[key] == expect[key] by {
                        let j: int = choose|j: int| 0 <= j < ids1.len() && ids1[j] == key;
                        lemma_map_of_at(self.entries@, j);
                        if key != k {
                            assert(ids0[j] == key);
                            lemma_map_of_at(old_entries, j);
                        }
                    }
                    assert(self.view() =~= expect);
                }
            },
        }
    }

    /// Unregisters `id`; returns whether it was registered.
    pub fn remove(&mut self, id: &str) -> (removed: bool)
        ensures
            removed == old(self).view().dom().contains(id@),
            final(self).view() == old(self).view().remove(id@),
    {
        proof {
            use_type_invariant(&*self);
        }
        let ghost old_entries = self.entries@;
        let key = id.to_owned();
        match self.find(&key) {
            Some(i) => {
                let mut entries = Vec::new();
                std::mem::swap(&mut entries, &mut self.entries);
                entries.remove(i);
                proof {
                    let ids0 = ids_of(old_entries);
                    let ids1 = ids_of(entries@);
                    assert(ids1 =~= ids0.remove(i as int));
                    assert forall|a: int, b: int|
                        0 <= a < ids1.len() && 0 <= b < ids1.len() && a != b implies ids1[a]
                        != ids1[b] by {
                        let a0 = if a < i { a } else { a + 1 };
                        let b0 = if b < i { b } else { b + 1 };
                        assert(ids1[a] == ids0[a0]);
                        assert(ids1[b] == ids0[b0]);
                    }
                }
                self.entries = entries;
                proof {
                    let ids0 = ids_of(old_entries);
                    let ids1 = ids_of(self.entries@);
                    assert(ids1 =~= ids0.remove(i as int));
                    assert(ids0[i as int] == id@);
                    assert forall|k: Seq<char>|
                        #![trigger self.view().dom().contains(k)]
                        self.view().dom().contains(k) == map_of(old_entries).remove(id@).dom().contains(k)
                    by {
                        if ids1.contains(k) {
                            let j: int = choose|j: int| 0 <= j < ids1.len() && ids1[j] == k;
                            let j0 = if j < i { j } else { j + 1 };
                            assert(ids0[j0] == k);
                        }
                        if ids0.contains(k) && k != id@ {
                            let j: int = choose|j: int| 0 <= j < ids0.len() && ids0[j] == k;
                            assert(j != i);
                            let j1 = if j < i { j } else { j - 1 };
                            assert(ids1[j1] == k);
                        }
                    }
                    assert forall|k: Seq<char>| #[trigger] self.view().dom().contains(k) implies self.view()[k]
                        == map_of(old_entries).remove(id@)[k] by {
                        let j: int = choose|j: int| 0 <= j < ids1.len() && ids1[j] == k;
                        lemma_map_of_at(self.entries@, j);
                        let j0 = if j < i { j } else { j + 1 };
                        assert(ids0[j0] == k);
                        lemma_map_of_at(old_entries, j0);
                    }
                    assert(self.view() =~= map_of(old_entries).remove(id@));
                    lemma_map_of_at(old_entries, i as int);
                }
                true
            },
            None => {
                proof {
                    assert(self.view() =~= map_of(old_entries).remove(id@));
                }
                false
            },
        }
    }

    /// The offset registered for `id`, if any.
    pub fn get(&self, id: &str) -> (r: Option<&V>)
        ensures
            r is Some <==> self.view().dom().contains(id@),
            r matches Some(v) ==> *v == self.view()[id@],
    {
        proof {
            use_type_invariant(self);
        }
        let key = id.to_owned();
        match self.find(&key) {
            Some(i) => {
                proof {
                    lemma_map_of_at(self.entries@, i as int);
                }
                Some(&self.entries[i].1)
            },
            None => None,
        }
    }

    /// Whether `id` is registered.
    pub fn contains(&self, id: &str) -> (r: bool)
        ensures
            r == self.view().dom().contains(id@),
    {
        self.get(id).is_some()
    }

    /// Number of registered followers.
    pub fn len(&self) -> (r: usize)
        ensures
            self.view().dom().finite(),
            r == self.view().dom().len(),
    {
        proof {
            use_type_invariant(self);
            let ids = ids_of(self.entries@);
            ids.unique_seq_to_set();
            assert(self.view().dom() =~= ids.to_set());
        }
        self.entries.len()
    }
}

impl<V: Clone> Clone for FollowerTable<V> {
    /// A copy of the table: the same followers, each with a clone of its
    /// offset.
    fn clone(&self) -> (t: Self)
        ensures
            t.view().dom() == self.view().dom(),
            forall|k: Seq<char>| #[trigger]
                self.view().dom().contains(k) ==> cloned::<V>(self.view()[k], t.view()[k]),
    {
        proof {
            use_type_invariant(self);
        }
        let n: usize = self.entries.len();
        let mut entries: Vec<(String, V)> = Vec::new();
        let mut i: usize = 0;
        while i < n
            invariant
                n == self.entries@.len(),
                i <= n,
                entries@.len() == i,
                forall|j: int|
                    0 <= j < i ==> #[trigger] entries@[j].0@ == self.entries@[j].0@ && cloned::<V>(
                        self.entries@[j].1,
                        entries@[j].1,
                    ),
            decreases n - i,
        {
            let id = self.entries[i].0.clone();
            let offset = self.entries[i].1.clone();
            entries.push((id, offset));
            i = i + 1;
        }
        proof {
            assert(ids_of(entries@) =~= ids_of(self.entries@));
        }
        let t = FollowerTable { entries };
        proof {
            let ids = ids_of(self.entries@);
            assert(t.view().dom() =~= self.view().dom());
            assert forall|k: Seq<char>| #[trigger]
                self.view().dom().contains(k) implies cloned::<V>(self.view()[k], t.view()[k]) by {
                let j: int = choose|j: int| 0 <= j < ids.len() && ids[j] == k;
                lemma_map_of_at(self.entries@, j);
                assert(ids_of(t.entries@)[j] == k);
                lemma_map_of_at(t.entries@, j);
            }
        }
        t
    }
}

/// The offset read back for a follower is the last one registered under its
/// identifier.
pub proof fn lemma_offset_is_last_registered<V>(followers: Map<Seq<char>, V>, id: Seq<char>, offset: V)
    ensures
        followers.insert(id, offset).dom().contains(id),
        followers.insert(id, offset)[id] == offset,
{
}

/// Registering one follower leaves every other follower, and its offset, as
/// it was.
pub proof fn lemma_register_keeps_others<V>(
    followers: Map<Seq<char>, V>,
    id: Seq<char>,
    offset: V,
    other: Seq<char>,
)
    requires
        other != id,
    ensures
        followers.insert(id, offset).dom().contains(other) == followers.dom().contains(other),
        followers.dom().contains(other) ==> followers.insert(id, offset)[other] == followers[other],
{
}

/// A removed follower is no longer registered: removing it a second time
/// reports that nothing was removed, and it has no offset.
pub proof fn lemma_removed_is_gone<V>(followers: Map<Seq<char>, V>, id: Seq<char>)
    ensures
        !followers.remove(id).dom().contains(id),
        followers.remove(id).remove(id) == followers.remove(id),
{
    assert(followers.remove(id).remove(id) =~= followers.remove(id));
}

/// Registering a follower adds one to the count when it is new, and leaves
/// the count as it was when it is registered already.
pub proof fn lemma_register_count<V>(followers: Map<Seq<char>, V>, id: Seq<char>, offset: V)
    requires
        followers.dom().finite(),
    ensures
        followers.insert(id, offset).dom().len() == if followers.dom().contains(id) {
            followers.dom().len()
        } else {
            followers.dom().len() + 1
        },
{
    if followers.dom().contains(id) {
        assert(followers.insert(id, offset).dom() =~= followers.dom());
    }
}

/// Removing a registered follower lowers the count by one; removing one that
/// is not registered leaves it as it was.
pub proof fn lemma_remove_count<V>(followers: Map<Seq<char>, V>, id: Seq<char>)
    requires
        followers.dom().finite(),
    ensures
        followers.remove(id).dom().len() == if followers.dom().contains(id) {
            followers.dom().len() - 1
        } else {
            followers.dom().len() as int
        },
{
    if !followers.dom().contains(id) {
        assert(followers.remove(id).dom() =~= followers.dom());
    }
}

} // verus!
