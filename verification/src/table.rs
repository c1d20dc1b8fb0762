use vstd::prelude::*;

verus! {

/// The map held by a list of (key, value) entries, later entries winning.
pub open spec fn entries_to_map<C>(entries: Seq<(String, C)>) -> Map<Seq<char>, C>
    decreases entries.len(),
{
    if entries.len() == 0 {
        Map::empty()
    } else {
        entries_to_map(entries.drop_last()).insert(entries.last().0@, entries.last().1)
    }
}

/// No key occurs twice among the entries.
pub open spec fn keys_distinct<C>(entries: Seq<(String, C)>) -> bool {
    forall|i: int, j: int| 0 <= i < j < entries.len() ==> entries[i].0@ != entries[j].0@
}

pub proof fn lemma_entries_to_map<C>(entries: Seq<(String, C)>)
    requires
        keys_distinct(entries),
    ensures
        entries_to_map(entries).dom().finite(),
        entries_to_map(entries).dom().len() == entries.len(),
        forall|k: Seq<char>| #[trigger] entries_to_map(entries).contains_key(k) <==> exists|i: int|
            0 <= i < entries.len() && entries[i].0@ == k,
        forall|i: int| 0 <= i < entries.len() ==> #[trigger] entries_to_map(entries)[entries[i].0@] == entries[i].1,
    decreases entries.len(),
{
    if entries.len() > 0 {
        let rest = entries.drop_last();
        let last = entries.last();
        assert(keys_distinct(rest));
        lemma_entries_to_map(rest);
        assert(!entries_to_map(rest).contains_key(last.0@)) by {
            if entries_to_map(rest).contains_key(last.0@) {
                let i = choose|i: int| 0 <= i < rest.len() && rest[i].0@ == last.0@;
                assert(entries[i] == rest[i]);
            }
        }
        assert forall|k: Seq<char>| #[trigger] entries_to_map(entries).contains_key(k) <==> exists|i: int|
            0 <= i < entries.len() && entries[i].0@ == k by {
            if k == last.0@ {
                assert(entries[entries.len() - 1].0@ == k);
            } else {
                if entries_to_map(entries).contains_key(k) {
                    assert(entries_to_map(rest).contains_key(k));
                    let i = choose|i: int| 0 <= i < rest.len() && rest[i].0@ == k;
                    assert(entries[i] == rest[i]);
                }
                if exists|i: int| 0 <= i < entries.len() && entries[i].0@ == k {
                    let i = choose|i: int| 0 <= i < entries.len() && entries[i].0@ == k;
                    assert(rest[i] == entries[i]);
                    assert(entries_to_map(rest).contains_key(k));
                }
            }
        }
        assert forall|i: int| 0 <= i < entries.len() implies #[trigger] entries_to_map(entries)[entries[i].0@]
            == entries[i].1 by {
            if i < rest.len() {
                assert(entries[i] == rest[i]);
                assert(entries_to_map(rest)[rest[i].0@] == rest[i].1);
            }
        }
    }
}

pub proof fn lemma_entries_to_map_update<C>(entries: Seq<(String, C)>, k: int, e: (String, C))
    requires
        keys_distinct(entries),
        0 <= k < entries.len(),
        entries[k].0@ == e.0@,
    ensures
        entries_to_map(entries.update(k, e)) == entries_to_map(entries).insert(e.0@, e.1),
        keys_distinct(entries.update(k, e)),
    decreases entries.len(),
{
    let u = entries.update(k, e);
    let rest = entries.drop_last();
    assert(keys_distinct(rest));
    if k == entries.len() - 1 {
        assert(u.drop_last() =~= rest);
        lemma_entries_to_map(rest);
        assert(!entries_to_map(rest).contains_key(e.0@)) by {
            if entries_to_map(rest).contains_key(e.0@) {
                let i = choose|i: int| 0 <= i < rest.len() && rest[i].0@ == e.0@;
                assert(entries[i] == rest[i]);
            }
        }
        assert(entries_to_map(u) =~= entries_to_map(entries).insert(e.0@, e.1));
    } else {
        lemma_entries_to_map_update(rest, k, e);
        assert(u.drop_last() =~= rest.update(k, e));
        assert(u.last() == entries.last());
        assert(entries_to_map(u) =~= entries_to_map(entries).insert(e.0@, e.1));
    }
}

pub proof fn lemma_entries_to_map_remove<C>(entries: Seq<(String, C)>, k: int)
    requires
        keys_distinct(entries),
        0 <= k < entries.len(),
    ensures
        entries_to_map(entries.remove(k)) == entries_to_map(entries).remove(entries[k].0@),
        keys_distinct(entries.remove(k)),
    decreases entries.len(),
{
    let r = entries.remove(k);
    let rest = entries.drop_last();
    assert(keys_distinct(rest));
    assert(keys_distinct(r)) by {
        assert forall|i: int, j: int| 0 <= i < j < r.len() implies r[i].0@ != r[j].0@ by {
            let a = if i < k { i } else { i + 1 };
            let b = if j < k { j } else { j + 1 };
            assert(r[i] == entries[a]);
            assert(r[j] == entries[b]);
        }
    }
    if k == entries.len() - 1 {
        assert(r =~= rest);
        lemma_entries_to_map(rest);
        assert(!entries_to_map(rest).contains_key(entries[k].0@)) by {
            if entries_to_map(rest).contains_key(entries[k].0@) {
                let i = choose|i: int| 0 <= i < rest.len() && rest[i].0@ == entries[k].0@;
                assert(entries[i] == rest[i]);
            }
        }
        assert(entries_to_map(r) =~= entries_to_map(entries).remove(entries[k].0@));
    } else {
        lemma_entries_to_map_remove(rest, k);
        assert(r.drop_last() =~= rest.remove(k));
        assert(r.last() == entries.last());
        assert(entries.last().0@ != entries[k].0@);
        assert(entries_to_map(r) =~= entries_to_map(entries).remove(entries[k].0@));
    }
}

/// Decoded clips by id. No id occurs twice.
pub struct ClipTable<C> {
    entries: Vec<(String, C)>,
}

impl<C> View for ClipTable<C> {
    type V = Map<Seq<char>, C>;

    closed spec fn view(&self) -> Map<Seq<char>, C> {
        entries_to_map(self.entries@)
    }
}

impl<C> ClipTable<C> {
    #[verifier::type_invariant]
    closed spec fn distinct(self) -> bool {
        keys_distinct(self.entries@)
    }

    /// An empty table.
    pub fn new() -> (t: Self)
        ensures
            t@ == Map::<Seq<char>, C>::empty(),
    {
        ClipTable { entries: Vec::new() }
    }

    fn index_of(&self, id: &str) -> (r: Option<usize>)
        ensures
            r matches Some(i) ==> i < self.entries@.len() && self.entries@[i as int].0@ == id@,
            r is None ==> forall|j: int| 0 <= j < self.entries@.len() ==> self.entries@[j].0@ != id@,
    {
        let mut i: usize = 0;
        while i < self.entries.len()
            invariant
                i <= self.entries@.len(),
                forall|j: int| 0 <= j < i ==> self.entries@[j].0@ != id@,
            decreases self.entries@.len() - i,
        {
            if str_equal(self.entries[i].0.as_str(), id) {
                return Some(i);
            }
            i = i + 1;
        }
        None
    }

    /// Whether a clip with this id is held.
    pub fn contains(&self, id: &str) -> (r: bool)
        ensures
            r == self@.contains_key(id@),
    {
        proof {
            use_type_invariant(self);
            lemma_entries_to_map(self.entries@);
        }
        self.index_of(id).is_some()
    }

    /// The clip with this id, if held.
    pub fn get(&self, id: &str) -> (r: Option<&C>)
        ensures
            r matches Some(c) ==> self@.contains_key(id@) && *c == self@[id@],
            r is None ==> !self@.contains_key(id@),
    {
        proof {
            use_type_invariant(self);
            lemma_entries_to_map(self.entries@);
        }
        match self.index_of(id) {
            Some(i) => Some(&self.entries[i].1),
            None => None,
        }
    }

    /// How many clips are held.
    pub fn len(&self) -> (r: usize)
        ensures
            r == self@.len(),
    {
        proof {
            use_type_invariant(self);
            lemma_entries_to_map(self.entries@);
        }
        self.entries.len()
    }

    /// Holds `clip` under `id`, replacing any clip held under it.
    pub fn insert(&mut self, id: String, clip: C)
        ensures
            final(self)@ == old(self)@.insert(id@, clip),
    {
        proof {
            use_type_invariant(&*self);
        }
        let found = self.index_of(id.as_str());
        let mut entries: Vec<(String, C)> = Vec::new();
        std::mem::swap(&mut entries, &mut self.entries);
        let ghost before = entries@;
        match found {
            Some(k) => {
                proof {
                    lemma_entries_to_map_update(before, k as int, (id, clip));
                }
                entries.set(k, (id, clip));
            },
            None => {
                entries.push((id, clip));
                assert(entries@.drop_last() =~= before);
                assert(keys_distinct(entries@)) by {
                    assert forall|x: int, y: int| 0 <= x < y < entries@.len() implies entries@[x].0@
                        != entries@[y].0@ by {
                        assert(entries@[x] == before[x]);
                        if y < before.len() {
                            assert(entries@[y] == before[y]);
                        }
                    }
                }
            },
        }
        self.entries = entries;
    }

    /// Drops the clip held under `id`, if any.
    pub fn remove(&mut self, id: &str)
        ensures
            final(self)@ == old(self)@.remove(id@),
    {
        proof {
            use_type_invariant(&*self);
            lemma_entries_to_map(self.entries@);
        }
        let found = self.index_of(id);
        match found {
            Some(k) => {
                let mut entries: Vec<(String, C)> = Vec::new();
                std::mem::swap(&mut entries, &mut self.entries);
                let ghost before = entries@;
                proof {
                    lemma_entries_to_map_remove(before, k as int);
                }
                let _ = entries.remove(k);
                self.entries = entries;
            },
            None => {
                assert(self@ =~= self@.remove(id@));
            },
        }
    }
}

/// Whether two strings are equal.
pub fn str_equal(a: &str, b: &str) -> (r: bool)
    ensures
        r == (a@ == b@),
{
    let x = crate::text::chars_of(a);
    let y = crate::text::chars_of(b);
    crate::clips::chars_equal(x.as_slice(), y.as_slice())
}

} // verus!
