//! The tables of live sessions, keyed by session id: a TCP session is
//! registered before its connection is dialled, a frame for an id that is
//! not registered finds nothing, and a closed session leaves the table.
use vstd::prelude::*;

verus! {

/// The map that a list of (id, value) entries stands for.
pub open spec fn entries_map<V>(s: Seq<(String, V)>) -> Map<Seq<char>, V>
    decreases s.len(),
{
    if s.len() == 0 {
        Map::empty()
    } else {
        entries_map(s.drop_last()).insert(s.last().0@, s.last().1)
    }
}

/// No id occurs twice among the entries.
pub open spec fn distinct_ids<V>(s: Seq<(String, V)>) -> bool {
    forall|i: int, j: int| 0 <= i < j < s.len() ==> #[trigger] s[i].0@ != #[trigger] s[j].0@
}

proof fn lemma_distinct_drop_last<V>(s: Seq<(String, V)>)
    requires
        distinct_ids(s),
        s.len() > 0,
    ensures
        distinct_ids(s.drop_last()),
        forall|j: int| 0 <= j < s.len() - 1 ==> #[trigger] s.drop_last()[j].0@ != s.last().0@,
{
    let t = s.drop_last();
    assert forall|i: int, j: int| 0 <= i < j < t.len() implies #[trigger] t[i].0@
        != #[trigger] t[j].0@ by {
        assert(t[i] == s[i] && t[j] == s[j]);
    }
    assert forall|j: int| 0 <= j < s.len() - 1 implies #[trigger] t[j].0@ != s.last().0@ by {
        assert(t[j] == s[j]);
        assert(s.last() == s[s.len() - 1]);
    }
}

/// An id is in the map exactly when some entry has it, and then maps to that
/// entry's value.
proof fn lemma_entries_map_lookup<V>(s: Seq<(String, V)>, k: Seq<char>)
    requires
        distinct_ids(s),
    ensures
        entries_map(s).dom().contains(k) <==> exists|i: int| 0 <= i < s.len() && #[trigger] s[i].0@ == k,
        forall|i: int| 0 <= i < s.len() && #[trigger] s[i].0@ == k ==> entries_map(s)[k] == s[i].1,
    decreases s.len(),
{
    if s.len() > 0 {
        let t = s.drop_last();
        let n = s.len() - 1;
        lemma_distinct_drop_last(s);
        lemma_entries_map_lookup(t, k);
        assert(s.last() == s[n]);
        if entries_map(s).dom().contains(k) {
            if s[n].0@ != k {
                let i = choose|i: int| 0 <= i < t.len() && #[trigger] t[i].0@ == k;
                assert(s[i] == t[i]);
            }
        }
        assert forall|i: int| 0 <= i < s.len() && #[trigger] s[i].0@ == k implies entries_map(s)[k]
            == s[i].1 by {
            if i < n {
                assert(s[i] == t[i]);
                assert(t[i].0@ != s.last().0@);
            }
        }
        if exists|i: int| 0 <= i < s.len() && #[trigger] s[i].0@ == k {
            let i = choose|i: int| 0 <= i < s.len() && #[trigger] s[i].0@ == k;
            if i < n {
                assert(t[i] == s[i]);
            }
        }
    }
}

/// Adding an entry whose id is new adds it to the map, and the ids stay
/// distinct.
proof fn lemma_entries_map_push<V>(s: Seq<(String, V)>, p: (String, V))
    requires
        distinct_ids(s),
        !entries_map(s).dom().contains(p.0@),
    ensures
        entries_map(s.push(p)) == entries_map(s).insert(p.0@, p.1),
        distinct_ids(s.push(p)),
{
    let u = s.push(p);
    assert(u.drop_last() =~= s);
    assert(u.last() == p);
    lemma_entries_map_lookup(s, p.0@);
    assert forall|i: int, j: int| 0 <= i < j < u.len() implies #[trigger] u[i].0@
        != #[trigger] u[j].0@ by {
        assert(u[i] == s[i]);
        if j < s.len() {
            assert(u[j] == s[j]);
        } else {
            assert(u[j] == p);
        }
    }
}

/// Removing the entry at `i` removes its id from the map, and the ids stay
/// distinct.
proof fn lemma_entries_map_remove<V>(s: Seq<(String, V)>, i: int)
    requires
        distinct_ids(s),
        0 <= i < s.len(),
    ensures
        entries_map(s.remove(i)) == entries_map(s).remove(s[i].0@),
        distinct_ids(s.remove(i)),
    decreases s.len(),
{
    let k = s[i].0@;
    let t = s.drop_last();
    let n = s.len() - 1;
    let r = s.remove(i);
    lemma_distinct_drop_last(s);
    assert forall|a: int, b: int| 0 <= a < b < r.len() implies #[trigger] r[a].0@
        != #[trigger] r[b].0@ by {
        let a0 = if a < i { a } else { a + 1 };
        let b0 = if b < i { b } else { b + 1 };
        assert(r[a] == s[a0] && r[b] == s[b0]);
    }
    if i == n {
        assert(r =~= t);
        lemma_entries_map_lookup(t, k);
        assert(s.last() == s[n]);
        assert(!entries_map(t).dom().contains(k));
        assert(entries_map(r) =~= entries_map(s).remove(k));
    } else {
        assert(r.drop_last() =~= t.remove(i));
        assert(r.last() == s.last());
        assert(t[i] == s[i]);
        lemma_entries_map_remove(t, i);
        assert(s.last() == s[n]);
        assert(s.last().0@ != k);
        assert(entries_map(r) =~= entries_map(s).remove(k));
    }
}

/// The map of distinct entries has as many ids as there are entries.
proof fn lemma_entries_map_len<V>(s: Seq<(String, V)>)
    requires
        distinct_ids(s),
    ensures
        entries_map(s).dom().finite(),
        entries_map(s).dom().len() == s.len(),
    decreases s.len(),
{
    if s.len() > 0 {
        let t = s.drop_last();
        lemma_distinct_drop_last(s);
        lemma_entries_map_len(t);
        lemma_entries_map_lookup(t, s.last().0@);
        assert(entries_map(s).dom() =~= entries_map(t).dom().insert(s.last().0@));
    }
}

/// Live sessions by id, each with the value the client keeps for it.
pub struct SessionTable<V> {
    entries: Vec<(String, V)>,
}

impl<V> View for SessionTable<V> {
    type V = Map<Seq<char>, V>;

    closed spec fn view(&self) -> Map<Seq<char>, V> {
        entries_map(self.entries@)
    }
}

impl<V> SessionTable<V> {
    #[verifier::type_invariant]
    spec fn ids_are_distinct(self) -> bool {
        distinct_ids(self.entries@)
    }

    /// A table with no session.
    pub fn new() -> (t: SessionTable<V>)
        ensures
            t@ == Map::<Seq<char>, V>::empty(),
    {
        let t = SessionTable { entries: Vec::new() };
        assert(t@ =~= Map::<Seq<char>, V>::empty());
        t
    }

    fn find(&self, id: &String) -> (r: Option<usize>)
        ensures
            match r {
                Some(i) => i < self.entries@.len() && self.entries@[i as int].0@ == id@,
                None => forall|j: int| 0 <= j < self.entries@.len() ==> #[trigger] self.entries@[j].0@
                    != id@,
            },
    {
        let mut i: usize = 0;
        while i < self.entries.len()
            invariant
                i <= self.entries@.len(),
                forall|j: int| 0 <= j < i ==> #[trigger] self.entries@[j].0@ != id@,
            decreases self.entries.len() - i,
        {
            if self.entries[i].0 == *id {
                return Some(i);
            }
            i = i + 1;
        }
        None
    }

    /// How many sessions are registered.
    pub fn len(&self) -> (n: usize)
        ensures
            n == self@.dom().len(),
    {
        proof {
            use_type_invariant(self);
            lemma_entries_map_len(self.entries@);
        }
        self.entries.len()
    }

    /// Whether session `id` is registered.
    pub fn contains(&self, id: &String) -> (b: bool)
        ensures
            b == self@.dom().contains(id@),
    {
        proof {
            use_type_invariant(self);
            lemma_entries_map_lookup(self.entries@, id@);
        }
        self.find(id).is_some()
    }

    /// The value of session `id`; `None` when it is not registered.
    pub fn get(&self, id: &String) -> (r: Option<&V>)
        ensures
            match r {
                Some(v) => self@.dom().contains(id@) && *v == self@[id@],
                None => !self@.dom().contains(id@),
            },
    {
        proof {
            use_type_invariant(self);
            lemma_entries_map_lookup(self.entries@, id@);
        }
        match self.find(id) {
            Some(i) => Some(&self.entries[i].1),
            None => None,
        }
    }

    /// Registers session `id` with `value`, in place of the value it had;
    /// that value is handed back.
    pub fn insert(&mut self, id: String, value: V) -> (old_value: Option<V>)
        ensures
            final(self)@ == old(self)@.insert(id@, value),
            match old_value {
                Some(v) => old(self)@.dom().contains(id@) && v == old(self)@[id@],
                None => !old(self)@.dom().contains(id@),
            },
    {
        proof {
            use_type_invariant(&*self);
            lemma_entries_map_lookup(self.entries@, id@);
        }
        let ghost before = self@;
        let found = self.find(&id);
        let mut entries = Vec::new();
        std::mem::swap(&mut entries, &mut self.entries);
        let previous = match found {
            Some(i) => {
                proof {
                    lemma_entries_map_remove(entries@, i as int);
                }
                let (_, v) = entries.remove(i);
                Some(v)
            },
            None => None,
        };
        proof {
            lemma_entries_map_push(entries@, (id, value));
        }
        entries.push((id, value));
        self.entries = entries;
        assert(self@ =~= before.insert(id@, value));
        previous
    }

    /// Takes session `id` out of the table, with its value; `None` when it
    /// was not registered.
    pub fn remove(&mut self, id: &String) -> (removed: Option<V>)
        ensures
            final(self)@ == old(self)@.remove(id@),
            match removed {
                Some(v) => old(self)@.dom().contains(id@) && v == old(self)@[id@],
                None => !old(self)@.dom().contains(id@),
            },
    {
        proof {
            use_type_invariant(&*self);
            lemma_entries_map_lookup(self.entries@, id@);
        }
        let ghost before = self@;
        match self.find(id) {
            Some(i) => {
                let mut entries = Vec::new();
                std::mem::swap(&mut entries, &mut self.entries);
                proof {
                    lemma_entries_map_remove(entries@, i as int);
                }
                let (_, v) = entries.remove(i);
                self.entries = entries;
                Some(v)
            },
            None => {
                assert(before.remove(id@) =~= before);
                None
            },
        }
    }

    /// The ids of the registered sessions, each once.
    pub fn ids(&self) -> (ids: Vec<String>)
        ensures
            ids@.len() == self@.dom().len(),
            forall|i: int| 0 <= i < ids@.len() ==> self@.dom().contains(#[trigger] ids@[i]@),
            forall|k: Seq<char>| #[trigger] self@.dom().contains(k) ==> exists|i: int|
                0 <= i < ids@.len() && #[trigger] ids@[i]@ == k,
    {
        proof {
            use_type_invariant(self);
            lemma_entries_map_len(self.entries@);
        }
        let mut ids: Vec<String> = Vec::new();
        let mut i: usize = 0;
        while i < self.entries.len()
            invariant
                i <= self.entries@.len(),
                ids@.len() == i,
                forall|j: int| 0 <= j < i ==> #[trigger] ids@[j]@ == self.entries@[j].0@,
            decreases self.entries.len() - i,
        {
            ids.push(self.entries[i].0.clone());
            i = i + 1;
        }
        proof {
            assert forall|j: int| 0 <= j < ids@.len() implies self@.dom().contains(
                #[trigger] ids@[j]@,
            ) by {
                lemma_entries_map_lookup(self.entries@, ids@[j]@);
                assert(self.entries@[j].0@ == ids@[j]@);
            }
            assert forall|k: Seq<char>| #[trigger] self@.dom().contains(k) implies exists|j: int|
                0 <= j < ids@.len() && #[trigger] ids@[j]@ == k by {
                lemma_entries_map_lookup(self.entries@, k);
                let j = choose|j: int| 0 <= j < self.entries@.len() && #[trigger] self.entries@[j].0@ == k;
                assert(ids@[j]@ == k);
            }
        }
        ids
    }

    /// Empties the table, handing back every session with its value.
    pub fn drain(&mut self) -> (all: Vec<(String, V)>)
        ensures
            final(self)@ == Map::<Seq<char>, V>::empty(),
            entries_map(all@) == old(self)@,
            distinct_ids(all@),
    {
        proof {
            use_type_invariant(&*self);
        }
        let mut all = Vec::new();
        std::mem::swap(&mut all, &mut self.entries);
        assert(self@ =~= Map::<Seq<char>, V>::empty());
        all
    }
}

/// Registering a session makes it found with its value, and closing it
/// afterwards leaves it unknown while every other session is as it was
/// before.
pub proof fn lemma_register_then_close<V>(
    table: Map<Seq<char>, V>,
    id: Seq<char>,
    value: V,
    other: Seq<char>,
)
    requires
        other != id,
    ensures
        table.insert(id, value).dom().contains(id),
        table.insert(id, value)[id] == value,
        !table.insert(id, value).remove(id).dom().contains(id),
        table.insert(id, value).remove(id).dom().contains(other) == table.dom().contains(other),
        table.dom().contains(other) ==> table.insert(id, value).remove(id)[other] == table[other],
{
}

} // verus!
