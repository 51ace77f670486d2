use vstd::prelude::*;

verus! {

/// The abstract content of a list of entries: later entries override earlier
/// ones with the same key.
pub open spec fn entries_map<V>(e: Seq<(String, V)>) -> Map<Seq<char>, V>
    decreases e.len(),
{
    if e.len() == 0 {
        Map::empty()
    } else {
        entries_map(e.drop_last()).insert(e.last().0@, e.last().1)
    }
}

/// No two entries share a key.
pub open spec fn keys_distinct<V>(e: Seq<(String, V)>) -> bool {
    forall|i: int, j: int| 0 <= i < j < e.len() ==> e[i].0@ != e[j].0@
}

/// With distinct keys, the entry at `i` gives the value of its key.
pub proof fn lemma_entry_in_map<V>(e: Seq<(String, V)>, i: int)
    requires
        keys_distinct(e),
        0 <= i < e.len(),
    ensures
        entries_map(e).contains_key(e[i].0@),
        entries_map(e)[e[i].0@] == e[i].1,
    decreases e.len(),
{
    if i < e.len() - 1 {
        lemma_entry_in_map(e.drop_last(), i);
    }
}

/// A key is in the map exactly when some entry holds it.
pub proof fn lemma_map_domain<V>(e: Seq<(String, V)>, k: Seq<char>)
    ensures
        entries_map(e).contains_key(k) <==> exists|i: int| 0 <= i < e.len() && e[i].0@ == k,
    decreases e.len(),
{
    if e.len() > 0 {
        lemma_map_domain(e.drop_last(), k);
        if entries_map(e).contains_key(k) && k != e.last().0@ {
            let i = choose|i: int| 0 <= i < e.len() - 1 && e.drop_last()[i].0@ == k;
            assert(e[i].0@ == k);
        }
        if exists|i: int| 0 <= i < e.len() && e[i].0@ == k {
            let i = choose|i: int| 0 <= i < e.len() && e[i].0@ == k;
            if i < e.len() - 1 {
                assert(e.drop_last()[i].0@ == k);
            }
        }
    }
}

/// Replacing the value of an existing entry updates that key only.
proof fn lemma_update_entry<V>(e: Seq<(String, V)>, i: int, key: String, value: V)
    requires
        keys_distinct(e),
        0 <= i < e.len(),
        e[i].0@ == key@,
    ensures
        keys_distinct(e.update(i, (key, value))),
        entries_map(e.update(i, (key, value))) == entries_map(e).insert(key@, value),
    decreases e.len(),
{
    let f = e.update(i, (key, value));
    if i == e.len() - 1 {
        assert(f.drop_last() == e.drop_last());
        assert(entries_map(e).insert(key@, value) == entries_map(e.drop_last()).insert(
            key@,
            value,
        ));
    } else {
        lemma_update_entry(e.drop_last(), i, key, value);
        assert(f.drop_last() == e.drop_last().update(i, (key, value)));
        assert(entries_map(f) == entries_map(e.drop_last()).insert(key@, value).insert(
            e.last().0@,
            e.last().1,
        ));
        assert(entries_map(f) == entries_map(e).insert(key@, value));
    }
}

/// The content of any list of entries has finitely many keys.
pub proof fn lemma_entries_finite<V>(e: Seq<(String, V)>)
    ensures
        entries_map(e).dom().finite(),
    decreases e.len(),
{
    if e.len() > 0 {
        lemma_entries_finite(e.drop_last());
    }
}

/// A finite map from string keys, kept as a list of entries with distinct keys.
#[derive(Debug)]
pub struct StringMap<V> {
    entries: Vec<(String, V)>,
}

impl<V> View for StringMap<V> {
    type V = Map<Seq<char>, V>;

    closed spec fn view(&self) -> Map<Seq<char>, V> {
        entries_map(self.entries@)
    }
}

/// A string map holds finitely many keys.
pub proof fn lemma_map_finite<V>(m: &StringMap<V>)
    ensures
        m@.dom().finite(),
{
    lemma_entries_finite(m.entries@);
}

impl<V> StringMap<V> {
    #[verifier::type_invariant]
    spec fn distinct(&self) -> bool {
        keys_distinct(self.entries@)
    }

    /// The entries in the order the map holds them.
    pub closed spec fn entry_seq(&self) -> Seq<(String, V)> {
        self.entries@
    }

    /// An empty map.
    pub fn new() -> (r: Self)
        ensures
            r@ == Map::<Seq<char>, V>::empty(),
    {
        StringMap { entries: Vec::new() }
    }

    /// Index of the entry holding `key`, if any.
    fn find(&self, key: &String) -> (r: Option<usize>)
        ensures
            match r {
                Some(i) => i < self.entries@.len() && self.entries@[i as int].0@ == key@,
                None => !self@.contains_key(key@),
            },
    {
        let mut i: usize = 0;
        while i < self.entries.len()
            invariant
                i <= self.entries@.len(),
                forall|j: int| 0 <= j < i ==> self.entries@[j].0@ != key@,
            decreases self.entries@.len() - i,
        {
            if self.entries[i].0 == *key {
                return Some(i);
            }
            i = i + 1;
        }
        proof {
            lemma_map_domain(self.entries@, key@);
        }
        None
    }

    /// Sets `key` to `value`, replacing an earlier value.
    pub fn insert(&mut self, key: String, value: V)
        ensures
            final(self)@ == old(self)@.insert(key@, value),
    {
        proof {
            use_type_invariant(&*self);
        }
        let found = self.find(&key);
        let mut entries: Vec<(String, V)> = Vec::new();
        std::mem::swap(&mut entries, &mut self.entries);
        let ghost e = entries@;
        match found {
            Some(i) => {
                proof {
                    lemma_update_entry(e, i as int, key, value);
                }
                entries.set(i, (key, value));
            },
            None => {
                proof {
                    lemma_map_domain(e, key@);
                }
                entries.push((key, value));
                assert(entries@.drop_last() == e);
            },
        }
        self.entries = entries;
    }

    /// The value of `key`, if the map holds it.
    pub fn get(&self, key: &str) -> (r: Option<&V>)
        ensures
            match r {
                Some(v) => self@.contains_key(key@) && *v == self@[key@],
                None => !self@.contains_key(key@),
            },
    {
        proof {
            use_type_invariant(self);
        }
        let k = key.to_owned();
        match self.find(&k) {
            Some(i) => {
                proof {
                    lemma_entry_in_map(self.entries@, i as int);
                }
                Some(&self.entries[i].1)
            },
            None => None,
        }
    }

    /// Whether the map holds `key`.
    pub fn contains_key(&self, key: &str) -> (r: bool)
        ensures
            r == self@.contains_key(key@),
    {
        self.get(key).is_some()
    }

    /// Number of keys.
    pub fn len(&self) -> (r: usize)
        ensures
            r == self@.dom().len(),
    {
        proof {
            use_type_invariant(self);
            lemma_len(self.entries@);
        }
        self.entries.len()
    }

    /// Whether the map holds no key.
    pub fn is_empty(&self) -> (r: bool)
        ensures
            r == (self@.dom().len() == 0),
    {
        self.len() == 0
    }

    /// The entries in the order the map holds them; their keys are distinct.
    pub fn as_entries(&self) -> (r: &Vec<(String, V)>)
        ensures
            r@ == self.entry_seq(),
            keys_distinct(r@),
            entries_map(r@) == self@,
    {
        proof {
            use_type_invariant(self);
        }
        &self.entries
    }

    /// Removes every key.
    pub fn clear(&mut self)
        ensures
            final(self)@ == Map::<Seq<char>, V>::empty(),
    {
        self.entries = Vec::new();
    }
}

/// With distinct keys, the map has one key per entry.
pub proof fn lemma_len<V>(e: Seq<(String, V)>)
    requires
        keys_distinct(e),
    ensures
        entries_map(e).dom().len() == e.len(),
        entries_map(e).dom().finite(),
    decreases e.len(),
{
    if e.len() > 0 {
        let d = e.drop_last();
        lemma_len(d);
        lemma_map_domain(d, e.last().0@);
        assert(!entries_map(d).contains_key(e.last().0@));
    }
}


/// Where a stored value lives on the client, which decides its lifetime.
#[derive(Clone, Copy, Debug, PartialEq, Eq, Structural)]
pub enum StorageScope {
    /// Kept on disk across restarts.
    Persistent,
    /// Kept until the connection is lost.
    Session,
    /// Kept until the current route changes.
    Local,
}

/// A value of client state.
#[derive(Debug)]
pub enum StateValue {
    Empty,
    Null,
    Boolean(bool),
    String(String),
}

impl Clone for StateValue {
    fn clone(&self) -> (r: Self)
        ensures
            r == *self,
    {
        match self {
            StateValue::Empty => StateValue::Empty,
            StateValue::Null => StateValue::Null,
            StateValue::Boolean(b) => StateValue::Boolean(*b),
            StateValue::String(s) => StateValue::String(s.clone()),
        }
    }
}

impl StateValue {
    /// Whether this is `Empty`.
    pub fn is_empty(&self) -> (r: bool)
        ensures
            r == (*self is Empty),
    {
        match self {
            StateValue::Empty => true,
            _ => false,
        }
    }

    /// Whether this is `Null`.
    pub fn is_null(&self) -> (r: bool)
        ensures
            r == (*self is Null),
    {
        match self {
            StateValue::Null => true,
            _ => false,
        }
    }

    /// The boolean held, or `false`.
    pub fn boolean(&self) -> (r: bool)
        ensures
            r == (match *self {
                StateValue::Boolean(b) => b,
                _ => false,
            }),
    {
        match self {
            StateValue::Boolean(b) => *b,
            _ => false,
        }
    }

    /// The boolean held, if this is a boolean.
    pub fn as_boolean(&self) -> (r: Option<bool>)
        ensures
            r == (match *self {
                StateValue::Boolean(b) => Some(b),
                _ => None,
            }),
    {
        match self {
            StateValue::Boolean(b) => Some(*b),
            _ => None,
        }
    }

    /// The text held, or the empty text.
    pub fn string(&self) -> (r: &str)
        ensures
            r@ == (match *self {
                StateValue::String(s) => s@,
                _ => Seq::<char>::empty(),
            }),
    {
        match self {
            StateValue::String(s) => s.as_str(),
            _ => {
                proof {
                    reveal_strlit("");
                }
                ""
            },
        }
    }

    /// The text held, if this is a string.
    pub fn as_string(&self) -> (r: Option<&str>)
        ensures
            match *self {
                StateValue::String(s) => r is Some && r->0@ == s@,
                _ => r is None,
            },
    {
        match self {
            StateValue::String(s) => Some(s.as_str()),
            _ => None,
        }
    }
}

/// Client state: string keys to values.
pub type StateMap = StringMap<StateValue>;

impl StringMap<StateValue> {
    /// Sets every key of `other` to its value there, over what this map held.
    pub fn extend_from(&mut self, other: &StringMap<StateValue>)
        ensures
            final(self)@ == old(self)@.union_prefer_right(other@),
    {
        let ghost start = self@;
        let mut i: usize = 0;
        while i < other.entries.len()
            invariant
                i <= other.entries@.len(),
                self@ == start.union_prefer_right(entries_map(other.entries@.take(i as int))),
            decreases other.entries@.len() - i,
        {
            let ghost before = self@;
            let key = other.entries[i].0.clone();
            let value = other.entries[i].1.clone();
            self.insert(key, value);
            proof {
                let e = other.entries@;
                assert(e.take(i + 1).drop_last() == e.take(i as int));
                assert(self@ =~= start.union_prefer_right(entries_map(e.take(i + 1))));
            }
            i = i + 1;
        }
        proof {
            assert(other.entries@.take(other.entries@.len() as int) == other.entries@);
        }
    }

    /// A copy of this map.
    pub fn duplicate(&self) -> (r: StringMap<StateValue>)
        ensures
            r@ == self@,
    {
        let mut r = StringMap::new();
        r.extend_from(self);
        assert(r@ =~= self@);
        r
    }
}

} // verus!
