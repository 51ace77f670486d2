use vstd::prelude::*;

use crate::state::{entries_map, keys_distinct, StateMap, StateValue, StorageScope, StringMap};
use crate::text::{chars_of, string_of};

verus! {

/// The SHA-256 digest of the UTF-8 bytes of a text.
pub uninterp spec fn sha256_digest(s: Seq<char>) -> Seq<u8>;

/// Relies on `sha2::Sha256::digest`: the 32-byte digest of the text's UTF-8 bytes.
#[verifier::external_body]
fn digest_of(s: &str) -> (r: Vec<u8>)
    ensures
        r@ == sha256_digest(s@),
        r@.len() == 32,
{
    <sha2::Sha256 as sha2::Digest>::digest(s.as_bytes()).to_vec()
}

/// Characters kept as they are in a file name: ASCII letters, digits, `.` and `-`.
pub open spec fn kept_in_name(c: char) -> bool {
    ('a' <= c && c <= 'z') || ('A' <= c && c <= 'Z') || ('0' <= c && c <= '9') || c == '.' || c
        == '-'
}

/// `origin` with every character that is not kept replaced by `_`.
pub open spec fn sanitised(origin: Seq<char>) -> Seq<char> {
    Seq::new(origin.len(), |i: int| if kept_in_name(origin[i]) { origin[i] } else { '_' })
}

/// The lower-case hexadecimal digit for `d`.
pub open spec fn hex_digit(d: u8) -> char {
    if d < 10 {
        crate::text::digit_char(d as int)
    } else if d == 10 {
        'a'
    } else if d == 11 {
        'b'
    } else if d == 12 {
        'c'
    } else if d == 13 {
        'd'
    } else if d == 14 {
        'e'
    } else {
        'f'
    }
}

/// Two lower-case hexadecimal digits for each byte, in order.
pub open spec fn hex(b: Seq<u8>) -> Seq<char>
    decreases b.len(),
{
    if b.len() == 0 {
        Seq::empty()
    } else {
        hex(b.drop_last()).push(hex_digit(b.last() / 16)).push(hex_digit(b.last() % 16))
    }
}

/// The name of the file that holds the persistent storage of `origin`.
pub open spec fn persistent_file_name(origin: Seq<char>) -> Seq<char> {
    sanitised(origin) + seq!['-'] + hex(sha256_digest(origin)) + seq!['.', 'j', 's', 'o', 'n']
}

/// Replaces every character that is not an ASCII letter or digit, `.` or `-`,
/// by `_`.
pub fn sanitize_origin(origin: &str) -> (r: String)
    ensures
        r@ == sanitised(origin@),
{
    let cs = chars_of(origin);
    let mut out: Vec<char> = Vec::new();
    let mut i: usize = 0;
    while i < cs.len()
        invariant
            i <= cs@.len(),
            cs@ == origin@,
            out@ == sanitised(origin@).take(i as int),
        decreases cs@.len() - i,
    {
        let c = cs[i];
        let keep = ('a' <= c && c <= 'z') || ('A' <= c && c <= 'Z') || ('0' <= c && c <= '9')
            || c == '.' || c == '-';
        if keep {
            out.push(c);
        } else {
            out.push('_');
        }
        assert(out@ =~= sanitised(origin@).take(i + 1));
        i = i + 1;
    }
    assert(out@ =~= sanitised(origin@));
    string_of(&out)
}

fn hex_char(d: u8) -> (c: char)
    requires
        d < 16,
    ensures
        c == hex_digit(d),
{
    if d == 0 {
        '0'
    } else if d == 1 {
        '1'
    } else if d == 2 {
        '2'
    } else if d == 3 {
        '3'
    } else if d == 4 {
        '4'
    } else if d == 5 {
        '5'
    } else if d == 6 {
        '6'
    } else if d == 7 {
        '7'
    } else if d == 8 {
        '8'
    } else if d == 9 {
        '9'
    } else if d == 10 {
        'a'
    } else if d == 11 {
        'b'
    } else if d == 12 {
        'c'
    } else if d == 13 {
        'd'
    } else if d == 14 {
        'e'
    } else {
        'f'
    }
}

/// Lower-case hexadecimal text of `bytes`, two digits per byte.
pub fn hex_text(bytes: &Vec<u8>) -> (r: String)
    ensures
        r@ == hex(bytes@),
{
    let mut out: Vec<char> = Vec::new();
    let mut i: usize = 0;
    while i < bytes.len()
        invariant
            i <= bytes@.len(),
            out@ == hex(bytes@.take(i as int)),
        decreases bytes@.len() - i,
    {
        let b = bytes[i];
        out.push(hex_char(b / 16));
        out.push(hex_char(b % 16));
        assert(bytes@.take(i + 1).drop_last() == bytes@.take(i as int));
        i = i + 1;
    }
    assert(bytes@.take(bytes@.len() as int) == bytes@);
    string_of(&out)
}

/// The file name under the storage directory that holds the persistent storage
/// of `origin`: the sanitised origin, `-`, the hexadecimal SHA-256 digest of the
/// origin, and `.json`.
pub fn storage_file_name(origin: &str) -> (r: String)
    ensures
        r@ == persistent_file_name(origin@),
        sha256_digest(origin@).len() == 32,
{
    let digest = digest_of(origin);
    let name = sanitize_origin(origin);
    let hexed = hex_text(&digest);
    proof {
        reveal_strlit("-");
        reveal_strlit(".json");
    }
    let name = name.concat("-");
    let name = name.concat(hexed.as_str());
    let name = name.concat(".json");
    assert(name@ =~= persistent_file_name(origin@));
    name
}

/// Each byte gives two digits.
pub proof fn lemma_hex_len(b: Seq<u8>)
    ensures
        hex(b).len() == 2 * b.len(),
    decreases b.len(),
{
    if b.len() > 0 {
        lemma_hex_len(b.drop_last());
    }
}

proof fn lemma_hex_digit_injective(a: u8, b: u8)
    requires
        0 <= a < 16,
        0 <= b < 16,
        hex_digit(a) == hex_digit(b),
    ensures
        a == b,
{
}

/// Distinct bytes give distinct hexadecimal text.
pub proof fn lemma_hex_injective(a: Seq<u8>, b: Seq<u8>)
    requires
        hex(a) == hex(b),
    ensures
        a == b,
    decreases a.len(),
{
    lemma_hex_len(a);
    lemma_hex_len(b);
    if a.len() > 0 {
        let ha = hex(a);
        let n = ha.len();
        assert(ha[n - 1] == hex_digit(a.last() % 16));
        assert(hex(b)[n - 1] == hex_digit(b.last() % 16));
        assert(ha[n - 2] == hex_digit(a.last() / 16));
        assert(hex(b)[n - 2] == hex_digit(b.last() / 16));
        lemma_hex_digit_injective(a.last() % 16, b.last() % 16);
        lemma_hex_digit_injective(a.last() / 16, b.last() / 16);
        assert(hex(a.drop_last()) =~= ha.take(n - 2));
        assert(hex(b.drop_last()) =~= hex(b).take(n - 2));
        lemma_hex_injective(a.drop_last(), b.drop_last());
        assert(a =~= a.drop_last().push(a.last()));
        assert(b =~= b.drop_last().push(b.last()));
    }
}

/// Two origins share a storage file name only when they sanitise alike and
/// their SHA-256 digests are equal: distinct origins collide only through a
/// SHA-256 collision. A SHA-256 digest is 32 bytes long.
pub proof fn lemma_file_names_distinct(o1: Seq<char>, o2: Seq<char>)
    requires
        sha256_digest(o1).len() == 32,
        sha256_digest(o2).len() == 32,
        persistent_file_name(o1) == persistent_file_name(o2),
    ensures
        sanitised(o1) == sanitised(o2),
        sha256_digest(o1) == sha256_digest(o2),
{
    let d1 = sha256_digest(o1);
    let d2 = sha256_digest(o2);
    let f1 = persistent_file_name(o1);
    let f2 = persistent_file_name(o2);
    let tail1 = seq!['-'] + hex(d1) + seq!['.', 'j', 's', 'o', 'n'];
    let tail2 = seq!['-'] + hex(d2) + seq!['.', 'j', 's', 'o', 'n'];
    assert(f1 =~= sanitised(o1) + tail1);
    assert(f2 =~= sanitised(o2) + tail2);
    lemma_hex_len(d1);
    lemma_hex_len(d2);
    {
        let s1: int = sanitised(o1).len() as int;
        assert(s1 == sanitised(o2).len());
        assert(sanitised(o1) =~= f1.take(s1));
        assert(sanitised(o2) =~= f2.take(s1));
        assert(hex(d1) =~= f1.subrange(s1 + 1, s1 + 65));
        assert(hex(d2) =~= f2.subrange(s1 + 1, s1 + 65));
        lemma_hex_injective(d1, d2);
    }
}


/// A value as the persistent storage file holds it.
#[derive(Debug)]
pub enum StoredValue {
    /// JSON `null`.
    Null,
    /// A JSON boolean.
    Bool(bool),
    /// A JSON string.
    Text(String),
    /// A number, array or object, which persistent storage does not carry.
    Unsupported,
}

/// The state value a stored value stands for.
pub open spec fn state_of_stored(v: StoredValue) -> StateValue {
    match v {
        StoredValue::Null => StateValue::Empty,
        StoredValue::Bool(b) => StateValue::Boolean(b),
        StoredValue::Text(s) => StateValue::String(s),
        StoredValue::Unsupported => StateValue::Empty,
    }
}

/// What a file's entries load as: unsupported values are skipped, and a later
/// entry overrides an earlier one with the same key.
pub open spec fn loaded(e: Seq<(String, StoredValue)>) -> Map<Seq<char>, StateValue>
    decreases e.len(),
{
    if e.len() == 0 {
        Map::empty()
    } else if e.last().1 is Unsupported {
        loaded(e.drop_last())
    } else {
        loaded(e.drop_last()).insert(e.last().0@, state_of_stored(e.last().1))
    }
}

/// A value as it comes back from the file: `Null` is written as JSON `null`,
/// which loads as `Empty`.
pub open spec fn persisted(v: StateValue) -> StateValue {
    match v {
        StateValue::Null => StateValue::Empty,
        _ => v,
    }
}

/// The state map loaded from the entries of a persistent storage file.
pub fn load_stored(entries: &Vec<(String, StoredValue)>) -> (r: StateMap)
    ensures
        r@ == loaded(entries@),
{
    let mut r: StateMap = StringMap::new();
    let ghost all = entries@;
    let mut i: usize = 0;
    while i < entries.len()
        invariant
            all == entries@,
            i <= all.len(),
            r@ == loaded(all.take(i as int)),
        decreases all.len() - i,
    {
        proof {
            assert(all.take(i + 1).drop_last() == all.take(i as int));
            assert(all.take(i + 1).last() == all[i as int]);
        }
        let key = entries[i].0.clone();
        match &entries[i].1 {
            StoredValue::Null => r.insert(key, StateValue::Empty),
            StoredValue::Bool(b) => r.insert(key, StateValue::Boolean(*b)),
            StoredValue::Text(s) => r.insert(key, StateValue::String(s.clone())),
            StoredValue::Unsupported => {},
        }
        i = i + 1;
    }
    proof {
        assert(all.take(all.len() as int) == all);
    }
    r
}

/// Every entry holds a value the file carries.
pub open spec fn all_supported(e: Seq<(String, StoredValue)>) -> bool {
    forall|i: int| 0 <= i < e.len() ==> !(#[trigger] e[i].1 is Unsupported)
}

/// The entries to write to the persistent storage file for `m`: one per key of
/// `m`, none unsupported, loading back as `m`.
pub fn stored_entries(m: &StateMap) -> (r: Vec<(String, StoredValue)>)
    ensures
        keys_distinct(r@),
        all_supported(r@),
        loaded(r@) == m@.map_values(|v: StateValue| persisted(v)),
{
    let entries = m.as_entries();
    let ghost e = entries@;
    let mut out: Vec<(String, StoredValue)> = Vec::new();
    let mut i: usize = 0;
    while i < entries.len()
        invariant
            e == entries@,
            keys_distinct(e),
            i <= e.len(),
            out@.len() == i,
            forall|j: int| 0 <= j < i ==> (#[trigger] out@[j]).0@ == e[j].0@,
            all_supported(out@),
            loaded(out@) == entries_map(e.take(i as int)).map_values(
                |v: StateValue| persisted(v),
            ),
        decreases e.len() - i,
    {
        let key = entries[i].0.clone();
        let stored = match &entries[i].1 {
            StateValue::Empty => StoredValue::Null,
            StateValue::Null => StoredValue::Null,
            StateValue::Boolean(b) => StoredValue::Bool(*b),
            StateValue::String(s) => StoredValue::Text(s.clone()),
        };
        let ghost before = out@;
        out.push((key, stored));
        proof {
            assert(out@.drop_last() == before);
            assert(e.take(i + 1).drop_last() == e.take(i as int));
            assert(loaded(out@) =~= entries_map(e.take(i + 1)).map_values(
                |v: StateValue| persisted(v),
            ));
        }
        i = i + 1;
    }
    proof {
        assert(e.take(e.len() as int) == e);
        assert forall|a: int, b: int| 0 <= a < b < out@.len() implies out@[a].0@ != out@[b].0@ by {
            assert(out@[a].0@ == e[a].0@);
            assert(out@[b].0@ == e[b].0@);
        }
    }
    out
}

/// Everything the client sends: persistent, then session, then local values, a
/// later scope winning on a shared key.
pub open spec fn merged(
    p: Map<Seq<char>, StateValue>,
    s: Map<Seq<char>, StateValue>,
    l: Map<Seq<char>, StateValue>,
) -> Map<Seq<char>, StateValue> {
    p.union_prefer_right(s).union_prefer_right(l)
}

/// The merged storage holds a key's local value if there is one, else its
/// session value if there is one, else its persistent value if there is one,
/// and otherwise lacks the key.
pub proof fn lemma_scope_merge(
    p: Map<Seq<char>, StateValue>,
    s: Map<Seq<char>, StateValue>,
    l: Map<Seq<char>, StateValue>,
    k: Seq<char>,
)
    ensures
        l.contains_key(k) ==> merged(p, s, l).contains_key(k) && merged(p, s, l)[k] == l[k],
        !l.contains_key(k) && s.contains_key(k) ==> merged(p, s, l).contains_key(k) && merged(
            p,
            s,
            l,
        )[k] == s[k],
        !l.contains_key(k) && !s.contains_key(k) && p.contains_key(k) ==> merged(
            p,
            s,
            l,
        ).contains_key(k) && merged(p, s, l)[k] == p[k],
        !l.contains_key(k) && !s.contains_key(k) && !p.contains_key(k) ==> !merged(
            p,
            s,
            l,
        ).contains_key(k),
{
}

/// Client-side storage in three scopes, for one origin.
pub struct StorageManager {
    persistent_storage: StateMap,
    session_storage: StateMap,
    local_storage: StateMap,
    current_route: Option<String>,
    storage_dir: String,
    origin: String,
}

impl StorageManager {
    /// Values kept on disk.
    pub closed spec fn persistent(&self) -> Map<Seq<char>, StateValue> {
        self.persistent_storage@
    }

    /// Values kept until the connection is lost.
    pub closed spec fn session(&self) -> Map<Seq<char>, StateValue> {
        self.session_storage@
    }

    /// Values kept until the route changes.
    pub closed spec fn local(&self) -> Map<Seq<char>, StateValue> {
        self.local_storage@
    }

    /// The route the client is on, if any.
    pub closed spec fn route(&self) -> Option<Seq<char>> {
        match self.current_route {
            Some(r) => Some(r@),
            None => None,
        }
    }

    /// The origin whose storage this is.
    pub closed spec fn origin_text(&self) -> Seq<char> {
        self.origin@
    }

    /// The directory that holds the persistent storage file.
    pub closed spec fn dir_text(&self) -> Seq<char> {
        self.storage_dir@
    }

    /// The storage of `origin` in `storage_dir`, with the persistent values
    /// loaded from the entries `stored` of its file (none when there is no file).
    pub fn new_with_dir(origin: String, storage_dir: String, stored: Vec<(String, StoredValue)>) -> (r:
        StorageManager)
        ensures
            r.persistent() == loaded(stored@),
            r.session() == Map::<Seq<char>, StateValue>::empty(),
            r.local() == Map::<Seq<char>, StateValue>::empty(),
            r.route() is None,
            r.origin_text() == origin@,
            r.dir_text() == storage_dir@,
    {
        StorageManager {
            persistent_storage: load_stored(&stored),
            session_storage: StringMap::new(),
            local_storage: StringMap::new(),
            current_route: None,
            storage_dir,
            origin,
        }
    }

    /// The directory that holds the persistent storage file.
    pub fn storage_dir(&self) -> (r: &str)
        ensures
            r@ == self.dir_text(),
    {
        self.storage_dir.as_str()
    }

    /// The name of the persistent storage file under the storage directory.
    pub fn persistent_file_name(&self) -> (r: String)
        ensures
            r@ == persistent_file_name(self.origin_text()),
            sha256_digest(self.origin_text()).len() == 32,
    {
        storage_file_name(self.origin.as_str())
    }

    /// The entries to write to the persistent storage file.
    pub fn persistent_entries(&self) -> (r: Vec<(String, StoredValue)>)
        ensures
            keys_distinct(r@),
            all_supported(r@),
            loaded(r@) == self.persistent().map_values(|v: StateValue| persisted(v)),
    {
        stored_entries(&self.persistent_storage)
    }

    /// Sets `key` to `value` in `scope`. Returns whether the persistent storage
    /// file must be rewritten, which is so for the persistent scope alone.
    pub fn store(&mut self, scope: StorageScope, key: String, value: StateValue) -> (persist: bool)
        ensures
            persist == (scope == StorageScope::Persistent),
            final(self).persistent() == (if scope == StorageScope::Persistent {
                old(self).persistent().insert(key@, value)
            } else {
                old(self).persistent()
            }),
            final(self).session() == (if scope == StorageScope::Session {
                old(self).session().insert(key@, value)
            } else {
                old(self).session()
            }),
            final(self).local() == (if scope == StorageScope::Local {
                old(self).local().insert(key@, value)
            } else {
                old(self).local()
            }),
            final(self).route() == old(self).route(),
            final(self).origin_text() == old(self).origin_text(),
            final(self).dir_text() == old(self).dir_text(),
    {
        match scope {
            StorageScope::Persistent => {
                self.persistent_storage.insert(key, value);
                true
            },
            StorageScope::Session => {
                self.session_storage.insert(key, value);
                false
            },
            StorageScope::Local => {
                self.local_storage.insert(key, value);
                false
            },
        }
    }

    /// The value of `key` in `scope`, if any.
    pub fn get(&self, scope: StorageScope, key: &str) -> (r: Option<&StateValue>)
        ensures
            ({
                let m = match scope {
                    StorageScope::Persistent => self.persistent(),
                    StorageScope::Session => self.session(),
                    StorageScope::Local => self.local(),
                };
                match r {
                    Some(v) => m.contains_key(key@) && *v == m[key@],
                    None => !m.contains_key(key@),
                }
            }),
    {
        match scope {
            StorageScope::Persistent => self.persistent_storage.get(key),
            StorageScope::Session => self.session_storage.get(key),
            StorageScope::Local => self.local_storage.get(key),
        }
    }

    /// Moves to `new_route`. A change of route empties local storage.
    pub fn navigate_to(&mut self, new_route: String)
        ensures
            final(self).route() == Some(new_route@),
            final(self).local() == (if old(self).route() == Some(new_route@) {
                old(self).local()
            } else {
                Map::<Seq<char>, StateValue>::empty()
            }),
            final(self).persistent() == old(self).persistent(),
            final(self).session() == old(self).session(),
            final(self).origin_text() == old(self).origin_text(),
            final(self).dir_text() == old(self).dir_text(),
    {
        let same = match &self.current_route {
            Some(r) => *r == new_route,
            None => false,
        };
        if !same {
            self.local_storage.clear();
            self.current_route = Some(new_route);
        }
    }

    /// Persistent, then session, then local values in one map, a later scope
    /// winning on a shared key.
    pub fn get_all_storage(&self) -> (r: StateMap)
        ensures
            r@ == merged(self.persistent(), self.session(), self.local()),
    {
        let mut combined = self.persistent_storage.duplicate();
        combined.extend_from(&self.session_storage);
        combined.extend_from(&self.local_storage);
        combined
    }

    /// Empties local storage.
    pub fn clear_local_storage(&mut self)
        ensures
            final(self).local() == Map::<Seq<char>, StateValue>::empty(),
            final(self).persistent() == old(self).persistent(),
            final(self).session() == old(self).session(),
            final(self).route() == old(self).route(),
            final(self).origin_text() == old(self).origin_text(),
            final(self).dir_text() == old(self).dir_text(),
    {
        self.local_storage.clear();
    }

    /// Empties session storage.
    pub fn clear_session_storage(&mut self)
        ensures
            final(self).session() == Map::<Seq<char>, StateValue>::empty(),
            final(self).persistent() == old(self).persistent(),
            final(self).local() == old(self).local(),
            final(self).route() == old(self).route(),
            final(self).origin_text() == old(self).origin_text(),
            final(self).dir_text() == old(self).dir_text(),
    {
        self.session_storage.clear();
    }

    /// Empties all three scopes. The persistent storage file must then be
    /// rewritten, so this returns `true`.
    pub fn clear_all_storage(&mut self) -> (persist: bool)
        ensures
            persist,
            final(self).persistent() == Map::<Seq<char>, StateValue>::empty(),
            final(self).session() == Map::<Seq<char>, StateValue>::empty(),
            final(self).local() == Map::<Seq<char>, StateValue>::empty(),
            final(self).route() == old(self).route(),
            final(self).origin_text() == old(self).origin_text(),
            final(self).dir_text() == old(self).dir_text(),
    {
        self.persistent_storage.clear();
        self.session_storage.clear();
        self.local_storage.clear();
        true
    }
}

} // verus!
