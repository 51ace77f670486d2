use vstd::prelude::*;

use crate::state::{entries_map, lemma_map_finite, StringMap};

verus! {

/// A capability: a URI naming a protocol feature.
#[derive(Debug)]
pub struct Capability {
    uri: String,
}

impl View for Capability {
    type V = Seq<char>;

    closed spec fn view(&self) -> Seq<char> {
        self.uri@
    }
}

impl Clone for Capability {
    fn clone(&self) -> (r: Self)
        ensures
            r@ == self@,
    {
        Capability { uri: self.uri.clone() }
    }
}

impl Capability {
    /// The base protocol, which every implementation supports.
    pub const CORE_V1: &'static str = "pinhole:core:v1";

    /// The capability named by `uri`.
    pub fn new(uri: &str) -> (r: Capability)
        ensures
            r@ == uri@,
    {
        Capability { uri: uri.to_owned() }
    }

    /// The URI of this capability.
    pub fn as_str(&self) -> (r: &str)
        ensures
            r@ == self@,
    {
        self.uri.as_str()
    }
}

/// A set of capabilities, offered by a client or supported by a server.
#[derive(Debug)]
pub struct CapabilitySet {
    capabilities: StringMap<()>,
}

impl View for CapabilitySet {
    type V = Set<Seq<char>>;

    closed spec fn view(&self) -> Set<Seq<char>> {
        self.capabilities@.dom()
    }
}

impl Clone for CapabilitySet {
    fn clone(&self) -> (r: Self)
        ensures
            r@ == self@,
            r@.finite(),
    {
        let r = self.intersect(self);
        assert(r@ =~= self@);
        r
    }
}

impl Default for CapabilitySet {
    fn default() -> (r: Self)
        ensures
            r@ == Set::<Seq<char>>::empty(),
            r@.finite(),
    {
        CapabilitySet::new()
    }
}

/// A capability set holds finitely many capabilities.
pub proof fn lemma_set_finite(s: &CapabilitySet)
    ensures
        s@.finite(),
{
    lemma_map_finite(&s.capabilities);
}

/// The capabilities this implementation supports: the base protocol alone.
pub open spec fn supported_set() -> Set<Seq<char>> {
    set![Capability::CORE_V1@]
}

impl CapabilitySet {
    /// The empty set.
    pub fn new() -> (r: CapabilitySet)
        ensures
            r@ == Set::<Seq<char>>::empty(),
            r@.finite(),
    {
        CapabilitySet { capabilities: StringMap::new() }
    }

    /// The set of the given capabilities.
    pub fn from_capabilities(capabilities: Vec<Capability>) -> (r: CapabilitySet)
        ensures
            r@ == Set::new(|u: Seq<char>| exists|i: int| 0 <= i < capabilities@.len() && capabilities@[i]@ == u),
            r@.finite(),
    {
        let mut r = CapabilitySet::new();
        let mut i: usize = 0;
        while i < capabilities.len()
            invariant
                i <= capabilities@.len(),
                r@ == Set::new(|u: Seq<char>| exists|j: int| 0 <= j < i && capabilities@[j]@ == u),
                r@.finite(),
            decreases capabilities@.len() - i,
        {
            r.add(capabilities[i].as_str());
            assert(r@ =~= Set::new(|u: Seq<char>| exists|j: int| 0 <= j < i + 1 && capabilities@[j]@ == u));
            i = i + 1;
        }
        r
    }

    /// Adds the capability named by `capability`.
    pub fn add(&mut self, capability: &str)
        ensures
            final(self)@ == old(self)@.insert(capability@),
            final(self)@.finite(),
    {
        self.capabilities.insert(capability.to_owned(), ());
        proof {
            lemma_map_finite(&self.capabilities);
        }
        assert(self@ =~= old(self)@.insert(capability@));
    }

    /// Whether the set holds the capability named by `capability`.
    pub fn contains(&self, capability: &str) -> (r: bool)
        ensures
            r == self@.contains(capability@),
            self@.finite(),
    {
        proof {
            lemma_map_finite(&self.capabilities);
        }
        self.capabilities.contains_key(capability)
    }

    /// The capabilities in both sets.
    pub fn intersect(&self, other: &CapabilitySet) -> (r: CapabilitySet)
        ensures
            r@ == self@.intersect(other@),
            r@.finite(),
    {
        let entries = self.capabilities.as_entries();
        let ghost e = entries@;
        let mut r = CapabilitySet::new();
        let mut i: usize = 0;
        while i < entries.len()
            invariant
                e == entries@,
                entries_map(e) == self.capabilities@,
                i <= e.len(),
                r@ == entries_map(e.take(i as int)).dom().intersect(other@),
                r@.finite(),
            decreases e.len() - i,
        {
            proof {
                assert(e.take(i + 1).drop_last() == e.take(i as int));
            }
            if other.contains(entries[i].0.as_str()) {
                r.add(entries[i].0.as_str());
            }
            assert(r@ =~= entries_map(e.take(i + 1)).dom().intersect(other@));
            i = i + 1;
        }
        assert(e.take(e.len() as int) == e);
        r
    }

    /// Whether the set holds no capability.
    pub fn is_empty(&self) -> (r: bool)
        ensures
            r == (self@.len() == 0),
            r == (self@ == Set::<Seq<char>>::empty()),
            self@.finite(),
    {
        proof {
            lemma_map_finite(&self.capabilities);
            if self@.len() == 0 {
                assert(self@ =~= Set::<Seq<char>>::empty());
            }
        }
        self.capabilities.is_empty()
    }

    /// The number of capabilities.
    pub fn len(&self) -> (r: usize)
        ensures
            r == self@.len(),
            self@.finite(),
    {
        proof {
            lemma_map_finite(&self.capabilities);
        }
        self.capabilities.len()
    }

    /// The capabilities, each once.
    pub fn iter(&self) -> (r: Vec<Capability>)
        ensures
            r@.len() == self@.len(),
            forall|i: int| 0 <= i < r@.len() ==> self@.contains(r@[i]@),
            forall|u: Seq<char>| self@.contains(u) ==> exists|i: int| 0 <= i < r@.len() && r@[i]@ == u,
    {
        let entries = self.capabilities.as_entries();
        let ghost e = entries@;
        proof {
            crate::state::lemma_len(e);
        }
        let mut out: Vec<Capability> = Vec::new();
        let mut i: usize = 0;
        while i < entries.len()
            invariant
                e == entries@,
                entries_map(e) == self.capabilities@,
                i <= e.len(),
                out@.len() == i,
                forall|j: int| 0 <= j < i ==> out@[j]@ == e[j].0@,
            decreases e.len() - i,
        {
            out.push(Capability::new(entries[i].0.as_str()));
            i = i + 1;
        }
        proof {
            assert forall|j: int| 0 <= j < out@.len() implies self@.contains(out@[j]@) by {
                crate::state::lemma_map_domain(e, out@[j]@);
            }
            assert forall|u: Seq<char>| self@.contains(u) implies exists|j: int|
                0 <= j < out@.len() && out@[j]@ == u by {
                crate::state::lemma_map_domain(e, u);
                let j = choose|j: int| 0 <= j < e.len() && e[j].0@ == u;
                assert(out@[j]@ == u);
            }
        }
        out
    }
}

/// The capabilities this implementation supports.
pub fn supported_capabilities() -> (r: CapabilitySet)
    ensures
        r@ == supported_set(),
        r@.finite(),
{
    let mut caps = CapabilitySet::new();
    caps.add(Capability::CORE_V1);
    assert(caps@ =~= supported_set());
    caps
}

} // verus!
