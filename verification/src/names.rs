//! A set of names that can be both looked up quickly and walked in order.
use vstd::prelude::*;
use vstd::hash_set::StringHashSet;

verus! {

/// A set of strings: a hash set for lookups, beside the list of its distinct
/// members in the order in which they were first inserted.
pub struct NameSet {
    lookup: StringHashSet,
    members: Vec<String>,
}

/// The views of a list of strings.
pub open spec fn views_of(v: Seq<String>) -> Seq<Seq<char>> {
    v.map_values(|s: String| s@)
}

impl NameSet {
    #[verifier::type_invariant]
    closed spec fn consistent(self) -> bool {
        &&& views_of(self.members@).no_duplicates()
        &&& views_of(self.members@).to_set() == self.lookup@
    }

    /// The members in insertion order.
    pub closed spec fn entries(self) -> Seq<Seq<char>> {
        views_of(self.members@)
    }

    /// An empty set.
    pub fn new() -> (r: NameSet)
        ensures
            r@ == Set::<Seq<char>>::empty(),
            r.entries() == Seq::<Seq<char>>::empty(),
    {
        let lookup = StringHashSet::new();
        let members: Vec<String> = Vec::new();
        assert(views_of(members@) =~= Seq::<Seq<char>>::empty());
        assert(views_of(members@).to_set() =~= Set::<Seq<char>>::empty());
        NameSet { lookup, members }
    }

    /// Whether `name` is a member.
    pub fn contains(&self, name: &str) -> (r: bool)
        ensures
            r == self@.contains(name@),
    {
        proof {
            use_type_invariant(self);
        }
        self.lookup.contains(name)
    }

    /// Adds `name`; returns whether it was new.
    pub fn insert(&mut self, name: String) -> (r: bool)
        ensures
            final(self)@ == old(self)@.insert(name@),
            r == !old(self)@.contains(name@),
            final(self).entries() == (if r {
                old(self).entries().push(name@)
            } else {
                old(self).entries()
            }),
    {
        proof {
            use_type_invariant(&*self);
        }
        if self.lookup.contains(name.as_str()) {
            return false;
        }
        let mut taken = NameSet::new();
        std::mem::swap(self, &mut taken);
        let NameSet { mut lookup, mut members } = taken;
        let ghost before = views_of(members@);
        let ghost key = name@;
        lookup.insert(name.clone());
        members.push(name);
        proof {
            assert(views_of(members@) =~= before.push(key));
            assert(!before.contains(key));
            assert(views_of(members@).no_duplicates()) by {
                assert forall|i: int, j: int|
                    0 <= i < j < views_of(members@).len() implies views_of(members@)[i]
                    != views_of(members@)[j] by {
                    if j == before.len() {
                        assert(views_of(members@)[i] == before[i]);
                    }
                }
            }
            assert(views_of(members@).to_set() =~= before.to_set().insert(key)) by {
                assert forall|x: Seq<char>| #[trigger] views_of(members@).contains(x) <==> (x == key
                    || before.contains(x)) by {
                    if views_of(members@).contains(x) {
                        let k = choose|k: int| 0 <= k < views_of(members@).len() && #[trigger] views_of(members@)[k] == x;
                        if k < before.len() {
                            assert(before[k] == x);
                        }
                    }
                    if before.contains(x) {
                        let k = choose|k: int| 0 <= k < before.len() && #[trigger] before[k] == x;
                        assert(views_of(members@)[k] == x);
                    }
                    if x == key {
                        assert(views_of(members@)[before.len() as int] == x);
                    }
                }
            }
        }
        *self = NameSet { lookup, members };
        true
    }

    /// The number of members.
    pub fn len(&self) -> (r: usize)
        ensures
            r == self@.len(),
            r == self.entries().len(),
    {
        proof {
            use_type_invariant(self);
            self.entries().unique_seq_to_set();
        }
        self.members.len()
    }

    /// Whether the set has no member.
    pub fn is_empty(&self) -> (r: bool)
        ensures
            r == (self@.len() == 0),
    {
        proof {
            use_type_invariant(self);
            self.entries().unique_seq_to_set();
        }
        self.members.len() == 0
    }

    /// The member at position `i` in insertion order.
    pub fn entry(&self, i: usize) -> (r: &String)
        requires
            i < self.entries().len(),
        ensures
            r@ == self.entries()[i as int],
    {
        &self.members[i]
    }

    /// Adds every member of `other`.
    pub fn extend_from(&mut self, other: &NameSet)
        ensures
            final(self)@ == old(self)@.union(other@),
    {
        let n = other.len();
        let mut i: usize = 0;
        while i < n
            invariant
                n == other.entries().len(),
                i <= n,
                self@ == old(self)@.union(other.entries().take(i as int).to_set()),
                other.entries().to_set() == other@,
            decreases n - i,
        {
            let name = other.entry(i).clone();
            self.insert(name);
            proof {
                let e = other.entries();
                assert(e.take(i + 1).to_set() =~= e.take(i as int).to_set().insert(e[i as int])) by {
                    assert forall|x: Seq<char>| #[trigger] e.take(i + 1).contains(x) <==> (x == e[i as int]
                        || e.take(i as int).contains(x)) by {
                        if e.take(i + 1).contains(x) {
                            let k = choose|k: int| 0 <= k < i + 1 && #[trigger] e.take(i + 1)[k] == x;
                            if k < i {
                                assert(e.take(i as int)[k] == x);
                            }
                        }
                        if e.take(i as int).contains(x) {
                            let k = choose|k: int| 0 <= k < i && #[trigger] e.take(i as int)[k] == x;
                            assert(e.take(i + 1)[k] == x);
                        }
                        if x == e[i as int] {
                            assert(e.take(i + 1)[i as int] == x);
                        }
                    }
                }
            }
            i = i + 1;
            assert(self@ =~= old(self)@.union(other.entries().take(i as int).to_set()));
        }
        assert(other.entries().take(n as int) =~= other.entries());
    }
}

impl View for NameSet {
    type V = Set<Seq<char>>;

    closed spec fn view(&self) -> Set<Seq<char>> {
        self.entries().to_set()
    }
}

} // verus!
