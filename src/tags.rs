use vstd::prelude::*;
use crate::decision::Location;

verus! {

/// A set of labels, each seen at one or more locations of the request.
pub struct Tags {
    entries: Vec<(String, Location)>,
}

/// Text of the label `key:value`.
pub open spec fn qualified(key: Seq<char>, value: Seq<char>) -> Seq<char> {
    key + seq![':'] + value
}

impl Tags {
    /// The pairs (label, location) held.
    pub closed spec fn view(&self) -> Set<(Seq<char>, Location)> {
        Set::new(|p: (Seq<char>, Location)| self.has(p.0, p.1))
    }

    pub closed spec fn has(&self, t: Seq<char>, l: Location) -> bool {
        exists|i: int| 0 <= i < self.entries@.len() && #[trigger] self.entries@[i].0@ == t && self.entries@[i].1 == l
    }

    /// Whether a label is held at some location.
    pub open spec fn has_tag(&self, t: Seq<char>) -> bool {
        exists|l: Location| self@.contains((t, l))
    }

    pub fn new() -> (r: Tags)
        ensures
            r@ == Set::<(Seq<char>, Location)>::empty(),
    {
        let r = Tags { entries: Vec::new() };
        assert(r@ =~= Set::<(Seq<char>, Location)>::empty());
        r
    }

    /// Number of stored pairs.
    pub fn len(&self) -> (r: usize)
        ensures
            r == 0 <==> self@ == Set::<(Seq<char>, Location)>::empty(),
    {
        if self.entries.len() > 0 {
            assert(self@.contains((self.entries@[0].0@, self.entries@[0].1)));
        } else {
            assert(self@ =~= Set::<(Seq<char>, Location)>::empty());
        }
        self.entries.len()
    }

    /// Whether the pair (label, location) is held.
    pub fn contains(&self, tag: &str, loc: Location) -> (r: bool)
        ensures
            r == self@.contains((tag@, loc)),
    {
        let t = tag.to_owned();
        let mut i: usize = 0;
        while i < self.entries.len()
            invariant
                0 <= i <= self.entries@.len(),
                t@ == tag@,
                forall|j: int| 0 <= j < i ==> !(#[trigger] self.entries@[j].0@ == tag@ && self.entries@[j].1 == loc),
            decreases self.entries@.len() - i,
        {
            if self.entries[i].0 == t && self.entries[i].1 == loc {
                return true;
            }
            i = i + 1;
        }
        false
    }

    /// Whether the label is held at any location.
    pub fn contains_tag(&self, tag: &str) -> (r: bool)
        ensures
            r == self.has_tag(tag@),
    {
        let t = tag.to_owned();
        let mut i: usize = 0;
        while i < self.entries.len()
            invariant
                0 <= i <= self.entries@.len(),
                t@ == tag@,
                forall|j: int| 0 <= j < i ==> #[trigger] self.entries@[j].0@ != tag@,
            decreases self.entries@.len() - i,
        {
            if self.entries[i].0 == t {
                assert(self.has(tag@, self.entries@[i as int].1));
                assert(self@.contains((tag@, self.entries@[i as int].1)));
                return true;
            }
            i = i + 1;
        }
        false
    }

    /// Locations at which the label is held, each once.
    pub fn locations(&self, tag: &str) -> (r: Vec<Location>)
        ensures
            forall|l: Location| r@.contains(l) <==> self@.contains((tag@, l)),
    {
        let t = tag.to_owned();
        let mut r: Vec<Location> = Vec::new();
        let mut i: usize = 0;
        while i < self.entries.len()
            invariant
                0 <= i <= self.entries@.len(),
                t@ == tag@,
                forall|l: Location| r@.contains(l) <==> exists|j: int| 0 <= j < i && #[trigger] self.entries@[j].0@ == tag@ && self.entries@[j].1 == l,
            decreases self.entries@.len() - i,
        {
            let ghost old_r = r@;
            if self.entries[i].0 == t {
                let l = self.entries[i].1;
                if !contains_location(&r, l) {
                    r.push(l);
                    assert(r@[r@.len() - 1] == l);
                    assert forall|x: Location| old_r.contains(x) implies r@.contains(x) by {
                        let k = choose|k: int| 0 <= k < old_r.len() && old_r[k] == x;
                        assert(r@[k] == x);
                    }
                }
                assert(r@.contains(l));
            }
            proof {
                assert forall|l: Location| r@.contains(l) <==> exists|j: int| 0 <= j < i + 1 && #[trigger] self.entries@[j].0@ == tag@ && self.entries@[j].1 == l by {
                    if r@.contains(l) && !(self.entries@[i as int].0@ == tag@ && self.entries@[i as int].1 == l) {
                        assert(old_r.contains(l));
                    }
                    if exists|j: int| 0 <= j < i + 1 && #[trigger] self.entries@[j].0@ == tag@ && self.entries@[j].1 == l {
                        let j = choose|j: int| 0 <= j < i + 1 && #[trigger] self.entries@[j].0@ == tag@ && self.entries@[j].1 == l;
                        if j < i {
                            assert(old_r.contains(l));
                        }
                    }
                }
            }
            i = i + 1;
        }
        r
    }

    /// Adds the label at a location; adding a held pair changes nothing.
    pub fn insert(&mut self, tag: &str, loc: Location)
        ensures
            final(self)@ == old(self)@.insert((tag@, loc)),
    {
        if !self.contains(tag, loc) {
            let ghost prev = self.entries@;
            self.entries.push((tag.to_owned(), loc));
            assert forall|p: (Seq<char>, Location)| self@.contains(p) == old(self)@.insert((tag@, loc)).contains(p) by {
                if old(self)@.contains(p) {
                    let j = choose|j: int| 0 <= j < prev.len() && #[trigger] prev[j].0@ == p.0 && prev[j].1 == p.1;
                    assert(self.entries@[j] == prev[j]);
                }
                if self@.contains(p) && p != (tag@, loc) {
                    let j = choose|j: int| 0 <= j < self.entries@.len() && #[trigger] self.entries@[j].0@ == p.0 && self.entries@[j].1 == p.1;
                    assert(j < prev.len());
                    assert(prev[j] == self.entries@[j]);
                }
                if p == (tag@, loc) {
                    assert(self.entries@[prev.len() as int].0@ == tag@);
                }
            }
            assert(self@ =~= old(self)@.insert((tag@, loc)));
        } else {
            assert(self@ =~= old(self)@.insert((tag@, loc)));
        }
    }

    /// Adds the label `key:value` at a location.
    pub fn insert_qualified(&mut self, key: &str, value: &str, loc: Location)
        ensures
            final(self)@ == old(self)@.insert((qualified(key@, value@), loc)),
    {
        let t = key.to_owned().concat(":").concat(value);
        proof {
            reveal_strlit(":");
            assert(":"@ =~= seq![':']);
            assert(t@ =~= qualified(key@, value@));
        }
        self.insert(t.as_str(), loc);
    }

    /// Adds the label at each of the given locations.
    pub fn insert_locs(&mut self, tag: &str, locs: &Vec<Location>)
        ensures
            final(self)@ == old(self)@.union(Set::new(|p: (Seq<char>, Location)| p.0 == tag@ && locs@.contains(p.1))),
    {
        let mut i: usize = 0;
        while i < locs.len()
            invariant
                0 <= i <= locs@.len(),
                self@ == old(self)@.union(Set::new(|p: (Seq<char>, Location)| p.0 == tag@ && exists|k: int| 0 <= k < i && locs@[k] == p.1)),
            decreases locs@.len() - i,
        {
            let ghost before = self@;
            self.insert(tag, locs[i]);
            assert(self@ =~= old(self)@.union(Set::new(|p: (Seq<char>, Location)| p.0 == tag@ && exists|k: int| 0 <= k < i + 1 && locs@[k] == p.1)));
            i = i + 1;
        }
        assert(self@ =~= old(self)@.union(Set::new(|p: (Seq<char>, Location)| p.0 == tag@ && locs@.contains(p.1))));
    }
}

/// Whether a location occurs in a list.
pub fn contains_location(v: &Vec<Location>, l: Location) -> (r: bool)
    ensures
        r == v@.contains(l),
{
    let mut i: usize = 0;
    while i < v.len()
        invariant
            0 <= i <= v@.len(),
            forall|j: int| 0 <= j < i ==> v@[j] != l,
        decreases v@.len() - i,
    {
        if v[i] == l {
            return true;
        }
        i = i + 1;
    }
    false
}

} // verus!
