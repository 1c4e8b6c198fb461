use crate::index::{unique, views, NameIndex};
use crate::name::DomainName;
use vstd::prelude::*;

verus! {

/// `name` is one of `names`.
pub open spec fn occurs(names: Seq<DomainName>, name: Seq<Seq<u8>>) -> bool {
    exists|i: int| 0 <= i < names.len() && names[i]@ == name
}

/// A set of domain names, asked for exact members.
#[derive(Debug)]
pub struct BlockSet {
    index: NameIndex,
}

impl View for BlockSet {
    type V = Set<Seq<Seq<u8>>>;

    closed spec fn view(&self) -> Set<Seq<Seq<u8>>> {
        self.index.listed().to_set()
    }
}

impl Clone for BlockSet {
    fn clone(&self) -> (copy: Self)
        ensures
            copy@ == self@,
            copy.listed() == self.listed(),
    {
        BlockSet { index: self.index.clone() }
    }
}

impl BlockSet {
    /// The names of the set, each once, in the order in which they came.
    pub closed spec fn listed(&self) -> Seq<Seq<Seq<u8>>> {
        self.index.listed()
    }

    /// The number of names in the set.
    pub open spec fn count(&self) -> nat {
        self.listed().len()
    }

    /// The set of the given names. A name that comes twice is held once.
    pub fn new(names: Vec<DomainName>) -> (set: Self)
        ensures
            forall|name: Seq<Seq<u8>>| set@.contains(name) <==> occurs(names@, name),
            set@ == set.listed().to_set(),
            set.listed() == unique(views(names@)),
            set.listed().no_duplicates(),
            set.count() <= names@.len(),
    {
        let mut index = NameIndex::new();
        let mut i: usize = 0;
        proof {
            assert(views(names@).take(0) =~= Seq::empty());
        }
        while i < names.len()
            invariant
                0 <= i <= names.len(),
                index.listed().len() <= i,
                index.listed().no_duplicates(),
                index.listed() == unique(views(names@).take(i as int)),
                forall|name: Seq<Seq<u8>>|
                    index.listed().contains(name) <==> occurs(names@.take(i as int), name),
            decreases names.len() - i,
        {
            let ghost before = index.listed();
            let grown = index.insert(names[i].clone());
            index = grown.0;
            proof {
                assert(views(names@).take(i + 1).drop_last() =~= views(names@).take(i as int));
                assert(views(names@).take(i + 1).last() == names@[i as int]@);
                let prefix = names@.take(i as int);
                let next = names@.take(i + 1);
                let added = names@[i as int]@;
                assert forall|name: Seq<Seq<u8>>| index.listed().contains(name) <==> occurs(
                    next,
                    name,
                ) by {
                    if index.listed().contains(name) {
                        if before.contains(name) {
                            let k = choose|k: int| 0 <= k < prefix.len() && prefix[k]@ == name;
                            assert(next[k]@ == name);
                        } else {
                            let k = choose|k: int|
                                0 <= k < index.listed().len() && index.listed()[k] == name;
                            assert(name == added);
                            assert(next[i as int]@ == name);
                        }
                    }
                    if occurs(next, name) {
                        let k = choose|k: int| 0 <= k < next.len() && next[k]@ == name;
                        if k < i {
                            assert(prefix[k]@ == name);
                            assert(before.contains(name));
                            if !before.contains(added) {
                                let at = choose|at: int|
                                    0 <= at < before.len() && before[at] == name;
                                assert(index.listed()[at] == name);
                            }
                        } else {
                            assert(index.listed()[grown.1 as int] == name);
                        }
                    }
                }
            }
            i += 1;
        }
        let set = BlockSet { index };
        proof {
            assert(names@.take(names@.len() as int) =~= names@);
            assert(views(names@).take(names@.len() as int) =~= views(names@));
        }
        set
    }

    /// Whether `name` is a member.
    pub fn contains(&self, name: &DomainName) -> (member: bool)
        ensures
            member == self@.contains(name@),
    {
        match self.index.position(name) {
            Some(at) => {
                assert(self.index.listed()[at as int] == name@);
                true
            },
            None => false,
        }
    }

    /// The name at position `i` of the list.
    pub fn get(&self, i: usize) -> (name: Option<&DomainName>)
        ensures
            i < self.count() ==> name is Some && name->0@ == self.listed()[i as int],
            i >= self.count() ==> name is None,
    {
        self.index.get(i)
    }

    /// The number of names in the set.
    pub fn len(&self) -> (n: usize)
        ensures
            n == self.count(),
            self.listed().no_duplicates(),
            self@ == self.listed().to_set(),
    {
        self.index.len()
    }

    /// Whether the set has no name.
    pub fn is_empty(&self) -> (empty: bool)
        ensures
            empty == (self.count() == 0),
            empty == (self@ == Set::<Seq<Seq<u8>>>::empty()),
    {
        let empty = self.index.len() == 0;
        proof {
            if empty {
                assert(self@ =~= Set::<Seq<Seq<u8>>>::empty());
            } else {
                assert(self.index.listed().contains(self.index.listed()[0]));
                assert(self@.contains(self.index.listed()[0]));
            }
        }
        empty
    }
}

} // verus!
