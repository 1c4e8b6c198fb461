use crate::name::DomainName;
use std::collections::HashMap;
use vstd::prelude::*;

verus! {

/// The value that begins the hash of a name.
pub const HASH_SEED: u64 = 2166136261;

/// The hash of a name that ends in the byte `b`, from the hash of what is
/// before it.
#[verifier::opaque]
pub open spec fn mix(hash: u64, b: u8) -> u64 {
    ((hash * 16777619 + b + 1) % 4294967291) as u64
}

/// The hash of a text that ends in the bytes of `label`, from the hash of
/// what is before them.
pub open spec fn label_hash(hash: u64, label: Seq<u8>) -> u64
    decreases label.len(),
{
    if label.len() == 0 {
        hash
    } else {
        mix(label_hash(hash, label.drop_last()), label.last())
    }
}

/// The hash of a name: of the bytes of its labels, each label ended by a
/// dot.
pub open spec fn name_hash(labels: Seq<Seq<u8>>) -> u64
    decreases labels.len(),
{
    if labels.len() == 0 {
        HASH_SEED
    } else {
        mix(label_hash(name_hash(labels.drop_last()), labels.last()), 0x2e)
    }
}

fn mix_in(hash: u64, b: u8) -> (mixed: u64)
    requires
        hash < 4294967291,
    ensures
        mixed == mix(hash, b),
        mixed < 4294967291,
{
    reveal(mix);
    (hash * 16777619 + b as u64 + 1) % 4294967291
}

/// Computes the hash of a name.
pub fn hash_of(name: &DomainName) -> (hash: u64)
    ensures
        hash == name_hash(name@),
{
    let mut hash: u64 = HASH_SEED;
    let count: usize = name.num_labels();
    let mut i: usize = 0;
    proof {
        assert(name@.take(0) =~= Seq::empty());
    }
    while i < count
        invariant
            0 <= i <= count,
            count == name@.len(),
            hash < 4294967291,
            hash == name_hash(name@.take(i as int)),
        decreases count - i,
    {
        let label: Vec<u8> = match name.label(i) {
            Some(label) => label,
            None => Vec::new(),
        };
        let ghost start = hash;
        let mut j: usize = 0;
        proof {
            assert(label@.take(0) =~= Seq::empty());
        }
        while j < label.len()
            invariant
                0 <= j <= label.len(),
                hash < 4294967291,
                hash == label_hash(start, label@.take(j as int)),
            decreases label.len() - j,
        {
            proof {
                assert(label@.take(j + 1).drop_last() =~= label@.take(j as int));
            }
            hash = mix_in(hash, label[j]);
            j += 1;
        }
        proof {
            assert(label@.take(label@.len() as int) =~= label@);
            assert(name@.take(i + 1).drop_last() =~= name@.take(i as int));
            assert(name@.take(i + 1).last() == label@);
        }
        hash = mix_in(hash, 0x2e);
        i += 1;
    }
    proof {
        assert(name@.take(count as int) =~= name@);
    }
    hash
}

/// The names of a list, each once, in the order in which they come first.
pub open spec fn unique(names: Seq<Seq<Seq<u8>>>) -> Seq<Seq<Seq<u8>>>
    decreases names.len(),
{
    if names.len() == 0 {
        Seq::empty()
    } else {
        let before = unique(names.drop_last());
        if before.contains(names.last()) {
            before
        } else {
            before.push(names.last())
        }
    }
}

/// The names of a vector of names.
pub open spec fn views(names: Seq<DomainName>) -> Seq<Seq<Seq<u8>>> {
    Seq::new(names.len(), |i: int| names[i]@)
}

/// Names, each held once and found by its hash.
///
/// The names lie in a vector, and a `HashMap` of std has for each hash the
/// positions of the names with that hash. The map is keyed by the hash, an
/// integer, and not by the names: what a map does with a key is known only
/// for keys whose `Hash` and `Eq` are known, which those of integers are and
/// derived ones are not.
#[derive(Debug)]
pub struct NameIndex {
    names: Vec<DomainName>,
    buckets: HashMap<u64, Vec<usize>>,
}

impl NameIndex {
    #[verifier::type_invariant]
    spec fn inv(self) -> bool {
        Self::sound(self.names@, self.buckets@)
    }

    /// No name is held twice; each name is under its hash; and what is
    /// under a hash is the position of a name.
    spec fn sound(names: Seq<DomainName>, buckets: Map<u64, Vec<usize>>) -> bool {
        &&& views(names).no_duplicates()
        &&& forall|i: int| 0 <= i < names.len() ==> #[trigger] Self::placed(names, buckets, i)
        &&& forall|hash: u64, j: int| #[trigger] Self::bounded(names, buckets, hash, j)
    }

    /// The name at position `i` is under its hash.
    spec fn placed(names: Seq<DomainName>, buckets: Map<u64, Vec<usize>>, i: int) -> bool {
        buckets.contains_key(name_hash(names[i]@)) && buckets[name_hash(names[i]@)]@.contains(
            i as usize,
        )
    }

    /// The entry at position `j` under a hash, if there is one, is the
    /// position of a name.
    spec fn bounded(names: Seq<DomainName>, buckets: Map<u64, Vec<usize>>, hash: u64, j: int) -> bool {
        buckets.contains_key(hash) && 0 <= j < buckets[hash]@.len() ==> buckets[hash]@[j]
            < names.len()
    }

    /// The names, in the order in which they came.
    pub closed spec fn listed(&self) -> Seq<Seq<Seq<u8>>> {
        views(self.names@)
    }

    /// The index without a name.
    pub fn new() -> (index: Self)
        ensures
            index.listed() == Seq::<Seq<Seq<u8>>>::empty(),
            index.listed().no_duplicates(),
    {
        let index = NameIndex { names: Vec::new(), buckets: HashMap::new() };
        assert(index.listed() =~= Seq::empty());
        index
    }

    /// The number of names.
    pub fn len(&self) -> (n: usize)
        ensures
            n == self.listed().len(),
            self.listed().no_duplicates(),
    {
        proof {
            use_type_invariant(self);
        }
        self.names.len()
    }

    /// The name at position `i`.
    pub fn get(&self, i: usize) -> (name: Option<&DomainName>)
        ensures
            i < self.listed().len() ==> name is Some && name->0@ == self.listed()[i as int],
            i >= self.listed().len() ==> name is None,
    {
        if i < self.names.len() {
            Some(&self.names[i])
        } else {
            None
        }
    }

    /// The position of `name`, if it is held.
    pub fn position(&self, name: &DomainName) -> (at: Option<usize>)
        ensures
            match at {
                Some(i) => i < self.listed().len() && self.listed()[i as int] == name@,
                None => !self.listed().contains(name@),
            },
            self.listed().no_duplicates(),
    {
        broadcast use
            vstd::std_specs::hash::axiom_u64_obeys_hash_table_key_model,
            vstd::std_specs::hash::axiom_random_state_builds_valid_hashers,
            vstd::std_specs::hash::axiom_contains_deref_key,
            vstd::std_specs::hash::axiom_maps_deref_key_to_value,
        ;

        proof {
            use_type_invariant(self);
        }
        let hash: u64 = hash_of(name);
        match self.buckets.get(&hash) {
            None => {
                assert(!self.listed().contains(name@)) by {
                    if self.listed().contains(name@) {
                        let i = choose|i: int|
                            0 <= i < self.listed().len() && self.listed()[i] == name@;
                        assert(self.names@[i]@ == name@);
                        assert(Self::placed(self.names@, self.buckets@, i));
                    }
                }
                None
            },
            Some(bucket) => {
                proof {
                    assert forall|k: int| 0 <= k < bucket@.len() implies bucket@[k]
                        < self.names@.len() by {
                        assert(Self::bounded(self.names@, self.buckets@, hash, k));
                    }
                    if self.listed().contains(name@) {
                        let i = choose|i: int|
                            0 <= i < self.listed().len() && self.listed()[i] == name@;
                        assert(self.names@[i]@ == name@);
                        assert(Self::placed(self.names@, self.buckets@, i));
                        assert(0 <= i < self.names.len() <= usize::MAX);
                        let at = i as usize;
                        assert(*bucket == self.buckets@[hash]);
                        assert(bucket@.contains(at));
                        let k = choose|k: int| 0 <= k < bucket@.len() && bucket@[k] == at;
                        assert(bucket@[k] as int == i);
                        assert(Self::points_at(self.names@, bucket@, name@, k));
                    }
                }
                let mut j: usize = 0;
                while j < bucket.len()
                    invariant
                        0 <= j <= bucket.len(),
                        self.listed().no_duplicates(),
                        forall|k: int| 0 <= k < bucket@.len() ==> bucket@[k] < self.names@.len(),
                        self.listed().contains(name@) ==> exists|k: int|
                            Self::points_at(self.names@, bucket@, name@, k),
                        forall|k: int|
                            0 <= k < j ==> !Self::points_at(self.names@, bucket@, name@, k),
                    decreases bucket.len() - j,
                {
                    let at: usize = bucket[j];
                    if self.names[at].same(name) {
                        assert(self.listed()[at as int] == name@);
                        return Some(at);
                    }
                    j += 1;
                }
                None
            },
        }
    }

    /// The entry at position `k` of a bucket is the position of `name`.
    spec fn points_at(names: Seq<DomainName>, bucket: Seq<usize>, name: Seq<Seq<u8>>, k: int) -> bool {
        0 <= k < bucket.len() && bucket[k] < names.len() && names[bucket[k] as int]@ == name
    }

    /// Takes `name` in, where it is not held yet; gives the index and the
    /// position of the name in it.
    pub fn insert(self, name: DomainName) -> (grown: (Self, usize))
        ensures
            grown.1 < grown.0.listed().len(),
            grown.0.listed()[grown.1 as int] == name@,
            grown.0.listed().no_duplicates(),
            self.listed().contains(name@) ==> grown.0.listed() == self.listed(),
            !self.listed().contains(name@) ==> grown.0.listed() == self.listed().push(name@)
                && grown.1 == self.listed().len(),
    {
        broadcast use
            vstd::std_specs::hash::axiom_u64_obeys_hash_table_key_model,
            vstd::std_specs::hash::axiom_random_state_builds_valid_hashers,
            vstd::std_specs::hash::axiom_contains_deref_key,
            vstd::std_specs::hash::axiom_maps_deref_key_to_value,
            vstd::std_specs::hash::axiom_deref_key_removed,
        ;

        proof {
            use_type_invariant(&self);
        }
        match self.position(&name) {
            Some(at) => (self, at),
            None => {
                let ghost before = self.names@;
                let ghost old_buckets = self.buckets@;
                let ghost added = name@;
                let NameIndex { names, buckets } = self;
                let mut names = names;
                let mut buckets = buckets;
                let hash: u64 = hash_of(&name);
                let at: usize = names.len();
                let mut bucket: Vec<usize> = match buckets.remove(&hash) {
                    Some(bucket) => bucket,
                    None => Vec::new(),
                };
                let ghost old_bucket = bucket@;
                bucket.push(at);
                buckets.insert(hash, bucket);
                names.push(name);
                proof {
                    let after = names@;
                    assert(views(after) =~= views(before).push(added));
                    assert(views(after).no_duplicates()) by {
                        assert forall|a: int, b: int|
                            0 <= a < after.len() && 0 <= b < after.len() && a != b implies views(
                            after,
                        )[a] != views(after)[b] by {
                            if a < before.len() && b < before.len() {
                                assert(views(before)[a] != views(before)[b]);
                            } else if a < before.len() {
                                assert(views(before)[a] == before[a]@);
                            } else {
                                assert(views(before)[b] == before[b]@);
                            }
                        }
                    }
                    assert forall|i: int| 0 <= i < after.len() implies #[trigger] Self::placed(
                        after,
                        buckets@,
                        i,
                    ) by {
                        if i < before.len() {
                            assert(after[i] == before[i]);
                            let h = name_hash(before[i]@);
                            assert(Self::placed(before, old_buckets, i));
                            if h == hash {
                                let k = choose|k: int|
                                    0 <= k < old_bucket.len() && old_bucket[k] == i as usize;
                                assert(bucket@[k] == i as usize);
                            }
                        } else {
                            assert(bucket@[old_bucket.len() as int] == at);
                        }
                    }
                    assert forall|h: u64, j: int| #[trigger]
                        Self::bounded(after, buckets@, h, j) by {
                        assert(Self::bounded(before, old_buckets, h, j));
                    }
                }
                (NameIndex { names, buckets }, at)
            },
        }
    }
}

impl Clone for NameIndex {
    fn clone(&self) -> (copy: Self)
        ensures
            copy.listed() == self.listed(),
            copy.listed().no_duplicates(),
    {
        proof {
            use_type_invariant(self);
        }
        let mut names: Vec<DomainName> = Vec::new();
        let mut i: usize = 0;
        while i < self.names.len()
            invariant
                0 <= i <= self.names.len(),
                names@.len() == i,
                forall|k: int| 0 <= k < i ==> names@[k]@ == self.names@[k]@,
            decreases self.names.len() - i,
        {
            names.push(self.names[i].clone());
            i += 1;
        }
        let buckets = self.buckets.clone();
        proof {
            assert(views(names@) =~= views(self.names@));
            assert forall|i: int| 0 <= i < names@.len() implies #[trigger] Self::placed(
                names@,
                buckets@,
                i,
            ) by {
                assert(Self::placed(self.names@, self.buckets@, i));
            }
            assert forall|h: u64, j: int| #[trigger] Self::bounded(names@, buckets@, h, j) by {
                assert(Self::bounded(self.names@, self.buckets@, h, j));
            }
        }
        NameIndex { names, buckets }
    }
}

} // verus!
