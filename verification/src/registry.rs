use vstd::prelude::*;

verus! {

/// A key is registered iff it occurs in the list of registered keys.
pub open spec fn registered(keys: Seq<Seq<char>>, key: Seq<char>) -> bool {
    exists|i: int| 0 <= i < keys.len() && keys[i] == key
}

/// The key list after registering `key`: unchanged if already present,
/// otherwise the key is appended, which makes its id the previous length.
pub open spec fn spec_register(keys: Seq<Seq<char>>, key: Seq<char>) -> Seq<Seq<char>> {
    if registered(keys, key) {
        keys
    } else {
        keys.push(key)
    }
}

/// The id handed out for `key` when it is resolved against `keys`:
/// the index where it already stands, or the next free index.
pub open spec fn spec_id(keys: Seq<Seq<char>>, key: Seq<char>) -> int {
    if registered(keys, key) {
        choose|i: int| 0 <= i < keys.len() && keys[i] == key
    } else {
        keys.len() as int
    }
}

/// What looking an id up yields: the key at that index, if the id was
/// ever handed out (ids are exactly the indices below the length).
pub open spec fn spec_lookup(keys: Seq<Seq<char>>, id: int) -> Option<Seq<char>> {
    if 0 <= id < keys.len() {
        Some(keys[id])
    } else {
        None
    }
}

/// No key occurs twice; together with ids being indices this makes the
/// key-to-id and id-to-key directions mutual inverses.
pub open spec fn distinct_keys(keys: Seq<Seq<char>>) -> bool {
    forall|i: int, j: int| 0 <= i < j < keys.len() ==> keys[i] != keys[j]
}

/// Bidirectional mapping between caller-chosen room keys and numeric room
/// ids. Ids are assigned in first-seen order and never reused: the id of a
/// key is its index in the insertion-ordered list of registered keys.
pub struct RoomRegistry {
    keys: Vec<String>,
}

impl View for RoomRegistry {
    type V = Seq<Seq<char>>;

    closed spec fn view(&self) -> Seq<Seq<char>> {
        self.keys.deep_view()
    }
}

impl RoomRegistry {
    pub open spec fn wf(&self) -> bool {
        distinct_keys(self@)
    }

    pub fn new() -> (r: RoomRegistry)
        ensures
            r.wf(),
            r@ == Seq::<Seq<char>>::empty(),
    {
        let r = RoomRegistry { keys: Vec::new() };
        proof {
            assert(r@ =~= Seq::<Seq<char>>::empty());
        }
        r
    }

    /// How many keys are registered; every id handed out so far lies below it.
    pub fn count(&self) -> (n: usize)
        ensures
            n == self@.len(),
    {
        self.keys.len()
    }

    /// Returns the existing id for `key` if present; otherwise records the
    /// key under the next sequential id and returns that. Never fails.
    pub fn resolve_or_create(&mut self, key: String) -> (id: u32)
        requires
            old(self).wf(),
            old(self)@.len() < 0xffff_ffff,
        ensures
            final(self).wf(),
            final(self)@ == spec_register(old(self)@, key@),
            id as int == spec_id(old(self)@, key@),
            (id as int) < final(self)@.len(),
            final(self)@[id as int] == key@,
    {
        let n = self.keys.len();
        for i in 0..n
            invariant
                n == self.keys.len(),
                *self == *old(self),
                self.wf(),
                self@.len() < 0xffff_ffff,
                forall|j: int| 0 <= j < i ==> self@[j] != key@,
        {
            assert(self@[i as int] == self.keys@[i as int]@);
            if self.keys[i] == key {
                proof {
                    assert(registered(self@, key@));
                    let w = choose|w: int| 0 <= w < self@.len() && self@[w] == key@;
                    assert(w == i as int);
                }
                return i as u32;
            }
        }
        let id = self.keys.len();
        self.keys.push(key);
        proof {
            assert(!registered(old(self)@, key@));
            assert(self@ =~= old(self)@.push(key@));
        }
        id as u32
    }

    /// Returns the key registered under `id`, or nothing if `id` was never
    /// allocated.
    pub fn lookup(&self, id: u32) -> (r: Option<&String>)
        ensures
            r is Some <==> spec_lookup(self@, id as int) is Some,
            r matches Some(k) ==> spec_lookup(self@, id as int) == Some(k@),
    {
        if (id as usize) < self.keys.len() {
            let k = &self.keys[id as usize];
            proof {
                assert(self@[id as int] == self.keys@[id as int]@);
            }
            Some(k)
        } else {
            None
        }
    }
}

/// Resolving the same key twice hands out the same id both times, and the
/// second resolution leaves the registry unchanged.
pub proof fn lemma_resolve_idempotent(keys: Seq<Seq<char>>, key: Seq<char>)
    requires
        distinct_keys(keys),
    ensures
        spec_register(spec_register(keys, key), key) == spec_register(keys, key),
        spec_id(spec_register(keys, key), key) == spec_id(keys, key),
{
    if registered(keys, key) {
        assert(spec_register(keys, key) == keys);
    } else {
        let ks1 = keys.push(key);
        assert(ks1[keys.len() as int] == key);
        assert(registered(ks1, key));
        let w = choose|w: int| 0 <= w < ks1.len() && ks1[w] == key;
        if w < keys.len() {
            assert(keys[w] == key);
            assert(registered(keys, key));
            assert(false);
        }
        assert(w == keys.len() as int);
    }
}

/// Of two distinct keys registered in that order, the first receives the
/// smaller id. "In that order" means `k2` is not yet present when `k1` is
/// resolved: a key that was registered earlier keeps its earlier, smaller id.
pub proof fn lemma_resolve_ordered(keys: Seq<Seq<char>>, k1: Seq<char>, k2: Seq<char>)
    requires
        distinct_keys(keys),
        k1 != k2,
        !registered(keys, k2),
    ensures
        spec_id(keys, k1) < spec_id(spec_register(keys, k1), k2),
{
    let ks1 = spec_register(keys, k1);
    if registered(ks1, k2) {
        let w = choose|w: int| 0 <= w < ks1.len() && ks1[w] == k2;
        if w < keys.len() {
            assert(keys[w] == k2);
        }
        assert(false);
    }
    assert(spec_id(ks1, k2) == ks1.len() as int);
    if registered(keys, k1) {
        assert(spec_id(keys, k1) < keys.len());
    }
}

/// Looking up the id that resolving `key` returned yields `key` itself.
pub proof fn lemma_lookup_roundtrip(keys: Seq<Seq<char>>, key: Seq<char>)
    requires
        distinct_keys(keys),
    ensures
        spec_lookup(spec_register(keys, key), spec_id(keys, key)) == Some(key),
{
    if registered(keys, key) {
        let w = choose|w: int| 0 <= w < keys.len() && keys[w] == key;
        assert(spec_id(keys, key) == w);
    }
}

/// An id at or above the number of registered keys was never handed out
/// (ids only ever equal indices below the length, and the length never
/// shrinks), and looking it up yields nothing.
pub proof fn lemma_lookup_unallocated(keys: Seq<Seq<char>>, id: int)
    requires
        id >= keys.len() || id < 0,
    ensures
        spec_lookup(keys, id) is None,
{
}

} // verus!
