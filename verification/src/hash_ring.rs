//! Consistent hashing: a ring of hash values on which every server owns many points.
//!
//! A key belongs to the server that owns the first point at or above the key's hash, and behind the
//! highest point the ring starts over.
use vstd::prelude::*;

use std::hash::{Hash, Hasher};

verus! {

broadcast use vstd::string::group_string_axioms;

/// The hash map of the `ahash` crate, as an opaque value.
#[verifier::external_type_specification]
#[verifier::external_body]
#[verifier::reject_recursive_types(K)]
#[verifier::reject_recursive_types(V)]
#[verifier::reject_recursive_types(S)]
pub struct ExAHashMap<K, V, S>(ahash::AHashMap<K, V, S>);

/// The seeded hasher state of the `ahash` crate, as an opaque value.
#[verifier::external_type_specification]
#[verifier::external_body]
pub struct ExRandomState(ahash::RandomState);

/// What an `ahash` map from hashes to servers holds.
pub uninterp spec fn ring_contents(m: ahash::AHashMap<u64, usize, ahash::RandomState>) -> Map<
    u64,
    usize,
>;

/// `AHashMap::new` makes a map without entries.
#[verifier::external_body]
fn ring_new() -> (result: ahash::AHashMap<u64, usize, ahash::RandomState>)
    ensures
        ring_contents(result).dom() == Set::<u64>::empty(),
{
    ahash::AHashMap::new()
}

/// `clear`, which `AHashMap` takes from the standard hash map that it wraps, removes every entry.
#[verifier::external_body]
fn ring_clear(m: &mut ahash::AHashMap<u64, usize, ahash::RandomState>)
    ensures
        ring_contents(*final(m)).dom() == Set::<u64>::empty(),
{
    m.clear()
}

/// `AHashMap::insert` gives the key the value, whether or not the key was there, and leaves the
/// other keys alone.
#[verifier::external_body]
fn ring_insert(m: &mut ahash::AHashMap<u64, usize, ahash::RandomState>, hash: u64, owner: usize)
    ensures
        ring_contents(*final(m)) == ring_contents(*old(m)).insert(hash, owner),
{
    m.insert(hash, owner);
}

/// `AHashMap::get` looks a key up.
#[verifier::external_body]
fn ring_get(m: &ahash::AHashMap<u64, usize, ahash::RandomState>, hash: u64) -> (result: Option<usize>)
    ensures
        result == (if ring_contents(*m).contains_key(hash) {
            Some(ring_contents(*m)[hash])
        } else {
            None
        }),
{
    m.get(&hash).copied()
}

/// The hash of a text by an `ahash` hasher with its fixed keys. The keys are drawn once per process,
/// so nothing is said of the value.
#[verifier::external_body]
pub(crate) fn hash_key(key: &str) -> (result: u64) {
    let mut hasher = ahash::AHasher::default();
    key.hash(&mut hasher);
    hasher.finish()
}

/// Whether a number is a hash of a text: one that `hash_key` gives for it.
pub closed spec fn is_hash_of(text: Seq<char>, hash: u64) -> bool {
    exists|s: &str| s@ == text && call_ensures(hash_key, (s,), hash)
}

fn call_on<F: Fn(&str) -> u64>(f: F, key: &str) -> (result: u64)
    requires
        call_requires(f, (key,)),
    ensures
        call_ensures(f, (key,), result),
{
    f(key)
}

/// The hash of a text.
pub fn hash_of(key: &str) -> (result: u64)
    ensures
        is_hash_of(key@, result),
{
    call_on(hash_key, key)
}

/// A text has no hashes but those that the hasher gives for it.
pub(crate) proof fn law_hashes_come_from_the_hasher(text: Seq<char>, hash: u64)
    requires
        is_hash_of(text, hash),
    ensures
        exists|s: &str| s@ == text && call_ensures(hash_key, (s,), hash),
{
}

/// Whether the hasher always gives a text the same hash, as it does while its keys stay the same.
pub open spec fn hashes_are_fixed() -> bool {
    forall|text: Seq<char>, a: u64, b: u64| #[trigger]
        is_hash_of(text, a) && #[trigger] is_hash_of(text, b) ==> a == b
}

/// The points of a ring in the order in which they were laid down: a hash and the server that owns
/// it.
pub type Points = Seq<(u64, usize)>;

/// The hashes of the points.
pub open spec fn hashes(points: Points) -> Seq<u64> {
    points.map_values(|p: (u64, usize)| p.0)
}

/// The servers of the points.
pub open spec fn owners(points: Points) -> Seq<usize> {
    points.map_values(|p: (u64, usize)| p.1)
}

/// Who owns each hash: of points that share one, the point laid down last.
pub open spec fn ring_map(points: Points) -> Map<u64, usize>
    decreases points.len(),
{
    if points.len() == 0 {
        Map::empty()
    } else {
        ring_map(points.drop_last()).insert(points.last().0, points.last().1)
    }
}

/// `x` is the point on the ring that a key with hash `h` comes to first: the lowest point at or
/// above `h`, or the lowest of all where none is that high.
pub open spec fn is_successor(points: Points, h: u64, x: u64) -> bool {
    &&& hashes(points).contains(x)
    &&& if exists|y: u64| #[trigger] hashes(points).contains(y) && y >= h {
        x >= h && forall|y: u64| #[trigger] hashes(points).contains(y) && y >= h ==> x <= y
    } else {
        forall|y: u64| #[trigger] hashes(points).contains(y) ==> x <= y
    }
}

/// The point that a key with hash `h` comes to first.
pub open spec fn successor(points: Points, h: u64) -> u64 {
    choose|x: u64| is_successor(points, h, x)
}

/// The server of a key with hash `h`.
pub open spec fn owner_of(points: Points, h: u64) -> Option<usize> {
    if points.len() == 0 {
        None
    } else {
        Some(ring_map(points)[successor(points, h)])
    }
}

/// There is only one first point for a hash.
pub proof fn lemma_successor_unique(points: Points, h: u64, x: u64)
    requires
        is_successor(points, h, x),
    ensures
        successor(points, h) == x,
{
    let y = successor(points, h);
    assert(is_successor(points, h, y));
}

/// A ring with points has a first point for every hash.
pub proof fn lemma_successor_exists(points: Points, h: u64)
    requires
        points.len() > 0,
    ensures
        is_successor(points, h, successor(points, h)),
    decreases points.len(),
{
    let last = points.last().0;
    let rest = points.drop_last();
    assert(hashes(points)[points.len() - 1] == last);
    assert forall|y: u64| #[trigger] hashes(points).contains(y) implies y == last || hashes(
        rest,
    ).contains(y) by {
        let i = hashes(points).index_of(y);
        if i < points.len() - 1 {
            assert(hashes(rest)[i] == y);
        }
    }
    assert forall|y: u64| #[trigger] hashes(rest).contains(y) implies hashes(points).contains(
        y,
    ) by {
        let i = hashes(rest).index_of(y);
        assert(hashes(points)[i] == y);
    }
    if rest.len() == 0 {
        assert(is_successor(points, h, last));
    } else {
        lemma_successor_exists(rest, h);
        let x = successor(rest, h);
        if is_successor(points, h, x) {
        } else {
            assert(is_successor(points, h, last));
        }
    }
}

/// The map knows exactly the hashes of the points, and gives each a server that owns a point there.
pub proof fn lemma_ring_map(points: Points)
    ensures
        forall|x: u64| #[trigger] ring_map(points).contains_key(x) <==> hashes(points).contains(x),
        forall|x: u64| #[trigger]
            ring_map(points).contains_key(x) ==> points.contains((x, ring_map(points)[x])),
    decreases points.len(),
{
    if points.len() > 0 {
        let rest = points.drop_last();
        lemma_ring_map(rest);
        assert forall|x: u64| #[trigger]
            ring_map(points).contains_key(x) <==> hashes(points).contains(x) by {
            if hashes(points).contains(x) {
                let i = hashes(points).index_of(x);
                if i < rest.len() {
                    assert(hashes(rest)[i] == x);
                    assert(ring_map(rest).contains_key(x));
                }
            }
            if ring_map(points).contains_key(x) {
                if x == points.last().0 {
                    assert(hashes(points)[points.len() - 1] == x);
                } else {
                    assert(ring_map(rest).contains_key(x));
                    let i = hashes(rest).index_of(x);
                    assert(hashes(points)[i] == x);
                }
            }
        }
        assert forall|x: u64| #[trigger] ring_map(points).contains_key(x) implies points.contains(
            (x, ring_map(points)[x]),
        ) by {
            if x == points.last().0 {
                assert(points[points.len() - 1] == (x, ring_map(points)[x]));
            } else {
                assert(ring_map(rest).contains_key(x));
                let i = rest.index_of((x, ring_map(rest)[x]));
                assert(points[i] == (x, ring_map(points)[x]));
            }
        }
    } else {
        assert(forall|x: u64| !hashes(points).contains(x));
    }
}

/// The points that are left when one server goes.
pub open spec fn without(points: Points, gone: usize) -> Points
    decreases points.len(),
{
    if points.len() == 0 {
        points
    } else if points.last().1 == gone {
        without(points.drop_last(), gone)
    } else {
        without(points.drop_last(), gone).push(points.last())
    }
}

proof fn lemma_without(points: Points, gone: usize)
    ensures
        forall|x: u64| #[trigger]
            hashes(without(points, gone)).contains(x) ==> hashes(points).contains(x),
        forall|x: u64|
            #![trigger ring_map(points)[x]]
            ring_map(points).contains_key(x) && ring_map(points)[x] != gone ==> ring_map(
                without(points, gone),
            ).contains_key(x) && ring_map(without(points, gone))[x] == ring_map(points)[x],
    decreases points.len(),
{
    if points.len() > 0 {
        let rest = points.drop_last();
        lemma_without(rest, gone);
        let left = without(points, gone);
        assert forall|x: u64| #[trigger] hashes(left).contains(x) implies hashes(points).contains(
            x,
        ) by {
            let i = hashes(left).index_of(x);
            if points.last().1 != gone && i == left.len() - 1 {
                assert(hashes(points)[points.len() - 1] == x);
            } else {
                assert(hashes(without(rest, gone))[i] == x);
                assert(hashes(without(rest, gone)).contains(x));
                assert(hashes(rest).contains(x));
                let j = hashes(rest).index_of(x);
                assert(hashes(points)[j] == x);
            }
        }
        if points.last().1 != gone {
            assert(left.drop_last() =~= without(rest, gone));
        }
        assert forall|x: u64|
            #![trigger ring_map(points)[x]]
            ring_map(points).contains_key(x) && ring_map(points)[x] != gone implies ring_map(
            left,
        ).contains_key(x) && ring_map(left)[x] == ring_map(points)[x] by {
            if x != points.last().0 {
                assert(ring_map(rest)[x] == ring_map(points)[x]);
            }
        }
    }
}

/// Of the points at a hash, the one laid down last decides.
proof fn lemma_last_wins(points: Points, k: int)
    requires
        0 <= k < points.len(),
        forall|j: int| k < j < points.len() ==> (#[trigger] points[j]).0 != points[k].0,
    ensures
        ring_map(points).contains_key(points[k].0),
        ring_map(points)[points[k].0] == points[k].1,
    decreases points.len(),
{
    if k < points.len() - 1 {
        let rest = points.drop_last();
        assert forall|j: int| k < j < rest.len() implies (#[trigger] rest[j]).0 != rest[k].0 by {
            assert(points[j].0 != points[k].0);
        }
        lemma_last_wins(rest, k);
        assert(points[points.len() - 1].0 != points[k].0);
    }
}

/// A key goes to the point at its hash or, where there is none, to the next one above: to the server
/// of that point. Above the highest point it goes round to the lowest. Where points share a hash, the
/// one laid down last counts.
pub proof fn law_keys_go_to_the_next_point(points: Points, h: u64, k: int)
    requires
        0 <= k < points.len(),
        forall|j: int| k < j < points.len() ==> (#[trigger] points[j]).0 != points[k].0,
        if h <= points[k].0 {
            forall|j: int|
                0 <= j < points.len() ==> (#[trigger] points[j]).0 < h || points[k].0 <= points[j].0
        } else {
            forall|j: int|
                0 <= j < points.len() ==> points[k].0 <= (#[trigger] points[j]).0 < h
        },
    ensures
        owner_of(points, h) == Some(points[k].1),
{
    let x = points[k].0;
    assert(hashes(points)[k] == x);
    assert forall|y: u64| #[trigger] hashes(points).contains(y) implies exists|j: int|
        0 <= j < points.len() && (#[trigger] points[j]).0 == y by {
        let j = hashes(points).index_of(y);
        assert(points[j].0 == y);
    }
    assert(hashes(points).contains(x));
    assert forall|y: u64| #[trigger] hashes(points).contains(y) implies (if h <= x {
        y < h || x <= y
    } else {
        x <= y && y < h
    }) by {
        let j = choose|j: int| 0 <= j < points.len() && (#[trigger] points[j]).0 == y;
        assert(points[j].0 == y);
    }
    assert(is_successor(points, h, x));
    lemma_successor_unique(points, h, x);
    lemma_last_wins(points, k);
}

/// Where no two points share a hash, every point has keys, namely those with its own hash: so every
/// server with a point on the ring gets a share.
pub proof fn law_every_point_has_keys(points: Points, k: int)
    requires
        0 <= k < points.len(),
        hashes(points).no_duplicates(),
    ensures
        owner_of(points, points[k].0) == Some(points[k].1),
{
    assert forall|j: int| k < j < points.len() implies (#[trigger] points[j]).0 != points[k].0 by {
        assert(hashes(points)[j] != hashes(points)[k]);
    }
    law_keys_go_to_the_next_point(points, points[k].0, k);
}

/// There is no server for a key exactly where the ring is empty.
pub proof fn law_empty_ring_has_no_server(points: Points, h: u64)
    ensures
        owner_of(points, h) is None <==> points.len() == 0,
{
}

/// Taking a server out of two stretches of points takes it out of each.
pub proof fn lemma_without_add(a: Points, b: Points, gone: usize)
    ensures
        without(a + b, gone) == without(a, gone) + without(b, gone),
    decreases b.len(),
{
    if b.len() == 0 {
        assert(a + b =~= a);
        assert(without(a, gone) + without(b, gone) =~= without(a, gone));
    } else {
        assert((a + b).drop_last() =~= a + b.drop_last());
        lemma_without_add(a, b.drop_last(), gone);
        assert(without(a + b, gone) =~= without(a, gone) + without(b, gone));
    }
}

/// Points of other servers all stay, and of points of the server itself none does.
pub proof fn lemma_without_one(points: Points, owner: usize, gone: usize)
    requires
        forall|k: int| 0 <= k < points.len() ==> (#[trigger] points[k]).1 == owner,
    ensures
        without(points, gone) == (if owner == gone {
            Seq::empty()
        } else {
            points
        }),
    decreases points.len(),
{
    if points.len() > 0 {
        let rest = points.drop_last();
        assert forall|k: int| 0 <= k < rest.len() implies (#[trigger] rest[k]).1 == owner by {
            assert(points[k].1 == owner);
        }
        lemma_without_one(rest, owner, gone);
        assert(points[points.len() - 1].1 == owner);
        assert(rest.push(points.last()) =~= points);
    }
}

/// Points without the server stay as they are.
pub proof fn lemma_without_absent(points: Points, gone: usize)
    requires
        forall|k: int| 0 <= k < points.len() ==> (#[trigger] points[k]).1 != gone,
    ensures
        without(points, gone) == points,
    decreases points.len(),
{
    if points.len() > 0 {
        let rest = points.drop_last();
        assert forall|k: int| 0 <= k < rest.len() implies (#[trigger] rest[k]).1 != gone by {
            assert(points[k].1 != gone);
        }
        lemma_without_absent(rest, gone);
        assert(points[points.len() - 1].1 != gone);
        assert(rest.push(points.last()) =~= points);
    }
}

/// When a server goes, only the keys that it owned move to others.
pub proof fn law_only_orphans_move(points: Points, gone: usize, h: u64)
    requires
        owner_of(points, h) is Some,
        owner_of(points, h) != Some(gone),
    ensures
        owner_of(without(points, gone), h) == owner_of(points, h),
{
    let left = without(points, gone);
    lemma_without(points, gone);
    lemma_ring_map(points);
    lemma_ring_map(left);
    lemma_successor_exists(points, h);
    let x = successor(points, h);
    assert(hashes(left).contains(x));
    let i = hashes(left).index_of(x);
    assert(left.len() > 0);
    assert(is_successor(left, h, x)) by {
        if exists|y: u64| #[trigger] hashes(left).contains(y) && y >= h {
            let y = choose|y: u64| #[trigger] hashes(left).contains(y) && y >= h;
            assert(hashes(points).contains(y));
        } else {
            assert(x < h);
        }
    }
    lemma_successor_unique(left, h, x);
}

/// Consistent hashing ring for sticky sessions.
pub struct ConsistentHashRing {
    /// Ring with virtual nodes pointing to upstream indices
    ring: ahash::AHashMap<u64, usize, ahash::RandomState>,
    /// Sorted hash values for efficient lookup
    sorted_hashes: Vec<u64>,
    /// Number of virtual nodes per upstream
    virtual_nodes_per_upstream: usize,
    /// The points that were laid down
    points: Ghost<Points>,
}

/// Whether no number is less than one before it.
pub open spec fn ascending(s: Seq<u64>) -> bool {
    forall|i: int, j: int| 0 <= i <= j < s.len() ==> s[i] <= s[j]
}

/// The place of the first number in an ascending list that is at least `h`, or the length where
/// there is none.
fn lower_bound(s: &Vec<u64>, h: u64) -> (result: usize)
    requires
        ascending(s@),
    ensures
        result <= s@.len(),
        forall|i: int| 0 <= i < result ==> s@[i] < h,
        forall|i: int| result <= i < s@.len() ==> s@[i] >= h,
{
    let mut low: usize = 0;
    let mut high: usize = s.len();
    while low < high
        invariant
            low <= high <= s@.len(),
            ascending(s@),
            forall|i: int| 0 <= i < low ==> s@[i] < h,
            forall|i: int| high <= i < s@.len() ==> s@[i] >= h,
        decreases high - low,
    {
        let middle: usize = low + (high - low) / 2;
        if s[middle] < h {
            low = middle + 1;
        } else {
            high = middle;
        }
    }
    low
}

impl ConsistentHashRing {
    /// The points of the ring.
    pub closed spec fn points(self) -> Points {
        self.points@
    }

    /// The number of points that each server has.
    pub closed spec fn nodes_per_server(self) -> usize {
        self.virtual_nodes_per_upstream
    }

    /// The map and the sorted list both show the points.
    pub closed spec fn wf(self) -> bool {
        &&& ring_contents(self.ring) == ring_map(self.points@)
        &&& ascending(self.sorted_hashes@)
        &&& self.sorted_hashes@.to_multiset() == hashes(self.points@).to_multiset()
    }

    /// Create a new consistent hash ring.
    pub fn new(virtual_nodes_per_upstream: usize) -> (result: Self)
        ensures
            result.wf(),
            result.points() == Seq::<(u64, usize)>::empty(),
            result.nodes_per_server() == virtual_nodes_per_upstream,
    {
        let ring = ConsistentHashRing {
            ring: ring_new(),
            sorted_hashes: Vec::new(),
            virtual_nodes_per_upstream,
            points: Ghost(Seq::empty()),
        };
        proof {
            assert(hashes(ring.points@) =~= ring.sorted_hashes@);
            assert(ring_contents(ring.ring) =~= ring_map(ring.points@));
        }
        ring
    }

    /// How many points each server has.
    pub fn virtual_nodes(&self) -> (result: usize)
        ensures
            result == self.nodes_per_server(),
    {
        self.virtual_nodes_per_upstream
    }

    /// Lays the ring out anew with a point for every label, where the labels have these hashes.
    pub fn lay_labels(&mut self, labels: &Vec<(String, usize)>, hashes: &Vec<u64>)
        requires
            hashes@.len() == labels@.len(),
        ensures
            final(self).wf(),
            final(self).points() == Seq::new(
                labels@.len(),
                |k: int| (hashes@[k], labels@[k].1),
            ),
            final(self).nodes_per_server() == old(self).nodes_per_server(),
    {
        let mut points: Vec<(u64, usize)> = Vec::new();
        let mut i: usize = 0;
        while i < labels.len()
            invariant
                i <= labels@.len() == hashes@.len(),
                points@ == Seq::new(i as nat, |k: int| (hashes@[k], labels@[k].1)),
            decreases labels@.len() - i,
        {
            points.push((hashes[i], labels[i].1));
            i += 1;
            assert(points@ =~= Seq::new(i as nat, |k: int| (hashes@[k], labels@[k].1)));
        }
        self.lay_out(&points);
    }

    /// Lays the ring out anew with these points.
    pub fn lay_out(&mut self, points: &Vec<(u64, usize)>)
        ensures
            final(self).wf(),
            final(self).points() == points@,
            final(self).nodes_per_server() == old(self).nodes_per_server(),
    {
        broadcast use vstd::seq_lib::group_to_multiset_ensures;

        ring_clear(&mut self.ring);
        self.sorted_hashes.clear();
        let mut i: usize = 0;
        assert(hashes(points@.take(0)) =~= self.sorted_hashes@);
        assert(ring_contents(self.ring) =~= ring_map(points@.take(0)));
        while i < points.len()
            invariant
                i <= points@.len(),
                ring_contents(self.ring) == ring_map(points@.take(i as int)),
                ascending(self.sorted_hashes@),
                self.sorted_hashes@.to_multiset() == hashes(points@.take(i as int)).to_multiset(),
                self.virtual_nodes_per_upstream == old(self).virtual_nodes_per_upstream,
            decreases points@.len() - i,
        {
            let (hash, owner) = points[i];
            proof {
                let next = points@.take(i + 1);
                assert(next.drop_last() =~= points@.take(i as int));
                assert(hashes(next) =~= hashes(points@.take(i as int)).push(hash));
            }
            ring_insert(&mut self.ring, hash, owner);
            let at = lower_bound(&self.sorted_hashes, hash);
            let ghost before = self.sorted_hashes@;
            self.sorted_hashes.insert(at, hash);
            proof {
                vstd::seq_lib::to_multiset_insert(before, at as int, hash);
                vstd::seq_lib::to_multiset_build(hashes(points@.take(i as int)), hash);
            }
            i += 1;
        }
        proof {
            assert(points@.take(i as int) =~= points@);
        }
        self.points = Ghost(points@);
    }

    /// The server of a key with this hash.
    pub fn lookup(&self, hash: u64) -> (result: Option<usize>)
        requires
            self.wf(),
        ensures
            result == owner_of(self.points(), hash),
    {
        broadcast use vstd::seq_lib::group_to_multiset_ensures;

        let ghost all = hashes(self.points@);
        let ghost sorted = self.sorted_hashes@;
        proof {
            assert forall|x: u64| sorted.contains(x) <==> #[trigger] all.contains(x) by {
                assert(sorted.to_multiset().count(x) == all.to_multiset().count(x));
            }
            assert(sorted.len() == all.len()) by {
                assert(sorted.to_multiset().len() == all.to_multiset().len());
            }
        }
        if self.sorted_hashes.len() == 0 {
            return None;
        }
        let found = lower_bound(&self.sorted_hashes, hash);
        let at: usize = if found == self.sorted_hashes.len() {
            0
        } else {
            found
        };
        let value = self.sorted_hashes[at];
        proof {
            assert(sorted.contains(value));
            assert(is_successor(self.points@, hash, value)) by {
                assert forall|y: u64| #[trigger] all.contains(y) implies exists|k: int|
                    0 <= k < sorted.len() && sorted[k] == y by {
                    assert(sorted.contains(y));
                }
                if found < sorted.len() {
                    assert(all.contains(value) && value >= hash);
                }
            }
            lemma_successor_unique(self.points@, hash, value);
            lemma_ring_map(self.points@);
        }
        ring_get(&self.ring, value)
    }

    /// The server of a key.
    pub fn get_upstream(&self, key: &str) -> (result: Option<usize>)
        requires
            self.wf(),
        ensures
            exists|hash: u64|
                is_hash_of(key@, hash) && result == #[trigger] owner_of(self.points(), hash),
            result is None <==> self.points().len() == 0,
    {
        let hash = hash_of(key);
        self.lookup(hash)
    }
}

} // verus!
