//! Which event ids were seen of late, so that a redelivery is dropped.

use vstd::prelude::*;

verus! {

/// The most ids that a cache can be made for: the table of so many keys fits in
/// the address space of every machine, and `lru` sets it up at once.
pub const LARGEST_CAPACITY: usize = 117_440_512;

/// The ids that a cache remembers, the oldest first, and how many it can hold.
pub struct DedupView {
    pub ids: Seq<Seq<char>>,
    pub capacity: nat,
}

/// A cache that remembers nothing yet.
pub open spec fn empty_cache(capacity: nat) -> DedupView {
    DedupView { ids: seq![], capacity }
}

/// No id is held twice, and no more are held than the cache is made for.
pub open spec fn well_formed(v: DedupView) -> bool {
    &&& v.capacity > 0
    &&& v.ids.len() <= v.capacity
    &&& v.ids.no_duplicates()
}

/// A new id is put behind the others, and where the cache is full the oldest
/// makes room for it; an id that is there already changes nothing.
pub open spec fn remember(v: DedupView, id: Seq<char>) -> DedupView {
    if v.ids.contains(id) {
        v
    } else if v.ids.len() < v.capacity {
        DedupView { ids: v.ids.push(id), ..v }
    } else {
        DedupView { ids: v.ids.drop_first().push(id), ..v }
    }
}

/// The cache after a sequence of ids.
pub open spec fn remember_all(v: DedupView, list: Seq<Seq<char>>) -> DedupView
    decreases list.len(),
{
    if list.len() == 0 {
        v
    } else {
        remember_all(remember(v, list[0]), list.skip(1))
    }
}

/// A bounded memory of event ids.
pub struct DedupCache {
    inner: lru::LruCache<String, ()>,
}

impl View for DedupCache {
    type V = DedupView;

    closed spec fn view(&self) -> DedupView {
        DedupView { ids: lru_keys(self.inner), capacity: lru_capacity(self.inner) }
    }
}

impl DedupCache {
    #[verifier::type_invariant]
    closed spec fn valid(self) -> bool {
        well_formed(self@)
    }

    /// An empty cache for `capacity` ids, or for one where `capacity` is 0.
    pub fn new(capacity: usize) -> (cache: Self)
        requires
            capacity <= LARGEST_CAPACITY,
        ensures
            well_formed(cache@),
            cache@ == empty_cache(
                if capacity == 0 {
                    1
                } else {
                    capacity as nat
                },
            ),
    {
        let capacity: usize = if capacity == 0 {
            1
        } else {
            capacity
        };
        DedupCache { inner: lru_new(capacity) }
    }

    /// Whether `id` is remembered.
    pub fn knows(&self, id: &str) -> (known: bool)
        ensures
            known == self@.ids.contains(id@),
    {
        lru_contains(&self.inner, id)
    }

    /// Whether `id` is new; from then on it is remembered.
    pub fn record(&mut self, id: &str) -> (fresh: bool)
        ensures
            fresh == !old(self)@.ids.contains(id@),
            final(self)@ == remember(old(self)@, id@),
            final(self)@.ids.contains(id@),
            well_formed(final(self)@),
    {
        proof {
            use_type_invariant(&*self);
        }
        if lru_contains(&self.inner, id) {
            return false;
        }
        let owned: String = id.to_owned();
        proof {
            lemma_remember(self@, id@);
        }
        lru_put(&mut self.inner, owned);
        true
    }
}

pub proof fn lemma_remember(v: DedupView, id: Seq<char>)
    requires
        well_formed(v),
    ensures
        well_formed(remember(v, id)),
        remember(v, id).ids.contains(id),
{
    let new = remember(v, id).ids;
    if !v.ids.contains(id) {
        assert(new.last() == id);
        assert forall|i: int, j: int|
            0 <= i < new.len() && 0 <= j < new.len() && i != j implies new[i] != new[j] by {
            if v.ids.len() < v.capacity {
                assert(i < v.ids.len() ==> v.ids.contains(new[i]));
                assert(j < v.ids.len() ==> v.ids.contains(new[j]));
            } else {
                assert(i < v.ids.len() - 1 ==> new[i] == v.ids[i + 1] && v.ids.contains(new[i]));
                assert(j < v.ids.len() - 1 ==> new[j] == v.ids[j + 1] && v.ids.contains(new[j]));
            }
        }
    }
}

/// Whatever is recorded, a cache never holds more ids than it is made for.
pub proof fn law_memory_is_bounded(v: DedupView, list: Seq<Seq<char>>)
    requires
        well_formed(v),
    ensures
        well_formed(remember_all(v, list)),
        remember_all(v, list).capacity == v.capacity,
    decreases list.len(),
{
    if list.len() > 0 {
        lemma_remember(v, list[0]);
        law_memory_is_bounded(remember(v, list[0]), list.skip(1));
    }
}

/// A new id is still known after fewer further ids than the cache can hold: a
/// redelivery within that window is dropped.
pub proof fn law_redelivery_is_known(v: DedupView, id: Seq<char>, later: Seq<Seq<char>>)
    requires
        well_formed(v),
        !v.ids.contains(id),
        later.len() < v.capacity,
    ensures
        remember_all(remember(v, id), later).ids.contains(id),
{
    lemma_remember(v, id);
    let first = remember(v, id);
    assert(first.ids[first.ids.len() - 1] == id);
    lemma_stays(first, id, first.ids.len() - 1, later);
}

/// An id at place `at` stays as long as no more ids follow than there is room
/// for, counting the places before it.
proof fn lemma_stays(v: DedupView, id: Seq<char>, at: int, later: Seq<Seq<char>>)
    requires
        well_formed(v),
        0 <= at < v.ids.len(),
        v.ids[at] == id,
        later.len() <= at + (v.capacity - v.ids.len()),
    ensures
        remember_all(v, later).ids.contains(id),
    decreases later.len(),
{
    if later.len() > 0 {
        let next = remember(v, later[0]);
        lemma_remember(v, later[0]);
        if v.ids.contains(later[0]) {
            lemma_stays(next, id, at, later.skip(1));
        } else if v.ids.len() < v.capacity {
            assert(next.ids[at] == id);
            lemma_stays(next, id, at, later.skip(1));
        } else {
            assert(next.ids[at - 1] == id);
            lemma_stays(next, id, at - 1, later.skip(1));
        }
    }
}

/// While no more ids were recorded than a cache can hold, however often each, an
/// id is new exactly where it was not recorded before.
pub proof fn law_new_where_not_recorded(capacity: nat, list: Seq<Seq<char>>, id: Seq<char>)
    requires
        capacity > 0,
        list.to_set().len() <= capacity,
    ensures
        remember_all(empty_cache(capacity), list).ids.contains(id) <==> list.contains(id),
{
    let none = Seq::<Seq<char>>::empty();
    assert(none + list =~= list);
    lemma_all_are_known(empty_cache(capacity), none, list, id);
}

proof fn lemma_all_are_known(
    v: DedupView,
    done: Seq<Seq<char>>,
    list: Seq<Seq<char>>,
    id: Seq<char>,
)
    requires
        well_formed(v),
        v.ids.to_set() =~= done.to_set(),
        (done + list).to_set().len() <= v.capacity,
    ensures
        remember_all(v, list).ids.contains(id) <==> (done + list).contains(id),
    decreases list.len(),
{
    if list.len() == 0 {
        assert(done + list =~= done);
        assert(v.ids.to_set().contains(id) <==> done.to_set().contains(id));
    } else {
        let new = list[0];
        let on = done.push(new);
        let next = remember(v, new);
        let all = (done + list).to_set();
        assert(on + list.skip(1) =~= done + list);
        lemma_remember(v, new);
        lemma_push_to_set(done, new);
        if v.ids.contains(new) {
            assert(v.ids.to_set().contains(new));
            assert(done.to_set().insert(new) =~= done.to_set());
        } else {
            assert(!v.ids.to_set().contains(new));
            v.ids.unique_seq_to_set();
            vstd::seq_lib::seq_to_set_is_finite(done);
            vstd::seq_lib::seq_to_set_is_finite(done + list);
            assert forall|x: Seq<char>| on.to_set().contains(x) implies all.contains(x) by {
                let i = on.index_of(x);
                assert((done + list)[i] == x);
            }
            vstd::set_lib::lemma_len_subset(on.to_set(), all);
            assert(v.ids.len() < v.capacity);
            lemma_push_to_set(v.ids, new);
        }
        lemma_all_are_known(next, on, list.skip(1), id);
    }
}

proof fn lemma_push_to_set(list: Seq<Seq<char>>, id: Seq<char>)
    ensures
        list.push(id).to_set() == list.to_set().insert(id),
{
    let more = list.push(id);
    assert forall|x: Seq<char>| list.to_set().insert(id).contains(x) implies more.to_set().contains(
        x,
    ) by {
        if x == id {
            assert(more[list.len() as int] == x);
        } else {
            assert(more[list.index_of(x)] == x);
        }
    }
    assert forall|x: Seq<char>| more.to_set().contains(x) implies list.to_set().insert(id).contains(
        x,
    ) by {
        let i = more.index_of(x);
        assert(i < list.len() ==> list[i] == x);
    }
    assert(more.to_set() =~= list.to_set().insert(id));
}

/// How many ids of a list are new as they are recorded.
pub open spec fn fresh_count(v: DedupView, list: Seq<Seq<char>>) -> nat
    decreases list.len(),
{
    if list.len() == 0 {
        0
    } else {
        fresh_count(remember(v, list[0]), list.skip(1)) + (if v.ids.contains(list[0]) {
            0nat
        } else {
            1nat
        })
    }
}

/// A new id that is not recorded again is known until as many further new ids
/// came as the cache can hold, and forgotten from then on.
pub proof fn law_forgotten_after_capacity(v: DedupView, id: Seq<char>, later: Seq<Seq<char>>)
    requires
        well_formed(v),
        !v.ids.contains(id),
        !later.contains(id),
    ensures
        remember_all(remember(v, id), later).ids.contains(id) <==> fresh_count(
            remember(v, id),
            later,
        ) < v.capacity,
{
    lemma_remember(v, id);
    let first = remember(v, id);
    lemma_leaves(first, id, first.ids.len() - 1, later);
}

/// An id at place `at` is there as long as no more new ids came than there is
/// room for, counting the places before it.
proof fn lemma_leaves(v: DedupView, id: Seq<char>, at: int, later: Seq<Seq<char>>)
    requires
        well_formed(v),
        0 <= at < v.ids.len(),
        v.ids[at] == id,
        !later.contains(id),
    ensures
        remember_all(v, later).ids.contains(id) <==> fresh_count(v, later) <= at + (v.capacity
            - v.ids.len()),
    decreases later.len(),
{
    if later.len() > 0 {
        let next = remember(v, later[0]);
        let rest = later.skip(1);
        lemma_remember(v, later[0]);
        assert(later.contains(later[0]));
        assert(!rest.contains(id)) by {
            if rest.contains(id) {
                assert(later[rest.index_of(id) + 1] == id);
            }
        }
        if v.ids.contains(later[0]) {
            lemma_leaves(next, id, at, rest);
        } else if v.ids.len() < v.capacity {
            assert(next.ids[at] == id);
            lemma_leaves(next, id, at, rest);
        } else if at > 0 {
            assert(next.ids[at - 1] == id);
            lemma_leaves(next, id, at - 1, rest);
        } else {
            assert(!next.ids.contains(id)) by {
                if next.ids.contains(id) {
                    let i = next.ids.index_of(id);
                    assert(i < v.ids.len() - 1 ==> next.ids[i] == v.ids[i + 1]);
                }
            }
            lemma_stays_away(next, id, rest);
        }
    }
}

proof fn lemma_stays_away(v: DedupView, id: Seq<char>, later: Seq<Seq<char>>)
    requires
        !v.ids.contains(id),
        v.capacity > 0,
        v.ids.len() <= v.capacity,
        !later.contains(id),
    ensures
        !remember_all(v, later).ids.contains(id),
    decreases later.len(),
{
    if later.len() > 0 {
        let next = remember(v, later[0]);
        let rest = later.skip(1);
        assert(later.contains(later[0]));
        assert(!rest.contains(id)) by {
            if rest.contains(id) {
                assert(later[rest.index_of(id) + 1] == id);
            }
        }
        assert(!next.ids.contains(id)) by {
            if next.ids.contains(id) && !v.ids.contains(later[0]) {
                let i = next.ids.index_of(id);
                if v.ids.len() < v.capacity {
                    assert(i < v.ids.len() ==> v.ids[i] == id);
                } else {
                    assert(i < v.ids.len() - 1 ==> v.ids[i + 1] == id);
                }
            }
        }
        lemma_stays_away(next, id, rest);
    }
}

// ---------------------------------------------------------------------------
// lru
// ---------------------------------------------------------------------------

/// `lru::LruCache`, a map of bounded size that drops the least recently put key.
#[verifier::external_type_specification]
#[verifier::external_body]
#[verifier::reject_recursive_types(K)]
#[verifier::reject_recursive_types(V)]
#[verifier::reject_recursive_types(S)]
pub struct ExLruCache<K, V, S>(lru::LruCache<K, V, S>);

/// `lru::DefaultHasher`, by which a cache finds its keys.
#[verifier::external_type_specification]
#[verifier::external_body]
pub struct ExDefaultHasher(lru::DefaultHasher);

/// The keys that a cache holds, the least recently put first.
pub uninterp spec fn lru_keys(cache: lru::LruCache<String, ()>) -> Seq<Seq<char>>;

/// How many keys a cache was made for.
pub uninterp spec fn lru_capacity(cache: lru::LruCache<String, ()>) -> nat;

/// `lru::LruCache::new`: an empty cache for `capacity` keys. It sets up the
/// table for all of them, and panics where so large a table cannot be.
#[verifier::external_body]
fn lru_new(capacity: usize) -> (cache: lru::LruCache<String, ()>)
    requires
        0 < capacity <= LARGEST_CAPACITY,
    ensures
        lru_keys(cache) == Seq::<Seq<char>>::empty(),
        lru_capacity(cache) == capacity,
{
    lru::LruCache::new(std::num::NonZeroUsize::new(capacity).unwrap())
}

/// `lru::LruCache::contains`: whether the key is held. The order of the keys
/// stays as it is.
#[verifier::external_body]
fn lru_contains(cache: &lru::LruCache<String, ()>, id: &str) -> (has: bool)
    ensures
        has == lru_keys(*cache).contains(id@),
{
    cache.contains(id)
}

/// The keys after a put: the key is the last, in place of where it was; where it
/// is new and the cache is full, the first leaves.
pub open spec fn put_keys(keys: Seq<Seq<char>>, capacity: nat, id: Seq<char>) -> Seq<Seq<char>> {
    if keys.contains(id) {
        keys.remove(keys.index_of(id)).push(id)
    } else if keys.len() < capacity {
        keys.push(id)
    } else {
        keys.drop_first().push(id)
    }
}

/// `lru::LruCache::put`: the key is held from then on as the one that was put
/// last, and where it is new and the cache is full, the least recently put key
/// leaves. It does not panic.
#[verifier::external_body]
fn lru_put(cache: &mut lru::LruCache<String, ()>, id: String)
    ensures
        lru_capacity(*final(cache)) == lru_capacity(*old(cache)),
        lru_keys(*final(cache)) == put_keys(
            lru_keys(*old(cache)),
            lru_capacity(*old(cache)),
            id@,
        ),
    no_unwind
{
    cache.put(id, ());
}

/// A cache begins with no id and with room for as many as it is made for; an id that
/// is recorded is known, and all that were known stay known while there is room.
pub proof fn law_recording_adds_one_id(v: DedupView, id: Seq<char>, other: Seq<char>, capacity: nat)
    requires
        well_formed(v),
    ensures
        !empty_cache(capacity).ids.contains(id),
        empty_cache(capacity).capacity == capacity,
        remember(v, id).ids.contains(id),
        remember(v, id).capacity == v.capacity,
        v.ids.contains(id) ==> remember(v, id) == v,
        v.ids.len() < v.capacity || v.ids.contains(id) ==> (remember(v, id).ids.contains(other)
            <==> other == id || v.ids.contains(other)),
        !v.ids.contains(id) && v.ids.len() == v.capacity ==> (remember(v, id).ids.contains(other)
            <==> other == id || (v.ids.contains(other) && other != v.ids[0])),
{
    lemma_remember(v, id);
    let new = remember(v, id).ids;
    if !v.ids.contains(id) {
        if v.ids.len() < v.capacity {
            if v.ids.contains(other) {
                assert(new[v.ids.index_of(other)] == other);
            }
            if new.contains(other) && other != id {
                let i = new.index_of(other);
                assert(v.ids[i] == other);
            }
        } else {
            if v.ids.contains(other) && other != v.ids[0] {
                assert(new[v.ids.index_of(other) - 1] == other);
            }
            if new.contains(other) && other != id {
                let i = new.index_of(other);
                assert(v.ids[i + 1] == other);
            }
        }
    }
}

}
