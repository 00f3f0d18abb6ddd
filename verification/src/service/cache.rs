//! Bounded cache of assembled containers.
//!
//! The cache maps the identifier of a container to the container. Its
//! capacity is fixed when it is made. When a container is stored in a full
//! cache, the entry that was used least recently leaves; reading an entry
//! and storing one both count as use.

use vstd::prelude::*;

use crate::service::container::{Container, ContainerView};
use crate::service::pair_views;
use crate::types::Error;

verus! {

/// Fixed-capacity store of containers by identifier, with least-recently-used
/// eviction.
pub struct Cache {
    /// Maximum number of entries.
    capacity: usize,
    /// The entries, from the least recently used to the most recently used.
    entries: Vec<(u32, Container)>,
}

/// Mathematical value of a [`Cache`]: its capacity, and its entries from the
/// least recently used to the most recently used.
pub struct CacheView {
    pub capacity: nat,
    pub entries: Seq<(u32, ContainerView)>,
}

impl CacheView {
    /// Whether the cache is within its capacity and holds each identifier at
    /// most once.
    pub open spec fn well_formed(self) -> bool {
        &&& self.entries.len() <= self.capacity
        &&& forall|i: int, j: int|
            0 <= i < j < self.entries.len() ==> (#[trigger] self.entries[i]).0 != (
            #[trigger] self.entries[j]).0
    }

    /// Whether the cache holds a container under the identifier.
    pub open spec fn holds(self, id: u32) -> bool {
        exists|i: int| 0 <= i < self.entries.len() && (#[trigger] self.entries[i]).0 == id
    }

    /// The place of the entry of the identifier, where the cache holds one.
    pub open spec fn index_of(self, id: u32) -> int {
        choose|i: int| 0 <= i < self.entries.len() && (#[trigger] self.entries[i]).0 == id
    }

    /// The container that the cache holds under the identifier, where it
    /// holds one.
    pub open spec fn value_of(self, id: u32) -> ContainerView {
        self.entries[self.index_of(id)].1
    }

    /// The entries without the entry of the identifier.
    pub open spec fn others(self, id: u32) -> Seq<(u32, ContainerView)> {
        if self.holds(id) {
            self.entries.remove(self.index_of(id))
        } else {
            self.entries
        }
    }

    /// The cache after the entry of the identifier was read: the entry is
    /// the most recently used one. A cache without such an entry stays as it
    /// is.
    pub open spec fn touched(self, id: u32) -> CacheView {
        if self.holds(id) {
            CacheView {
                capacity: self.capacity,
                entries: self.others(id).push((id, self.value_of(id))),
            }
        } else {
            self
        }
    }

    /// The cache after a container was stored under the identifier: the
    /// container replaces what the cache held under the identifier and is
    /// the most recently used entry. Where that exceeds the capacity, the
    /// least recently used entry has left.
    pub open spec fn inserted(self, id: u32, container: ContainerView) -> CacheView {
        let kept = self.others(id).push((id, container));
        CacheView {
            capacity: self.capacity,
            entries: if kept.len() > self.capacity {
                kept.drop_first()
            } else {
                kept
            },
        }
    }

    /// The cache after each of the containers was stored, one at a time and
    /// in the given order.
    pub open spec fn inserted_all(self, containers: Seq<(u32, ContainerView)>) -> CacheView
        decreases containers.len(),
    {
        if containers.len() == 0 {
            self
        } else {
            self.inserted_all(containers.drop_last()).inserted(
                containers.last().0,
                containers.last().1,
            )
        }
    }
}

impl View for Cache {
    type V = CacheView;

    closed spec fn view(&self) -> CacheView {
        CacheView { capacity: self.capacity as nat, entries: pair_views(self.entries@) }
    }
}

impl Cache {
    /// Every cache is within its capacity and holds each identifier at most
    /// once.
    #[verifier::type_invariant]
    spec fn well_formed(self) -> bool {
        self@.well_formed()
    }

    /// An empty cache of the given capacity.
    pub fn new(capacity: usize) -> (cache: Cache)
        ensures
            cache@ == (CacheView { capacity: capacity as nat, entries: Seq::empty() }),
            cache@.well_formed(),
    {
        let cache = Cache { capacity, entries: Vec::new() };
        assert(cache@.entries =~= Seq::empty());
        cache
    }

    /// The capacity of the cache.
    pub fn capacity(&self) -> (capacity: usize)
        ensures
            capacity == self@.capacity,
            self@.well_formed(),
    {
        proof {
            use_type_invariant(self);
        }
        self.capacity
    }

    /// The number of entries of the cache.
    pub fn len(&self) -> (len: usize)
        ensures
            len == self@.entries.len(),
            self@.well_formed(),
    {
        proof {
            use_type_invariant(self);
        }
        self.entries.len()
    }

    /// The place of the entry of the identifier, if there is one.
    fn find(&self, id: u32) -> (place: Option<usize>)
        ensures
            self@.well_formed(),
            match place {
                Some(place) => self@.holds(id) && place == self@.index_of(id),
                None => !self@.holds(id),
            },
    {
        proof {
            use_type_invariant(self);
        }
        let mut i: usize = 0;
        while i < self.entries.len()
            invariant
                self@.well_formed(),
                i <= self.entries.len(),
                forall|k: int| 0 <= k < i ==> (#[trigger] self@.entries[k]).0 != id,
            decreases self.entries.len() - i,
        {
            if self.entries[i].0 == id {
                assert(self@.entries[i as int].0 == id);
                return Some(i);
            }
            i += 1;
        }
        None
    }

    /// Whether the cache holds a container under the identifier. This does
    /// not count as use of the entry.
    pub fn contains(&self, id: u32) -> (held: bool)
        ensures
            held == self@.holds(id),
            self@.well_formed(),
    {
        self.find(id).is_some()
    }

    /// Read the container that the cache holds under the identifier, and
    /// mark its entry as the most recently used one.
    pub fn get(&mut self, id: u32) -> (container: Option<Container>)
        ensures
            old(self)@.well_formed(),
            final(self)@ == old(self)@.touched(id),
            final(self)@.well_formed(),
            match container {
                Some(container) => old(self)@.holds(id) && container@ == old(self)@.value_of(id),
                None => !old(self)@.holds(id),
            },
    {
        match self.find(id) {
            Some(place) => {
                let mut entries: Vec<(u32, Container)> = Vec::new();
                proof {
                    assert(pair_views(entries@) =~= Seq::empty());
                }
                core::mem::swap(&mut self.entries, &mut entries);
                let entry = entries.remove(place);
                let copy = entry.1.clone();
                entries.push(entry);
                proof {
                    assert(pair_views(entries@) =~= old(self)@.touched(id).entries);
                }
                core::mem::swap(&mut self.entries, &mut entries);
                Some(copy)
            },
            None => None,
        }
    }

    /// Store a container under the identifier, as the most recently used
    /// entry. A container that the cache held under the identifier is
    /// replaced. Where the cache is full, its least recently used entry
    /// leaves.
    pub fn put(&mut self, id: u32, container: Container)
        ensures
            old(self)@.well_formed(),
            final(self)@ == old(self)@.inserted(id, container@),
            final(self)@.well_formed(),
    {
        let place = self.find(id);
        if self.capacity == 0 {
            assert(self@.entries =~= old(self)@.inserted(id, container@).entries);
            return ;
        }
        let mut entries: Vec<(u32, Container)> = Vec::new();
        proof {
            assert(pair_views(entries@) =~= Seq::empty());
        }
        core::mem::swap(&mut self.entries, &mut entries);
        match place {
            Some(place) => {
                entries.remove(place);
            },
            None => {
                if entries.len() == self.capacity {
                    entries.remove(0);
                }
            },
        }
        entries.push((id, container));
        proof {
            assert(pair_views(entries@) =~= old(self)@.inserted(id, container@).entries);
        }
        core::mem::swap(&mut self.entries, &mut entries);
    }

    /// Store each of the containers under its identifier, one at a time and
    /// in the given order, each as [`Cache::put`] does. Where the containers
    /// exceed the capacity, the earliest of them leave first.
    pub fn put_many(&mut self, containers: Vec<(u32, Container)>)
        ensures
            old(self)@.well_formed(),
            final(self)@ == old(self)@.inserted_all(pair_views(containers@)),
            final(self)@.well_formed(),
    {
        let ghost all = containers@;
        proof {
            use_type_invariant(&*self);
            assert(pair_views(all.take(0)) =~= Seq::empty());
        }
        for entry in iter: containers
            invariant
                iter.seq() == all,
                self@.well_formed(),
                self@ == old(self)@.inserted_all(pair_views(all.take(iter.index() as int))),
        {
            let ghost at = iter.index() as int;
            let (id, container) = entry;
            proof {
                let now = pair_views(all.take(at + 1));
                assert(now.drop_last() =~= pair_views(all.take(at)));
                assert(now.last() == (id, container@));
            }
            self.put(id, container);
        }
        assert(all.take(all.len() as int) == all);
    }

    /// Read the container of the identifier from the cache, or load it and
    /// store it.
    ///
    /// Where the cache holds a container under the identifier, that
    /// container is returned, its entry becomes the most recently used one,
    /// and `loader` is not called. Else `loader` is called. The container
    /// that it returns is stored as [`Cache::put`] does, and returned; where
    /// it fails, the cache stays as it is and the error is returned.
    pub fn get_or_load<F: FnOnce() -> Result<Container, Error>>(&mut self, id: u32, loader: F) -> (loaded:
        Result<Container, Error>)
        requires
            !old(self)@.holds(id) ==> call_requires(loader, ()),
        ensures
            old(self)@.well_formed(),
            final(self)@.well_formed(),
            old(self)@.holds(id) ==> {
                &&& loaded is Ok
                &&& loaded->Ok_0@ == old(self)@.value_of(id)
                &&& final(self)@ == old(self)@.touched(id)
            },
            !old(self)@.holds(id) ==> {
                &&& call_ensures(loader, (), loaded)
                &&& match loaded {
                    Ok(container) => final(self)@ == old(self)@.inserted(id, container@),
                    Err(_) => final(self)@ == old(self)@,
                }
            },
    {
        match self.get(id) {
            Some(container) => Ok(container),
            None => {
                match loader() {
                    Ok(container) => {
                        self.put(id, container.clone());
                        Ok(container)
                    },
                    Err(error) => Err(error),
                }
            },
        }
    }
}

/* ******************************************** Laws ******************************************** */

/// Reading an entry keeps the cache well formed.
pub proof fn lemma_touched_well_formed(cache: CacheView, id: u32)
    requires
        cache.well_formed(),
    ensures
        cache.touched(id).well_formed(),
{
}

/// Storing a container keeps the cache well formed.
pub proof fn lemma_inserted_well_formed(cache: CacheView, id: u32, container: ContainerView)
    requires
        cache.well_formed(),
    ensures
        cache.inserted(id, container).well_formed(),
{
}

/// A cache that can hold anything holds a container once it was stored: the
/// next read of its identifier finds that container.
pub proof fn lemma_stored_is_held(cache: CacheView, id: u32, container: ContainerView)
    requires
        cache.well_formed(),
        cache.capacity >= 1,
    ensures
        cache.inserted(id, container).holds(id),
        cache.inserted(id, container).value_of(id) == container,
{
    let after = cache.inserted(id, container);
    let last = after.entries.len() - 1;
    assert(after.entries[last] == (id, container));
    lemma_inserted_well_formed(cache, id, container);
    assert(after.index_of(id) == last);
}

/// A container that was read is still held, unchanged: the next read of its
/// identifier finds the same container.
pub proof fn lemma_read_is_held(cache: CacheView, id: u32)
    requires
        cache.well_formed(),
        cache.holds(id),
    ensures
        cache.touched(id).holds(id),
        cache.touched(id).value_of(id) == cache.value_of(id),
{
    let after = cache.touched(id);
    let last = after.entries.len() - 1;
    assert(after.entries[last] == (id, cache.value_of(id)));
    lemma_touched_well_formed(cache, id);
    assert(after.index_of(id) == last);
}

/// Two lookups of one identifier in succession: whether the first found the
/// container in the cache or stored the one that was loaded for it, the
/// second finds the same container in the cache, so that nothing is loaded
/// for it. This holds of every cache that can hold anything.
pub proof fn lemma_repeated_lookup_hits(cache: CacheView, id: u32, loaded: ContainerView)
    requires
        cache.well_formed(),
        cache.capacity >= 1,
    ensures
        cache.holds(id) ==> cache.touched(id).holds(id) && cache.touched(id).value_of(id)
            == cache.value_of(id),
        !cache.holds(id) ==> cache.inserted(id, loaded).holds(id) && cache.inserted(
            id,
            loaded,
        ).value_of(id) == loaded,
{
    if cache.holds(id) {
        lemma_read_is_held(cache, id);
    } else {
        lemma_stored_is_held(cache, id, loaded);
    }
}

/// Storing a container under a new identifier in a full cache evicts the
/// least recently used entry, and no other: the entries that were second to
/// last in recency stay in their order, before the new one.
pub proof fn lemma_full_cache_evicts_least_recently_used(
    cache: CacheView,
    id: u32,
    container: ContainerView,
)
    requires
        cache.well_formed(),
        cache.capacity >= 1,
        cache.entries.len() == cache.capacity,
        !cache.holds(id),
    ensures
        cache.inserted(id, container).entries == cache.entries.drop_first().push((id, container)),
        !cache.inserted(id, container).holds(cache.entries[0].0),
{
    let after = cache.inserted(id, container);
    assert(after.entries =~= cache.entries.drop_first().push((id, container)));
    let evicted = cache.entries[0].0;
    assert(cache.entries[0].0 == evicted);
    if after.holds(evicted) {
        let i = choose|i: int| 0 <= i < after.entries.len() && (#[trigger] after.entries[i]).0 == evicted;
        if i < after.entries.len() - 1 {
            assert(after.entries[i] == cache.entries[i + 1]);
        }
    }
}

/// Storing a container evicts nothing where the cache has room, or where
/// it already holds the identifier: every other identifier that was held is
/// still held, with its container.
pub proof fn lemma_room_evicts_nothing(
    cache: CacheView,
    id: u32,
    container: ContainerView,
    other: u32,
)
    requires
        cache.well_formed(),
        cache.entries.len() < cache.capacity || cache.holds(id),
        cache.holds(other),
        other != id,
    ensures
        cache.inserted(id, container).holds(other),
        cache.inserted(id, container).value_of(other) == cache.value_of(other),
{
    let after = cache.inserted(id, container);
    lemma_inserted_well_formed(cache, id, container);
    let at = cache.index_of(other);
    if cache.holds(id) {
        let gone = cache.index_of(id);
        let now = if at < gone {
            at
        } else {
            at - 1
        };
        assert(after.entries[now] == cache.entries[at]);
        assert(after.index_of(other) == now);
    } else {
        assert(after.entries[at] == cache.entries[at]);
        assert(after.index_of(other) == at);
    }
}

} // verus!
