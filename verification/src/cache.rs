//! The caches of render passes and framebuffers that a device owns.

use crate::description::{DescriptionKey, FramebufferKey, FramebufferKeyView, RenderPassKey};
use crate::native::{RawFramebuffer, RawImageView};
use vstd::prelude::*;

verus! {

/// Whether one of the entries has the key `key`.
pub open spec fn held<K: DescriptionKey>(entries: Seq<(K, u64)>, key: K::V) -> bool {
    exists|i: int| 0 <= i < entries.len() && (#[trigger] entries[i]).0@ == key
}

/// The place of the key `key` among the entries.
pub open spec fn place<K: DescriptionKey>(entries: Seq<(K, u64)>, key: K::V) -> int {
    choose|i: int| 0 <= i < entries.len() && (#[trigger] entries[i]).0@ == key
}

/// No two of the entries have the same key.
pub open spec fn distinct_keys<K: DescriptionKey>(entries: Seq<(K, u64)>) -> bool {
    forall|i: int, j: int|
        0 <= i < j < entries.len() ==> (#[trigger] entries[i]).0@ != (#[trigger] entries[j]).0@
}

/// The mapping that a list of entries with distinct keys stands for.
pub open spec fn table<K: DescriptionKey>(entries: Seq<(K, u64)>) -> Map<K::V, u64> {
    Map::new(|key: K::V| held(entries, key), |key: K::V| entries[place(entries, key)].1)
}

/// No two keys of the mapping have the same native object.
pub open spec fn injective<V>(cache: Map<V, u64>) -> bool {
    forall|a: V, b: V|
        cache.contains_key(a) && cache.contains_key(b) && a != b ==> #[trigger] cache[a]
            != #[trigger] cache[b]
}

/// What a lookup finds.
pub open spec fn lookup<V>(cache: Map<V, u64>, key: V) -> Option<u64> {
    if cache.contains_key(key) {
        Some(cache[key])
    } else {
        None
    }
}

/// A cache of native objects by the structure of their descriptions: a
/// mapping from keys to handles, in which structurally equal keys are one
/// key.
pub struct DescriptionCache<K: DescriptionKey> {
    entries: Vec<(K, u64)>,
}

impl<K: DescriptionKey> View for DescriptionCache<K> {
    type V = Map<K::V, u64>;

    closed spec fn view(&self) -> Map<K::V, u64> {
        table(self.entries@)
    }
}

impl<K: DescriptionKey> DescriptionCache<K> {
    #[verifier::type_invariant]
    spec fn keys_once(self) -> bool {
        distinct_keys(self.entries@)
    }

    /// The empty cache.
    pub fn new() -> (cache: Self)
        ensures
            cache@ == Map::<K::V, u64>::empty(),
    {
        let cache = DescriptionCache { entries: Vec::new() };
        cache
    }

    /// Where the key stands among the entries, if it does.
    fn find(entries: &Vec<(K, u64)>, key: &K) -> (at: Option<usize>)
        ensures
            match at {
                Some(i) => i < entries.len() && entries@[i as int].0@ == key@,
                None => !held(entries@, key@),
            },
    {
        let mut i: usize = 0;
        while i < entries.len()
            invariant
                i <= entries.len(),
                forall|k: int| 0 <= k < i ==> (#[trigger] entries@[k]).0@ != key@,
            decreases entries.len() - i,
        {
            if entries[i].0.matches(key) {
                return Some(i);
            }
            i += 1;
        }
        None
    }

    /// Looks the key up: the handle of the native object that was inserted
    /// under a structurally equal key, if there is one.
    pub fn get(&self, key: &K) -> (raw: Option<u64>)
        ensures
            raw == lookup(self@, key@),
    {
        proof {
            use_type_invariant(self);
        }
        match Self::find(&self.entries, key) {
            Some(i) => {
                Some(self.entries[i].1)
            },
            None => None,
        }
    }

    /// Puts the native object `raw` under the key. The result is the object
    /// that stood under a structurally equal key before, which the cache
    /// holds no longer.
    pub fn insert(&mut self, key: K, raw: u64) -> (previous: Option<u64>)
        ensures
            final(self)@ == old(self)@.insert(key@, raw),
            previous == lookup(old(self)@, key@),
    {
        proof {
            use_type_invariant(&*self);
        }
        let ghost before = self.entries@;
        let mut entries: Vec<(K, u64)> = Vec::new();
        std::mem::swap(&mut self.entries, &mut entries);
        let previous = match Self::find(&entries, &key) {
            Some(i) => {
                let previous = entries[i].1;
                entries[i].1 = raw;
                proof {
                    assert forall|other: K::V| held(entries@, other) == held(before, other) by {
                        if held(before, other) {
                            let k = place(before, other);
                            assert(entries@[k].0@ == other);
                        }
                    }
                }
                Some(previous)
            },
            None => {
                let ghost view = key@;
                entries.push((key, raw));
                proof {
                    assert forall|other: K::V| held(entries@, other) == (held(before, other)
                        || other == view) by {
                        if held(before, other) {
                            let k = place(before, other);
                            assert(entries@[k].0@ == other);
                        }
                        if other == view {
                            assert(entries@[before.len() as int].0@ == other);
                        }
                    }
                }
                None
            },
        };
        std::mem::swap(&mut self.entries, &mut entries);
        previous
    }
}

/// The keys that do not have the view `view` among their attachments.
pub open spec fn clear_of(view: RawImageView) -> Set<FramebufferKeyView> {
    Set::new(|key: FramebufferKeyView| !key.references(view))
}

/// Whether `raw` is the framebuffer of a key that has the view `view` among
/// its attachments.
pub open spec fn bound_to(
    cache: Map<FramebufferKeyView, u64>,
    view: RawImageView,
    raw: RawFramebuffer,
) -> bool {
    exists|key: FramebufferKeyView|
        cache.contains_key(key) && key.references(view) && #[trigger] cache[key] == raw
}

/// Whether `raw` is the framebuffer of such a key, and the key is not among
/// the entries.
spec fn taken_out(
    cache: Map<FramebufferKeyView, u64>,
    entries: Seq<(FramebufferKey, u64)>,
    view: RawImageView,
    raw: RawFramebuffer,
) -> bool {
    exists|key: FramebufferKeyView|
        cache.contains_key(key) && key.references(view) && !held(entries, key)
            && #[trigger] cache[key] == raw
}

impl DescriptionCache<FramebufferKey> {
    /// Takes out every framebuffer that has the view `view` among its
    /// attachments, as it must happen when the view is destroyed. The result
    /// holds the framebuffers taken out, for the device to destroy.
    pub fn evict(&mut self, view: RawImageView) -> (evicted: Vec<RawFramebuffer>)
        ensures
            final(self)@ == old(self)@.restrict(clear_of(view)),
            forall|raw: RawFramebuffer|
                evicted@.contains(raw) <==> bound_to(old(self)@, view, raw),
            injective(old(self)@) ==> evicted@.no_duplicates(),
    {
        proof {
            use_type_invariant(&*self);
        }
        let ghost before = self.entries@;
        let ghost cache = self@;
        let mut entries: Vec<(FramebufferKey, u64)> = Vec::new();
        std::mem::swap(&mut self.entries, &mut entries);
        let mut evicted: Vec<RawFramebuffer> = Vec::new();
        let mut i: usize = 0;
        while i < entries.len()
            invariant
                i <= entries.len(),
                cache == table(before),
                distinct_keys(before),
                distinct_keys(entries@),
                forall|k: int|
                    0 <= k < entries.len() ==> held(before, (#[trigger] entries@[k]).0@)
                        && cache[entries@[k].0@] == entries@[k].1,
                forall|k: int| 0 <= k < i ==> !(#[trigger] entries@[k]).0@.references(view),
                forall|key: FramebufferKeyView|
                    #![trigger held(before, key)]
                    held(before, key) ==> if key.references(view) {
                        held(entries@, key) || evicted@.contains(cache[key])
                    } else {
                        held(entries@, key)
                    },
                forall|t: int|
                    0 <= t < evicted.len() ==> taken_out(
                        cache,
                        entries@,
                        view,
                        #[trigger] evicted@[t],
                    ),
                injective(cache) ==> evicted@.no_duplicates(),
            decreases entries.len() - i,
        {
            if entries[i].0.references(view) {
                let ghost entry = entries@;
                let ghost gone = entries@[i as int].0@;
                let ghost taken = evicted@;
                let (_, raw) = entries.swap_remove(i);
                evicted.push(raw);
                proof {
                    lemma_swap_removed(entry, entries@, i as int);
                    assert forall|key: FramebufferKeyView|
                        #![trigger held(before, key)]
                        held(before, key) implies if key.references(view) {
                        held(entries@, key) || evicted@.contains(cache[key])
                    } else {
                        held(entries@, key)
                    } by {
                        if held(entry, key) {
                            if key == gone {
                                assert(evicted@[taken.len() as int] == cache[key]);
                            }
                        } else {
                            let t = choose|t: int| 0 <= t < taken.len() && taken[t] == cache[key];
                            assert(evicted@[t] == cache[key]);
                        }
                    }
                }
            } else {
                i += 1;
            }
        }
        std::mem::swap(&mut self.entries, &mut entries);
        evicted
    }
}

/// What `swap_remove` leaves of a list of entries with distinct keys: the
/// keys are still distinct, and exactly the key of the entry removed is
/// gone.
proof fn lemma_swap_removed<K: DescriptionKey>(
    before: Seq<(K, u64)>,
    after: Seq<(K, u64)>,
    i: int,
)
    requires
        0 <= i < before.len(),
        distinct_keys(before),
        after == before.update(i, before.last()).drop_last(),
    ensures
        distinct_keys(after),
        forall|key: K::V| #[trigger] held(after, key) == (held(before, key) && key != before[i].0@),
{
    assert forall|key: K::V| #[trigger] held(after, key) == (held(before, key) && key
        != before[i].0@) by {
        if held(before, key) && key != before[i].0@ {
            let x = place(before, key);
            let a = if x == before.len() - 1 { i } else { x };
            assert(after[a].0@ == key);
        }
    }
}

/// Structurally equal keys are one key: whatever is looked up after an
/// insertion under a key finds the native object inserted, where the key
/// looked up equals that key, and what it found before, where it does not.
pub proof fn lemma_lookup_after_insert<V>(cache: Map<V, u64>, key: V, raw: u64, other: V)
    ensures
        lookup(cache.insert(key, raw), other) == if other == key {
            Some(raw)
        } else {
            lookup(cache, other)
        },
{
}

/// A cache holds one native object per key for as long as each object that
/// enters it is a new one, as those that a device creates are: inserting an
/// object that the cache does not hold, under a key that it does not hold,
/// keeps the objects of different keys different.
pub proof fn lemma_insert_keeps_injective<V>(cache: Map<V, u64>, key: V, raw: u64)
    requires
        injective(cache),
        !cache.contains_key(key),
        forall|other: V| cache.contains_key(other) ==> #[trigger] cache[other] != raw,
    ensures
        injective(cache.insert(key, raw)),
{
}

/// In such a cache two lookups with different keys never find the same
/// native object.
pub proof fn lemma_different_keys_different_objects<V>(cache: Map<V, u64>, a: V, b: V)
    requires
        injective(cache),
        cache.contains_key(a),
        cache.contains_key(b),
        a != b,
    ensures
        lookup(cache, a) != lookup(cache, b),
{
}

} // verus!
