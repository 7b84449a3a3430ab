//! Content cache of the dapp server: a map from content identifiers to either
//! an in-flight fetch or a ready local page, kept in order of last use so that
//! the least recently used entries can be evicted first.

use linked_hash_map::LinkedHashMap;
use vstd::prelude::*;

verus! {

/// State of one cached piece of content.
#[derive(Debug, PartialEq, Eq)]
pub enum ContentStatus {
    /// The content is being fetched; the number names the fetch, so that the
    /// owner of the fetch can abort it once the entry is evicted.
    Fetching(u64),
    /// The content is unpacked under the given local path, which is to be
    /// deleted once the entry is evicted.
    Ready(String),
}

/// The cache as a sequence of identifier and status, least recently used first.
pub type Entries = Seq<(Seq<char>, ContentStatus)>;

/// The status stored under `key`, if any.
pub open spec fn lookup(entries: Entries, key: Seq<char>) -> Option<ContentStatus>
    decreases entries.len(),
{
    if entries.len() == 0 {
        None
    } else if entries.last().0 == key {
        Some(entries.last().1)
    } else {
        lookup(entries.drop_last(), key)
    }
}

/// The entries in their order, with the one stored under `key` left out.
pub open spec fn without(entries: Entries, key: Seq<char>) -> Entries {
    entries.filter(|e: (Seq<char>, ContentStatus)| e.0 != key)
}

/// The entries after `key` was used with `status`: it becomes the most
/// recently used one.
pub open spec fn refreshed(entries: Entries, key: Seq<char>, status: ContentStatus) -> Entries {
    without(entries, key).push((key, status))
}

/// Whether some entry is stored under `key`.
pub open spec fn has_key(entries: Entries, key: Seq<char>) -> bool {
    exists|i: int| 0 <= i < entries.len() && (#[trigger] entries[i]).0 == key
}

/// No identifier occurs twice.
pub open spec fn distinct_keys(entries: Entries) -> bool {
    forall|i: int, j: int|
        0 <= i < j < entries.len() ==> (#[trigger] entries[i]).0 != (#[trigger] entries[j]).0
}

/// The evicted entries as plain values.
pub open spec fn entries_view(removed: Seq<(String, ContentStatus)>) -> Entries {
    removed.map_values(|e: (String, ContentStatus)| (e.0@, e.1))
}

/// How many entries have to leave for `len` entries to fit `expected_size`.
pub open spec fn excess(len: nat, expected_size: nat) -> nat {
    if len > expected_size {
        (len - expected_size) as nat
    } else {
        0
    }
}

/// Leaving `key` out removes its entry and touches no other key: afterwards
/// `other` has an entry exactly if it had one and is not `key`, and a lookup
/// of it finds what it found before.
pub proof fn lemma_without_key(entries: Entries, key: Seq<char>, other: Seq<char>)
    ensures
        has_key(without(entries, key), other) <==> other != key && has_key(entries, other),
        lookup(without(entries, key), other) == if other == key {
            None
        } else {
            lookup(entries, other)
        },
    decreases entries.len(),
{
    reveal(Seq::filter);
    let out = without(entries, key);
    if entries.len() > 0 {
        let init = entries.drop_last();
        let last = entries.last();
        let rest = without(init, key);
        lemma_without_key(init, key, other);
        assert(out == if last.0 != key {
            rest.push(last)
        } else {
            rest
        });
        if last.0 != key {
            assert(out.drop_last() =~= rest);
            assert(out.last() == last);
        }
        if has_key(out, other) {
            let i = choose|i: int| 0 <= i < out.len() && (#[trigger] out[i]).0 == other;
            if i < rest.len() {
                assert(rest[i].0 == other);
                let j = choose|j: int| 0 <= j < init.len() && (#[trigger] init[j]).0 == other;
                assert(entries[j].0 == other);
            } else {
                assert(entries[entries.len() - 1].0 == other);
            }
        }
        if other != key && has_key(entries, other) {
            let i = choose|i: int| 0 <= i < entries.len() && (#[trigger] entries[i]).0 == other;
            if i < init.len() {
                assert(init[i].0 == other);
                let j = choose|j: int| 0 <= j < rest.len() && (#[trigger] rest[j]).0 == other;
                assert(out[j].0 == other);
            } else {
                assert(out[out.len() - 1].0 == other);
            }
        }
    }
}

/// Leaving a key out never makes the sequence longer, changes nothing where
/// the key has no entry, and leaves no identifier twice if none occurred twice.
pub proof fn lemma_without_order(entries: Entries, key: Seq<char>)
    ensures
        without(entries, key).len() <= entries.len(),
        !has_key(entries, key) ==> without(entries, key) == entries,
        distinct_keys(entries) ==> distinct_keys(without(entries, key)),
        distinct_keys(entries) && has_key(entries, key) ==> without(entries, key).len() + 1
            == entries.len(),
    decreases entries.len(),
{
    reveal(Seq::filter);
    let out = without(entries, key);
    if entries.len() > 0 {
        let init = entries.drop_last();
        let last = entries.last();
        let rest = without(init, key);
        lemma_without_order(init, key);
        assert(out == if last.0 != key {
            rest.push(last)
        } else {
            rest
        });
        assert(entries[entries.len() - 1] == last);
        if has_key(init, key) {
            let k = choose|k: int| 0 <= k < init.len() && (#[trigger] init[k]).0 == key;
            assert(entries[k].0 == key);
        }
        if !has_key(entries, key) {
            assert(out =~= entries);
        }
        if distinct_keys(entries) {
            assert forall|i: int, j: int| 0 <= i < j < init.len() implies (#[trigger] init[i]).0 != (
            #[trigger] init[j]).0 by {
                assert(entries[i].0 != entries[j].0);
            }
            assert forall|i: int, j: int| 0 <= i < j < out.len() implies (#[trigger] out[i]).0 != (
            #[trigger] out[j]).0 by {
                if j < rest.len() {
                    assert(rest[i].0 != rest[j].0);
                } else {
                    assert(rest[i].0 == out[i].0);
                    lemma_without_key(init, key, out[i].0);
                    let k = choose|k: int| 0 <= k < init.len() && (#[trigger] init[k]).0 == out[i].0;
                    assert(entries[k].0 != entries[entries.len() - 1].0);
                }
            }
            if has_key(entries, key) {
                if last.0 == key {
                    if has_key(init, key) {
                        let k = choose|k: int| 0 <= k < init.len() && (#[trigger] init[k]).0 == key;
                        assert(entries[k].0 != entries[entries.len() - 1].0);
                    }
                } else {
                    let i = choose|i: int| 0 <= i < entries.len() && (#[trigger] entries[i]).0 == key;
                    assert(init[i].0 == key);
                }
            }
        }
    }
}

/// A key has an entry exactly when a lookup finds a status for it.
pub proof fn lemma_lookup_has_key(entries: Entries, key: Seq<char>)
    ensures
        has_key(entries, key) <==> lookup(entries, key).is_some(),
    decreases entries.len(),
{
    if entries.len() > 0 {
        let init = entries.drop_last();
        lemma_lookup_has_key(init, key);
        if has_key(entries, key) && entries.last().0 != key {
            let i = choose|i: int| 0 <= i < entries.len() && (#[trigger] entries[i]).0 == key;
            assert(init[i].0 == key);
        }
        if has_key(init, key) {
            let i = choose|i: int| 0 <= i < init.len() && (#[trigger] init[i]).0 == key;
            assert(entries[i].0 == key);
        }
        if entries.last().0 == key {
            assert(entries[entries.len() - 1].0 == key);
        }
    }
}

/// After `key` was inserted or refreshed its entry is the most recently used
/// one and a lookup finds the new status; a lookup of another key finds what
/// it found before.
pub proof fn lemma_refreshed_lookup(entries: Entries, key: Seq<char>, status: ContentStatus, other: Seq<char>)
    ensures
        refreshed(entries, key, status).last() == (key, status),
        lookup(refreshed(entries, key, status), other) == if other == key {
            Some(status)
        } else {
            lookup(entries, other)
        },
{
    let out = refreshed(entries, key, status);
    lemma_without_key(entries, key, other);
    assert(out.drop_last() =~= without(entries, key));
}

/// Inserting or refreshing a key leaves no identifier twice if none occurred
/// twice; the cache grows by one entry if the key is new and keeps its size
/// otherwise.
pub proof fn lemma_refreshed_order(entries: Entries, key: Seq<char>, status: ContentStatus)
    requires
        distinct_keys(entries),
    ensures
        distinct_keys(refreshed(entries, key, status)),
        has_key(entries, key) ==> refreshed(entries, key, status).len() == entries.len(),
        !has_key(entries, key) ==> refreshed(entries, key, status) == entries.push((key, status)),
{
    let rest = without(entries, key);
    let out = refreshed(entries, key, status);
    lemma_without_order(entries, key);
    assert forall|i: int, j: int| 0 <= i < j < out.len() implies (#[trigger] out[i]).0 != (
    #[trigger] out[j]).0 by {
        if j < rest.len() {
            assert(rest[i].0 != rest[j].0);
        } else {
            assert(rest[i].0 == out[i].0);
            lemma_without_key(entries, key, out[i].0);
        }
    }
}

/// Of three entries inserted one after the other into an empty cache, an
/// eviction down to two takes the first and leaves the other two. Where the
/// first is used again before the third is inserted, the eviction takes the
/// second instead.
pub proof fn lemma_least_recently_used_leaves(
    a: (Seq<char>, ContentStatus),
    b: (Seq<char>, ContentStatus),
    c: (Seq<char>, ContentStatus),
)
    requires
        a.0 != b.0,
        a.0 != c.0,
        b.0 != c.0,
    ensures
        ({
            let filled = refreshed(refreshed(refreshed(Entries::empty(), a.0, a.1), b.0, b.1), c.0, c.1);
            &&& filled.take(excess(filled.len(), 2) as int) == seq![a]
            &&& filled.skip(excess(filled.len(), 2) as int) == seq![b, c]
        }),
        ({
            let touched = refreshed(refreshed(refreshed(Entries::empty(), a.0, a.1), b.0, b.1), a.0, a.1);
            let filled = refreshed(touched, c.0, c.1);
            &&& filled.take(excess(filled.len(), 2) as int) == seq![b]
            &&& filled.skip(excess(filled.len(), 2) as int) == seq![a, c]
        }),
{
    let one = refreshed(Entries::empty(), a.0, a.1);
    lemma_without_order(Entries::empty(), a.0);
    assert(one == seq![a]);
    lemma_without_order(one, b.0);
    let two = refreshed(one, b.0, b.1);
    assert(two =~= seq![a, b]);
    lemma_without_order(two, c.0);
    let three = refreshed(two, c.0, c.1);
    assert(three =~= seq![a, b, c]);
    assert(three.take(1) =~= seq![a]);
    assert(three.skip(1) =~= seq![b, c]);

    // the first entry is used again: only the second is left before it
    assert(two[0].0 == a.0 && two[1].0 == b.0);
    lemma_without_order(two, a.0);
    lemma_without_key(two, a.0, b.0);
    let rest = without(two, a.0);
    lemma_lookup_has_key(rest, b.0);
    assert(rest.drop_last().len() == 0);
    assert(two.last() == b);
    assert(rest =~= seq![b]);
    let touched = refreshed(two, a.0, a.1);
    assert(touched =~= seq![b, a]);
    lemma_without_order(touched, c.0);
    let filled = refreshed(touched, c.0, c.1);
    assert(filled =~= seq![b, a, c]);
    assert(filled.take(1) =~= seq![b]);
    assert(filled.skip(1) =~= seq![a, c]);
}

/// Dropping entries from the front leaves no identifier twice if none
/// occurred twice.
pub proof fn lemma_skip_distinct(entries: Entries, n: int)
    requires
        distinct_keys(entries),
        0 <= n <= entries.len(),
    ensures
        distinct_keys(entries.skip(n)),
{
    let out = entries.skip(n);
    assert forall|i: int, j: int| 0 <= i < j < out.len() implies (#[trigger] out[i]).0 != (
    #[trigger] out[j]).0 by {
        assert(entries[i + n].0 != entries[j + n].0);
    }
}

/// The map of the `linked-hash-map` crate: a hash map that keeps its entries
/// in the order in which they were inserted or refreshed.
#[verifier::external_type_specification]
#[verifier::external_body]
#[verifier::reject_recursive_types(K)]
#[verifier::reject_recursive_types(V)]
#[verifier::reject_recursive_types(S)]
pub struct ExLinkedHashMap<K, V, S>(LinkedHashMap<K, V, S>);

/// What a linked hash map holds, from the front (the entry that `pop_front`
/// takes) to the back (the entry inserted or refreshed last).
pub uninterp spec fn entries_of(map: LinkedHashMap<String, ContentStatus>) -> Entries;

/// `LinkedHashMap::new`: the new map holds nothing.
#[verifier::external_body]
fn map_new() -> (map: LinkedHashMap<String, ContentStatus>)
    ensures
        entries_of(map) == Entries::empty(),
{
    LinkedHashMap::new()
}

/// `LinkedHashMap::len`: the number of entries.
#[verifier::external_body]
fn map_len(map: &LinkedHashMap<String, ContentStatus>) -> (n: usize)
    ensures
        n == entries_of(*map).len(),
{
    map.len()
}

/// `LinkedHashMap::insert`: the entry goes to the back of the map, replacing
/// the one stored under the same key, whose value is returned.
#[verifier::external_body]
fn map_insert(map: &mut LinkedHashMap<String, ContentStatus>, key: String, value: ContentStatus) -> (previous:
    Option<ContentStatus>)
    ensures
        previous == lookup(entries_of(*old(map)), key@),
        entries_of(*final(map)) == refreshed(entries_of(*old(map)), key@, value),
{
    map.insert(key, value)
}

/// `LinkedHashMap::remove`: the entry stored under the key leaves the map and
/// its value is returned; the order of the others stays.
#[verifier::external_body]
fn map_remove(map: &mut LinkedHashMap<String, ContentStatus>, key: &str) -> (removed: Option<ContentStatus>)
    ensures
        removed == lookup(entries_of(*old(map)), key@),
        entries_of(*final(map)) == without(entries_of(*old(map)), key@),
{
    map.remove(key)
}

/// `LinkedHashMap::get_refresh`: an entry stored under the key moves to the
/// back of the map and its value is handed out for reading and writing; a map
/// without the key stays as it is.
#[verifier::external_body]
fn map_get_refresh<'a>(map: &'a mut LinkedHashMap<String, ContentStatus>, key: &str) -> (found: Option<
    &'a mut ContentStatus,
>)
    ensures
        match lookup(entries_of(*old(map)), key@) {
            None => found.is_none() && entries_of(*final(map)) == entries_of(*old(map)),
            Some(status) => found.is_some() && *found.unwrap() == status && entries_of(*final(map))
                == refreshed(entries_of(*old(map)), key@, *final(found.unwrap())),
        },
{
    map.get_refresh(key)
}

/// `LinkedHashMap::pop_front`: the entry at the front leaves the map and is
/// returned; an empty map gives nothing.
#[verifier::external_body]
fn map_pop_front(map: &mut LinkedHashMap<String, ContentStatus>) -> (front: Option<(String, ContentStatus)>)
    ensures
        entries_of(*old(map)).len() == 0 ==> front.is_none() && entries_of(*final(map)) == entries_of(
            *old(map),
        ),
        entries_of(*old(map)).len() > 0 ==> front.is_some() && (front.unwrap().0@, front.unwrap().1)
            == entries_of(*old(map)).first() && entries_of(*final(map)) == entries_of(
            *old(map),
        ).drop_first(),
{
    map.pop_front()
}

/// Cache of fetched content, bounded by evicting the least recently used
/// entries.
pub struct ContentCache {
    cache: LinkedHashMap<String, ContentStatus>,
}

impl View for ContentCache {
    type V = Entries;

    closed spec fn view(&self) -> Entries {
        entries_of(self.cache)
    }
}

impl Default for ContentCache {
    fn default() -> (cache: ContentCache)
        ensures
            cache@ == Entries::empty(),
            cache.wf(),
    {
        ContentCache { cache: map_new() }
    }
}

impl ContentCache {
    /// No content identifier is cached twice. Every cache starts out so and
    /// every operation keeps it so.
    pub open spec fn wf(&self) -> bool {
        distinct_keys(self@)
    }

    /// Stores `status` under `content_id` as the most recently used entry and
    /// returns the status that was stored there before.
    pub fn insert(&mut self, content_id: String, status: ContentStatus) -> (previous: Option<ContentStatus>)
        ensures
            previous == lookup(old(self)@, content_id@),
            final(self)@ == refreshed(old(self)@, content_id@, status),
            old(self).wf() ==> final(self).wf(),
    {
        proof {
            if self.wf() {
                lemma_refreshed_order(self@, content_id@, status);
            }
        }
        map_insert(&mut self.cache, content_id, status)
    }

    /// Takes the entry stored under `content_id` out of the cache.
    pub fn remove(&mut self, content_id: &str) -> (removed: Option<ContentStatus>)
        ensures
            removed == lookup(old(self)@, content_id@),
            final(self)@ == without(old(self)@, content_id@),
            old(self).wf() ==> final(self).wf(),
    {
        proof {
            lemma_without_order(self@, content_id@);
        }
        map_remove(&mut self.cache, content_id)
    }

    /// Looks up `content_id` and marks its entry as the most recently used
    /// one. The status is handed out for writing: what the caller leaves in it
    /// is what the cache holds afterwards.
    pub fn get(&mut self, content_id: &str) -> (found: Option<&mut ContentStatus>)
        ensures
            match lookup(old(self)@, content_id@) {
                None => found.is_none() && final(self)@ == old(self)@,
                Some(status) => found.is_some() && *found.unwrap() == status && final(self)@
                    == refreshed(old(self)@, content_id@, *final(found.unwrap())),
            },
            old(self).wf() ==> final(self).wf(),
    {
        proof {
            if self.wf() {
                assert forall|status: ContentStatus|
                    distinct_keys(#[trigger] refreshed(self@, content_id@, status)) by {
                    lemma_refreshed_order(self@, content_id@, status);
                }
            }
        }
        map_get_refresh(&mut self.cache, content_id)
    }

    /// Evicts least recently used entries until at most `expected_size` are
    /// left, and returns the evicted ones, oldest first. The caller aborts the
    /// fetch of each evicted `Fetching` entry and deletes the path of each
    /// evicted `Ready` entry.
    pub fn clear_garbage(&mut self, expected_size: usize) -> (removed: Vec<(String, ContentStatus)>)
        ensures
            entries_view(removed@) == old(self)@.take(excess(old(self)@.len(), expected_size as nat) as int),
            final(self)@ == old(self)@.skip(excess(old(self)@.len(), expected_size as nat) as int),
            final(self)@.len() <= expected_size || final(self)@ == old(self)@,
            old(self).wf() ==> final(self).wf(),
    {
        let mut len: usize = map_len(&self.cache);
        let mut removed: Vec<(String, ContentStatus)> = Vec::new();
        let ghost before = self@;
        let ghost total = excess(before.len(), expected_size as nat) as int;
        proof {
            assert(entries_view(removed@) =~= before.take(0));
            assert(self@ =~= before.skip(0));
            if self.wf() {
                lemma_skip_distinct(before, total);
            }
        }
        while len > expected_size
            invariant
                before == old(self)@,
                total == excess(before.len(), expected_size as nat),
                len == self@.len(),
                0 <= removed@.len() <= total,
                len > expected_size ==> len - expected_size == total - removed@.len(),
                len <= expected_size ==> removed@.len() == total,
                entries_view(removed@) == before.take(removed@.len() as int),
                self@ == before.skip(removed@.len() as int),
            decreases len,
        {
            let ghost done = removed@.len() as int;
            let front = map_pop_front(&mut self.cache);
            if let Some(entry) = front {
                removed.push(entry);
                len = len - 1;
                proof {
                    assert(entries_view(removed@) =~= before.take(done + 1));
                    assert(self@ =~= before.skip(done + 1));
                }
            }
        }
        removed
    }

    /// The number of entries.
    pub fn len(&self) -> (n: usize)
        ensures
            n == self@.len(),
    {
        map_len(&self.cache)
    }
}

} // verus!
