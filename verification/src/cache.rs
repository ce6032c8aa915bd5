//! A cache of responses with one time-to-live for every entry. Expired
//! entries are never returned; they are removed when their key is next
//! looked up.

use crate::json::{Json, JsonView};
use crate::text::str_eq;
use vstd::prelude::*;

verus! {

/// What the cache holds for a key: the response and the time at which it
/// stops being served.
pub struct EntryView {
    pub value: JsonView,
    pub expires_at: int,
}

/// The key is present and its entry has not expired at `now`.
pub open spec fn is_live(entries: Map<Seq<char>, EntryView>, key: Seq<char>, now: int) -> bool {
    entries.dom().contains(key) && now < entries[key].expires_at
}

/// What a lookup at `now` returns.
pub open spec fn lookup(entries: Map<Seq<char>, EntryView>, key: Seq<char>, now: int) -> Option<
    JsonView,
> {
    if is_live(entries, key, now) {
        Some(entries[key].value)
    } else {
        None
    }
}

/// The entries after a lookup at `now`: a live entry stays, an expired one
/// is removed.
pub open spec fn after_get(entries: Map<Seq<char>, EntryView>, key: Seq<char>, now: int) -> Map<
    Seq<char>,
    EntryView,
> {
    if is_live(entries, key, now) {
        entries
    } else {
        entries.remove(key)
    }
}

/// The entries after an insertion at `now`: the key holds the new value,
/// which expires `ttl` later, whatever it held before.
pub open spec fn after_insert(
    entries: Map<Seq<char>, EntryView>,
    key: Seq<char>,
    value: JsonView,
    now: int,
    ttl: int,
) -> Map<Seq<char>, EntryView> {
    entries.insert(key, EntryView { value, expires_at: now + ttl })
}

struct CacheEntry {
    key: String,
    value: Json,
    stored_at: u64,
}

/// Responses by cache key, each served for `ttl` time units after it was
/// stored. Times are counted in one unit from one origin, both chosen by
/// the caller.
pub struct Cache {
    ttl: u64,
    entries: Vec<CacheEntry>,
}

spec fn holds_key(entries: Seq<CacheEntry>, key: Seq<char>) -> bool {
    exists|i: int| 0 <= i < entries.len() && (#[trigger] entries[i]).key@ == key
}

spec fn index_of_key(entries: Seq<CacheEntry>, key: Seq<char>) -> int {
    choose|i: int| 0 <= i < entries.len() && (#[trigger] entries[i]).key@ == key
}

spec fn entries_map(entries: Seq<CacheEntry>, ttl: u64) -> Map<Seq<char>, EntryView> {
    Map::new(
        |key: Seq<char>| holds_key(entries, key),
        |key: Seq<char>|
            EntryView {
                value: entries[index_of_key(entries, key)].value@,
                expires_at: entries[index_of_key(entries, key)].stored_at + ttl,
            },
    )
}

spec fn distinct_keys(entries: Seq<CacheEntry>) -> bool {
    forall|i: int, j: int|
        0 <= i < j < entries.len() ==> (#[trigger] entries[i]).key@ != (#[trigger] entries[j]).key@
}

impl Cache {
    #[verifier::type_invariant]
    spec fn distinct(self) -> bool {
        distinct_keys(self.entries@)
    }

    /// The time for which an entry is served.
    pub closed spec fn ttl(&self) -> int {
        self.ttl as int
    }

    /// An empty cache whose entries will live for `ttl`.
    pub fn new(ttl: u64) -> (cache: Cache)
        ensures
            cache@ == Map::<Seq<char>, EntryView>::empty(),
            cache.ttl() == ttl,
    {
        let cache = Cache { ttl, entries: Vec::new() };
        assert(cache@ =~= Map::<Seq<char>, EntryView>::empty());
        cache
    }

    fn find(&self, key: &str) -> (at: Option<usize>)
        ensures
            match at {
                Some(i) => i < self.entries@.len() && self.entries@[i as int].key@ == key@,
                None => !holds_key(self.entries@, key@),
            },
    {
        let mut i: usize = 0;
        while i < self.entries.len()
            invariant
                i <= self.entries@.len(),
                forall|k: int| 0 <= k < i ==> (#[trigger] self.entries@[k]).key@ != key@,
            decreases self.entries@.len() - i,
        {
            if str_eq(self.entries[i].key.as_str(), key) {
                return Some(i);
            }
            i += 1;
        }
        None
    }

    /// Looks `key` up at time `now`. A live entry is returned as a copy and
    /// stays; an expired one is removed and nothing is returned; an absent
    /// key returns nothing.
    pub fn get(&mut self, key: &str, now: u64) -> (hit: Option<Json>)
        ensures
            match hit {
                Some(value) => lookup(old(self)@, key@, now as int) == Some(value@),
                None => lookup(old(self)@, key@, now as int) is None,
            },
            final(self)@ == after_get(old(self)@, key@, now as int),
            final(self).ttl() == old(self).ttl(),
    {
        proof {
            use_type_invariant(&*self);
        }
        match self.find(key) {
            Some(i) => {
                let stored_at = self.entries[i].stored_at;
                proof {
                    lemma_entry_at(self.entries@, self.ttl, i as int);
                }
                if now < stored_at || now - stored_at < self.ttl {
                    Some(self.entries[i].value.clone())
                } else {
                    let ghost before = self.entries@;
                    let mut entries: Vec<CacheEntry> = Vec::new();
                    core::mem::swap(&mut self.entries, &mut entries);
                    entries.remove(i);
                    proof {
                        lemma_remove_entry(before, self.ttl, i as int);
                    }
                    self.entries = entries;
                    None
                }
            },
            None => {
                assert(self@ =~= self@.remove(key@));
                None
            },
        }
    }

    /// Stores `value` under `key` at time `now`, in place of whatever the
    /// key held; the entry expires at `now + ttl`.
    pub fn insert(&mut self, key: String, value: Json, now: u64)
        ensures
            final(self)@ == after_insert(
                old(self)@,
                key@,
                value@,
                now as int,
                old(self).ttl(),
            ),
            final(self).ttl() == old(self).ttl(),
    {
        proof {
            use_type_invariant(&*self);
        }
        let ghost before = self.entries@;
        let found = self.find(key.as_str());
        let mut entries: Vec<CacheEntry> = Vec::new();
        core::mem::swap(&mut self.entries, &mut entries);
        match found {
            Some(i) => {
                entries.set(i, CacheEntry { key, value, stored_at: now });
                proof {
                    lemma_set_entry(before, self.ttl, i as int, entries@[i as int]);
                }
            },
            None => {
                entries.push(CacheEntry { key, value, stored_at: now });
                proof {
                    lemma_push_entry(before, self.ttl, entries@[before.len() as int]);
                }
            },
        }
        self.entries = entries;
    }
}

impl View for Cache {
    type V = Map<Seq<char>, EntryView>;

    /// The entries by key, expired ones that were not yet looked up included.
    closed spec fn view(&self) -> Map<Seq<char>, EntryView> {
        entries_map(self.entries@, self.ttl)
    }
}

proof fn lemma_entry_at(entries: Seq<CacheEntry>, ttl: u64, i: int)
    requires
        distinct_keys(entries),
        0 <= i < entries.len(),
    ensures
        entries_map(entries, ttl).dom().contains(entries[i].key@),
        entries_map(entries, ttl)[entries[i].key@] == (EntryView {
            value: entries[i].value@,
            expires_at: entries[i].stored_at + ttl,
        }),
{
    let key = entries[i].key@;
    assert(holds_key(entries, key));
    let j = index_of_key(entries, key);
    assert(j == i) by {
        if j < i {
            assert(entries[j].key@ != entries[i].key@);
        } else if i < j {
            assert(entries[i].key@ != entries[j].key@);
        }
    }
}

proof fn lemma_remove_entry(entries: Seq<CacheEntry>, ttl: u64, i: int)
    requires
        distinct_keys(entries),
        0 <= i < entries.len(),
    ensures
        distinct_keys(entries.remove(i)),
        entries_map(entries.remove(i), ttl) == entries_map(entries, ttl).remove(entries[i].key@),
{
    let rest = entries.remove(i);
    let gone = entries[i].key@;
    assert forall|a: int, b: int| 0 <= a < b < rest.len() implies (#[trigger] rest[a]).key@ != (
    #[trigger] rest[b]).key@ by {
        let a0 = if a < i { a } else { a + 1 };
        let b0 = if b < i { b } else { b + 1 };
        assert(rest[a] == entries[a0] && rest[b] == entries[b0]);
    }
    let left = entries_map(rest, ttl);
    let right = entries_map(entries, ttl).remove(gone);
    assert forall|key: Seq<char>| left.dom().contains(key) <==> right.dom().contains(key) by {
        if holds_key(rest, key) {
            let a = index_of_key(rest, key);
            let a0 = if a < i { a } else { a + 1 };
            assert(rest[a] == entries[a0]);
            assert(entries[a0].key@ == key);
            if a0 < i {
                assert(entries[a0].key@ != entries[i].key@);
            } else {
                assert(entries[i].key@ != entries[a0].key@);
            }
        }
        if holds_key(entries, key) && key != gone {
            let a0 = index_of_key(entries, key);
            let a = if a0 < i { a0 } else { a0 - 1 };
            assert(rest[a] == entries[a0]);
        }
    }
    assert forall|key: Seq<char>| left.dom().contains(key) implies left[key] == right[key] by {
        let a = index_of_key(rest, key);
        let a0 = if a < i { a } else { a + 1 };
        assert(rest[a] == entries[a0]);
        lemma_entry_at(entries, ttl, a0);
        lemma_entry_at(rest, ttl, a);
    }
    assert(left =~= right);
}

proof fn lemma_set_entry(entries: Seq<CacheEntry>, ttl: u64, i: int, entry: CacheEntry)
    requires
        distinct_keys(entries),
        0 <= i < entries.len(),
        entry.key@ == entries[i].key@,
    ensures
        distinct_keys(entries.update(i, entry)),
        entries_map(entries.update(i, entry), ttl) == entries_map(entries, ttl).insert(
            entry.key@,
            EntryView { value: entry.value@, expires_at: entry.stored_at + ttl },
        ),
{
    let next = entries.update(i, entry);
    assert forall|a: int, b: int| 0 <= a < b < next.len() implies (#[trigger] next[a]).key@ != (
    #[trigger] next[b]).key@ by {
        assert(next[a].key@ == entries[a].key@ && next[b].key@ == entries[b].key@);
    }
    let left = entries_map(next, ttl);
    let right = entries_map(entries, ttl).insert(
        entry.key@,
        EntryView { value: entry.value@, expires_at: entry.stored_at + ttl },
    );
    assert forall|key: Seq<char>| left.dom().contains(key) <==> right.dom().contains(key) by {
        if holds_key(next, key) {
            let a = index_of_key(next, key);
            assert(next[a].key@ == entries[a].key@);
        }
        if holds_key(entries, key) {
            let a = index_of_key(entries, key);
            assert(next[a].key@ == entries[a].key@);
        }
        if key == entry.key@ {
            assert(next[i].key@ == key);
        }
    }
    assert forall|key: Seq<char>| left.dom().contains(key) implies left[key] == right[key] by {
        let a = index_of_key(next, key);
        lemma_entry_at(next, ttl, a);
        if a != i {
            assert(next[a] == entries[a]);
            lemma_entry_at(entries, ttl, a);
            if a < i {
                assert(entries[a].key@ != entries[i].key@);
            } else {
                assert(entries[i].key@ != entries[a].key@);
            }
        }
    }
    assert(left =~= right);
}

proof fn lemma_push_entry(entries: Seq<CacheEntry>, ttl: u64, entry: CacheEntry)
    requires
        distinct_keys(entries),
        !holds_key(entries, entry.key@),
    ensures
        distinct_keys(entries.push(entry)),
        entries_map(entries.push(entry), ttl) == entries_map(entries, ttl).insert(
            entry.key@,
            EntryView { value: entry.value@, expires_at: entry.stored_at + ttl },
        ),
{
    let next = entries.push(entry);
    assert forall|a: int, b: int| 0 <= a < b < next.len() implies (#[trigger] next[a]).key@ != (
    #[trigger] next[b]).key@ by {
        assert(next[a] == entries[a]);
        if b < entries.len() {
            assert(next[b] == entries[b]);
        }
    }
    let left = entries_map(next, ttl);
    let right = entries_map(entries, ttl).insert(
        entry.key@,
        EntryView { value: entry.value@, expires_at: entry.stored_at + ttl },
    );
    assert forall|key: Seq<char>| left.dom().contains(key) <==> right.dom().contains(key) by {
        if holds_key(next, key) {
            let a = index_of_key(next, key);
            if a < entries.len() {
                assert(next[a] == entries[a]);
            }
        }
        if holds_key(entries, key) {
            let a = index_of_key(entries, key);
            assert(next[a] == entries[a]);
        }
        if key == entry.key@ {
            assert(next[entries.len() as int].key@ == key);
        }
    }
    assert forall|key: Seq<char>| left.dom().contains(key) implies left[key] == right[key] by {
        let a = index_of_key(next, key);
        lemma_entry_at(next, ttl, a);
        if a < entries.len() {
            assert(next[a] == entries[a]);
            lemma_entry_at(entries, ttl, a);
        }
    }
    assert(left =~= right);
}

/// The time-to-live boundary: an entry stored at `stored` is returned by
/// every lookup before `stored + ttl`, which leaves it in place, and by none
/// from `stored + ttl` on, the first of which removes it.
pub proof fn lemma_ttl_boundary(
    entries: Map<Seq<char>, EntryView>,
    key: Seq<char>,
    value: JsonView,
    stored: int,
    ttl: int,
    read: int,
)
    ensures
        read < stored + ttl ==> lookup(after_insert(entries, key, value, stored, ttl), key, read)
            == Some(value) && after_get(after_insert(entries, key, value, stored, ttl), key, read)
            == after_insert(entries, key, value, stored, ttl),
        read >= stored + ttl ==> lookup(after_insert(entries, key, value, stored, ttl), key, read)
            is None && !after_get(
            after_insert(entries, key, value, stored, ttl),
            key,
            read,
        ).dom().contains(key),
{
}

/// A lookup or an insertion under one key leaves every other key as it was.
pub proof fn lemma_other_keys_untouched(
    entries: Map<Seq<char>, EntryView>,
    key: Seq<char>,
    other: Seq<char>,
    value: JsonView,
    now: int,
    ttl: int,
)
    requires
        other != key,
    ensures
        after_get(entries, key, now).dom().contains(other) == entries.dom().contains(other),
        after_insert(entries, key, value, now, ttl).dom().contains(other) == entries.dom().contains(
            other,
        ),
        entries.dom().contains(other) ==> after_get(entries, key, now)[other] == entries[other]
            && after_insert(entries, key, value, now, ttl)[other] == entries[other],
{
}

} // verus!
