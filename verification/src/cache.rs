//! The cache store and its janitor.
//!
//! A store holds at most one record per key. A record is either a parsed
//! entry or the mark of an entry that could not be parsed. Entries expire:
//! one that is older than the expiry window is treated as absent, and a lookup
//! that meets such an entry, or a corrupt record, removes it.

use crate::key::{cache_key, get_cache_key};
use vstd::prelude::*;

verus! {

/// Seconds a cache entry stays valid after it was written: one day.
pub const CACHE_DURATION: u64 = 86400;

/// The side of the square that a thumbnail fits in, where none is asked for.
pub const DEFAULT_THUMBNAIL_SIZE: u32 = 30;

/// One cached thumbnail: the encoded bitmap, and when it was stored, in
/// seconds since the epoch.
#[derive(Debug)]
pub struct CacheEntry {
    pub thumbnail: String,
    pub created: u64,
}

/// What the store holds under a key.
#[derive(Debug)]
pub enum CacheRecord {
    /// An entry that was read back whole.
    Entry(CacheEntry),
    /// Something that could not be parsed as an entry.
    Corrupt,
}

/// The mathematical value of a `CacheEntry`.
pub struct EntryView {
    pub thumbnail: Seq<char>,
    pub created: u64,
}

/// The mathematical value of a `CacheRecord`.
pub enum RecordView {
    Entry(EntryView),
    Corrupt,
}

impl View for CacheEntry {
    type V = EntryView;

    open spec fn view(&self) -> EntryView {
        EntryView { thumbnail: self.thumbnail@, created: self.created }
    }
}

impl View for CacheRecord {
    type V = RecordView;

    open spec fn view(&self) -> RecordView {
        match self {
            CacheRecord::Entry(entry) => RecordView::Entry(entry@),
            CacheRecord::Corrupt => RecordView::Corrupt,
        }
    }
}

/// Whether an entry stamped `created` is past the expiry window at `now`. An
/// entry stamped later than `now` has no age yet and is not expired.
pub open spec fn expired(created: u64, now: u64) -> bool {
    now - created > CACHE_DURATION
}

/// Whether a record may be served at `now`: it is an entry, and not expired.
pub open spec fn is_fresh(record: RecordView, now: u64) -> bool {
    record matches RecordView::Entry(entry) && !expired(entry.created, now)
}

/// What a lookup of `key` at `now` finds in `store`.
pub open spec fn lookup(store: Map<Seq<char>, RecordView>, key: Seq<char>, now: u64) -> Option<
    EntryView,
> {
    if store.dom().contains(key) && is_fresh(store[key], now) {
        Some(store[key]->Entry_0)
    } else {
        None
    }
}

/// The store after a lookup of `key` at `now`: a record that could not be
/// served is gone, everything else is as it was.
pub open spec fn after_lookup(
    store: Map<Seq<char>, RecordView>,
    key: Seq<char>,
    now: u64,
) -> Map<Seq<char>, RecordView> {
    if lookup(store, key, now) is Some {
        store
    } else {
        store.remove(key)
    }
}

/// The keys of `store` whose records may be served at `now`.
pub open spec fn fresh_keys(store: Map<Seq<char>, RecordView>, now: u64) -> Set<Seq<char>> {
    Set::new(|key: Seq<char>| store.dom().contains(key) && is_fresh(store[key], now))
}

/// The store after a sweep at `now`: exactly the records that may be served.
pub open spec fn after_sweep(store: Map<Seq<char>, RecordView>, now: u64) -> Map<
    Seq<char>,
    RecordView,
> {
    store.restrict(fresh_keys(store, now))
}

/// Whether an entry stamped `created` is past the expiry window at `now`.
pub fn is_expired(created: u64, now: u64) -> (past: bool)
    ensures
        past == expired(created, now),
{
    now > created && now - created > CACHE_DURATION
}

impl CacheEntry {
    /// A copy of the entry.
    pub fn duplicate(&self) -> (copy: CacheEntry)
        ensures
            copy@ == self@,
    {
        CacheEntry { thumbnail: self.thumbnail.clone(), created: self.created }
    }
}

impl CacheRecord {
    /// Whether the record may be served at `now`.
    pub fn is_fresh_at(&self, now: u64) -> (fresh: bool)
        ensures
            fresh == is_fresh(self@, now),
    {
        match self {
            CacheRecord::Entry(entry) => !is_expired(entry.created, now),
            CacheRecord::Corrupt => false,
        }
    }
}

struct Slot {
    key: String,
    record: CacheRecord,
}

/// The records of a cache, one per key, held in memory. The files of a cache
/// directory are loaded into a store with `restore`; what an operation removed
/// or wrote is then carried back to the directory.
pub struct CacheStore {
    slots: Vec<Slot>,
}

spec fn unique_keys(slots: Seq<Slot>) -> bool {
    forall|i: int, j: int| 0 <= i < j < slots.len() ==> slots[i].key@ != slots[j].key@
}

spec fn holds(slots: Seq<Slot>, key: Seq<char>) -> bool {
    exists|i: int| 0 <= i < slots.len() && #[trigger] slots[i].key@ == key
}

spec fn position(slots: Seq<Slot>, key: Seq<char>) -> int {
    choose|i: int| 0 <= i < slots.len() && #[trigger] slots[i].key@ == key
}

spec fn slots_view(slots: Seq<Slot>) -> Map<Seq<char>, RecordView> {
    Map::new(|key: Seq<char>| holds(slots, key), |key: Seq<char>| slots[position(slots, key)].record@)
}

proof fn lemma_slot_in_view(slots: Seq<Slot>, i: int)
    requires
        unique_keys(slots),
        0 <= i < slots.len(),
    ensures
        slots_view(slots).dom().contains(slots[i].key@),
        slots_view(slots)[slots[i].key@] == slots[i].record@,
{
    let key = slots[i].key@;
    assert(holds(slots, key));
    let p = position(slots, key);
    assert(0 <= p < slots.len() && slots[p].key@ == key);
    if p < i {
        assert(slots[p].key@ != slots[i].key@);
    } else if i < p {
        assert(slots[i].key@ != slots[p].key@);
    }
}

proof fn lemma_absent_key(slots: Seq<Slot>, key: Seq<char>)
    requires
        forall|i: int| 0 <= i < slots.len() ==> slots[i].key@ != key,
    ensures
        !slots_view(slots).dom().contains(key),
{
}

proof fn lemma_view_push(slots: Seq<Slot>, slot: Slot)
    requires
        unique_keys(slots),
        !slots_view(slots).dom().contains(slot.key@),
    ensures
        unique_keys(slots.push(slot)),
        slots_view(slots.push(slot)) == slots_view(slots).insert(slot.key@, slot.record@),
{
    let longer = slots.push(slot);
    assert forall|i: int, j: int| 0 <= i < j < longer.len() implies longer[i].key@
        != longer[j].key@ by {
        if j == slots.len() {
            assert(longer[i] == slots[i]);
            if slots[i].key@ == slot.key@ {
                assert(holds(slots, slot.key@));
            }
        } else {
            assert(longer[i] == slots[i]);
            assert(longer[j] == slots[j]);
        }
    }
    assert forall|key: Seq<char>| #[trigger]
        slots_view(longer).dom().contains(key) == slots_view(slots).insert(
            slot.key@,
            slot.record@,
        ).dom().contains(key) by {
        if holds(longer, key) {
            let p = position(longer, key);
            if p < slots.len() {
                assert(longer[p] == slots[p]);
                assert(holds(slots, key));
            }
        }
        if holds(slots, key) {
            let p = position(slots, key);
            assert(longer[p] == slots[p]);
            assert(holds(longer, key));
        }
        if key == slot.key@ {
            assert(longer[slots.len() as int].key@ == key);
            assert(holds(longer, key));
        }
    }
    assert forall|key: Seq<char>| #[trigger]
        slots_view(longer).dom().contains(key) implies slots_view(longer)[key] == slots_view(
        slots,
    ).insert(slot.key@, slot.record@)[key] by {
        let p = position(longer, key);
        lemma_slot_in_view(longer, p);
        if p < slots.len() {
            assert(longer[p] == slots[p]);
            lemma_slot_in_view(slots, p);
        }
    }
    assert(slots_view(longer) =~= slots_view(slots).insert(slot.key@, slot.record@));
}

proof fn lemma_view_remove(slots: Seq<Slot>, at: int)
    requires
        unique_keys(slots),
        0 <= at < slots.len(),
    ensures
        unique_keys(slots.remove(at)),
        slots_view(slots.remove(at)) == slots_view(slots).remove(slots[at].key@),
{
    let shorter = slots.remove(at);
    let gone = slots[at].key@;
    assert forall|i: int, j: int| 0 <= i < j < shorter.len() implies shorter[i].key@
        != shorter[j].key@ by {
        let oi = if i < at {
            i
        } else {
            i + 1
        };
        let oj = if j < at {
            j
        } else {
            j + 1
        };
        assert(shorter[i] == slots[oi]);
        assert(shorter[j] == slots[oj]);
    }
    assert forall|key: Seq<char>| #[trigger]
        slots_view(shorter).dom().contains(key) == slots_view(slots).remove(gone).dom().contains(
            key,
        ) by {
        if holds(shorter, key) {
            let p = position(shorter, key);
            let op = if p < at {
                p
            } else {
                p + 1
            };
            assert(shorter[p] == slots[op]);
            assert(holds(slots, key));
            if op < at {
                assert(slots[op].key@ != slots[at].key@);
            } else {
                assert(slots[at].key@ != slots[op].key@);
            }
        }
        if holds(slots, key) && key != gone {
            let p = position(slots, key);
            let np = if p < at {
                p
            } else {
                p - 1
            };
            assert(shorter[np] == slots[p]);
            assert(holds(shorter, key));
        }
    }
    assert forall|key: Seq<char>| #[trigger]
        slots_view(shorter).dom().contains(key) implies slots_view(shorter)[key] == slots_view(
        slots,
    ).remove(gone)[key] by {
        let p = position(shorter, key);
        lemma_slot_in_view(shorter, p);
        let op = if p < at {
            p
        } else {
            p + 1
        };
        assert(shorter[p] == slots[op]);
        lemma_slot_in_view(slots, op);
    }
    assert(slots_view(shorter) =~= slots_view(slots).remove(gone));
}

proof fn lemma_view_size(slots: Seq<Slot>)
    requires
        unique_keys(slots),
    ensures
        slots_view(slots).dom().finite(),
        slots_view(slots).dom().len() == slots.len(),
    decreases slots.len(),
{
    if slots.len() == 0 {
        assert(slots_view(slots).dom() =~= Set::<Seq<char>>::empty());
    } else {
        let shorter = slots.drop_last();
        let last = slots.last();
        assert(slots =~= shorter.push(last));
        assert forall|i: int, j: int| 0 <= i < j < shorter.len() implies shorter[i].key@
            != shorter[j].key@ by {
            assert(shorter[i] == slots[i]);
            assert(shorter[j] == slots[j]);
        }
        lemma_view_size(shorter);
        if slots_view(shorter).dom().contains(last.key@) {
            let p = position(shorter, last.key@);
            assert(shorter[p] == slots[p]);
            assert(slots[p].key@ != slots[slots.len() - 1].key@);
        }
        lemma_view_push(shorter, last);
        assert(slots_view(slots).dom() =~= slots_view(shorter).dom().insert(last.key@));
    }
}

impl CacheStore {
    /// The store as a map from keys to records.
    pub closed spec fn view(&self) -> Map<Seq<char>, RecordView> {
        slots_view(self.slots@)
    }

    /// The store's invariant: no key is held twice.
    pub closed spec fn wf(&self) -> bool {
        unique_keys(self.slots@)
    }

    /// A well-formed store holds finitely many records.
    pub proof fn lemma_finite(&self)
        requires
            self.wf(),
        ensures
            self@.dom().finite(),
    {
        lemma_view_size(self.slots@);
    }

    /// A store with nothing in it.
    pub fn new() -> (store: CacheStore)
        ensures
            store.wf(),
            store@ == Map::<Seq<char>, RecordView>::empty(),
    {
        let store = CacheStore { slots: Vec::new() };
        assert(store@ =~= Map::<Seq<char>, RecordView>::empty());
        store
    }

    /// How many records the store holds.
    pub fn len(&self) -> (count: usize)
        requires
            self.wf(),
        ensures
            count == self@.dom().len(),
    {
        proof {
            lemma_view_size(self.slots@);
        }
        self.slots.len()
    }

    fn find(&self, key: &str) -> (at: Option<usize>)
        requires
            self.wf(),
        ensures
            match at {
                Some(i) => i < self.slots.len() && self.slots[i as int].key@ == key@,
                None => !self@.dom().contains(key@),
            },
    {
        let wanted = key.to_owned();
        let mut i: usize = 0;
        while i < self.slots.len()
            invariant
                i <= self.slots.len(),
                wanted@ == key@,
                forall|j: int| 0 <= j < i ==> self.slots[j].key@ != key@,
            decreases self.slots.len() - i,
        {
            if self.slots[i].key == wanted {
                return Some(i);
            }
            i += 1;
        }
        proof {
            lemma_absent_key(self.slots@, key@);
        }
        None
    }

    /// Whether a record is held under `key`, whatever its state.
    pub fn contains_key(&self, key: &str) -> (held: bool)
        requires
            self.wf(),
        ensures
            held == self@.dom().contains(key@),
    {
        match self.find(key) {
            Some(i) => {
                proof {
                    lemma_slot_in_view(self.slots@, i as int);
                }
                true
            },
            None => false,
        }
    }

    /// Puts `record` under `key` as it is, timestamp included, in place of
    /// whatever was there. This is how records read back from storage enter
    /// the store.
    pub fn restore(&mut self, key: &str, record: CacheRecord)
        requires
            old(self).wf(),
        ensures
            final(self).wf(),
            final(self)@ == old(self)@.insert(key@, record@),
    {
        match self.find(key) {
            Some(i) => {
                proof {
                    lemma_slot_in_view(self.slots@, i as int);
                    lemma_view_remove(self.slots@, i as int);
                }
                self.slots.remove(i);
            },
            None => {},
        }
        let ghost before = self.slots@;
        assert(slots_view(before) == old(self)@.remove(key@));
        let slot = Slot { key: key.to_owned(), record };
        proof {
            lemma_view_push(before, slot);
        }
        self.slots.push(slot);
        assert(self@ =~= old(self)@.insert(key@, record@));
    }

    /// Stores `entry` under `key`, in place of whatever was there. The entry
    /// is stamped `now`: the time that the caller wrote into it is ignored.
    pub fn put(&mut self, key: &str, entry: CacheEntry, now: u64)
        requires
            old(self).wf(),
        ensures
            final(self).wf(),
            final(self)@ == old(self)@.insert(
                key@,
                RecordView::Entry(EntryView { thumbnail: entry.thumbnail@, created: now }),
            ),
    {
        let stamped = CacheEntry { thumbnail: entry.thumbnail, created: now };
        self.restore(key, CacheRecord::Entry(stamped));
    }

    /// Looks `key` up at `now`. An entry within the expiry window is returned.
    /// Anything else is absent; a record that was there and could not be
    /// served, expired or corrupt, is removed on the way.
    pub fn get(&mut self, key: &str, now: u64) -> (found: Option<CacheEntry>)
        requires
            old(self).wf(),
        ensures
            final(self).wf(),
            match found {
                Some(entry) => lookup(old(self)@, key@, now) == Some(entry@),
                None => lookup(old(self)@, key@, now) is None,
            },
            final(self)@ == after_lookup(old(self)@, key@, now),
    {
        match self.find(key) {
            Some(i) => {
                proof {
                    lemma_slot_in_view(self.slots@, i as int);
                }
                if self.slots[i].record.is_fresh_at(now) {
                    match &self.slots[i].record {
                        CacheRecord::Entry(entry) => Some(entry.duplicate()),
                        CacheRecord::Corrupt => None,
                    }
                } else {
                    proof {
                        lemma_view_remove(self.slots@, i as int);
                    }
                    self.slots.remove(i);
                    None
                }
            },
            None => {
                assert(self@.remove(key@) =~= self@);
                None
            },
        }
    }

    /// The janitor. Removes every record that may not be served at `now`,
    /// expired or corrupt, leaves the others untouched, and returns how many
    /// it removed. An empty store is swept like any other: nothing is removed.
    pub fn sweep(&mut self, now: u64) -> (removed: usize)
        requires
            old(self).wf(),
        ensures
            final(self).wf(),
            final(self)@ == after_sweep(old(self)@, now),
            removed == old(self)@.dom().len() - final(self)@.dom().len(),
    {
        let ghost start = self.slots@;
        assert(start.len() == self.slots.len());
        let mut removed: usize = 0;
        let mut i: usize = 0;
        while i < self.slots.len()
            invariant
                unique_keys(start),
                unique_keys(self.slots@),
                i <= self.slots.len(),
                forall|j: int| 0 <= j < i ==> is_fresh(#[trigger] self.slots[j].record@, now),
                after_sweep(slots_view(self.slots@), now) == after_sweep(slots_view(start), now),
                self.slots.len() + removed == start.len(),
                start.len() <= usize::MAX,
            decreases self.slots.len() - i,
        {
            if self.slots[i].record.is_fresh_at(now) {
                i += 1;
            } else {
                proof {
                    lemma_slot_in_view(self.slots@, i as int);
                    lemma_view_remove(self.slots@, i as int);
                    lemma_sweep_ignores_stale(slots_view(self.slots@), self.slots[i as int].key@, now);
                }
                self.slots.remove(i);
                removed += 1;
            }
        }
        proof {
            lemma_all_fresh(self.slots@, now);
            lemma_view_size(self.slots@);
            lemma_view_size(start);
        }
        removed
    }

    /// How many records the store holds, and how many of them may be served
    /// at `now`. Nothing is removed.
    pub fn stats(&self, now: u64) -> (stats: CacheStatsData)
        requires
            self.wf(),
        ensures
            stats.total_entries == self@.dom().len(),
            stats.valid_entries == fresh_keys(self@, now).len(),
    {
        let mut valid: usize = 0;
        let mut i: usize = 0;
        proof {
            lemma_unique_prefix(self.slots@, 0);
            assert(fresh_keys(slots_view(self.slots@.take(0)), now) =~= Set::<Seq<char>>::empty());
        }
        while i < self.slots.len()
            invariant
                unique_keys(self.slots@),
                i <= self.slots.len(),
                valid <= i,
                fresh_keys(slots_view(self.slots@.take(i as int)), now).finite(),
                valid == fresh_keys(slots_view(self.slots@.take(i as int)), now).len(),
            decreases self.slots.len() - i,
        {
            proof {
                lemma_fresh_keys_step(self.slots@, i as int, now);
            }
            if self.slots[i].record.is_fresh_at(now) {
                valid += 1;
            }
            i += 1;
        }
        proof {
            assert(self.slots@.take(i as int) == self.slots@);
            lemma_view_size(self.slots@);
        }
        CacheStatsData { total_entries: self.slots.len(), valid_entries: valid }
    }
}

/// How full the cache is.
#[derive(Debug, Clone, Copy, PartialEq, Eq, Structural)]
pub struct CacheStatsData {
    /// Records held, whatever their state.
    pub total_entries: usize,
    /// Records that are entries within the expiry window.
    pub valid_entries: usize,
}

proof fn lemma_sweep_ignores_stale(store: Map<Seq<char>, RecordView>, key: Seq<char>, now: u64)
    requires
        store.dom().contains(key),
        !is_fresh(store[key], now),
    ensures
        after_sweep(store.remove(key), now) == after_sweep(store, now),
{
    assert(fresh_keys(store.remove(key), now) =~= fresh_keys(store, now));
    assert(after_sweep(store.remove(key), now) =~= after_sweep(store, now));
}

proof fn lemma_all_fresh(slots: Seq<Slot>, now: u64)
    requires
        unique_keys(slots),
        forall|j: int| 0 <= j < slots.len() ==> is_fresh(#[trigger] slots[j].record@, now),
    ensures
        after_sweep(slots_view(slots), now) == slots_view(slots),
{
    let store = slots_view(slots);
    assert forall|key: Seq<char>| store.dom().contains(key) implies fresh_keys(
        store,
        now,
    ).contains(key) by {
        let p = position(slots, key);
        lemma_slot_in_view(slots, p);
        assert(is_fresh(slots[p].record@, now));
    }
    assert(after_sweep(store, now) =~= store);
}

proof fn lemma_unique_prefix(slots: Seq<Slot>, n: int)
    requires
        unique_keys(slots),
        0 <= n <= slots.len(),
    ensures
        unique_keys(slots.take(n)),
{
    let prefix = slots.take(n);
    assert forall|i: int, j: int| 0 <= i < j < prefix.len() implies prefix[i].key@
        != prefix[j].key@ by {
        assert(prefix[i] == slots[i]);
        assert(prefix[j] == slots[j]);
    }
}

proof fn lemma_fresh_keys_step(slots: Seq<Slot>, i: int, now: u64)
    requires
        unique_keys(slots),
        0 <= i < slots.len(),
        fresh_keys(slots_view(slots.take(i)), now).finite(),
    ensures
        fresh_keys(slots_view(slots.take(i + 1)), now).finite(),
        fresh_keys(slots_view(slots.take(i + 1)), now).len() == fresh_keys(
            slots_view(slots.take(i)),
            now,
        ).len() + if is_fresh(slots[i].record@, now) {
            1nat
        } else {
            0nat
        },
{
    let before = slots.take(i);
    let after = slots.take(i + 1);
    let slot = slots[i];
    lemma_unique_prefix(slots, i);
    lemma_unique_prefix(slots, i + 1);
    assert(after =~= before.push(slot));
    if slots_view(before).dom().contains(slot.key@) {
        let p = position(before, slot.key@);
        assert(before[p] == slots[p]);
        assert(slots[p].key@ != slots[i].key@);
    }
    lemma_view_push(before, slot);
    let old_keys = fresh_keys(slots_view(before), now);
    let new_keys = fresh_keys(slots_view(after), now);
    if is_fresh(slot.record@, now) {
        assert(new_keys =~= old_keys.insert(slot.key@));
    } else {
        assert(new_keys =~= old_keys);
    }
}

// ---------------------------------------------------------------------------
// Thumbnails by path and size
// ---------------------------------------------------------------------------
/// The size that a request stands for: the one it names, else the default.
pub open spec fn requested_size(size: Option<u32>) -> u32 {
    match size {
        Some(side) => side,
        None => DEFAULT_THUMBNAIL_SIZE,
    }
}

/// The key of the thumbnail of `path` at the requested size.
pub open spec fn thumbnail_key(path: Seq<char>, size: Option<u32>) -> Seq<char> {
    cache_key(path, requested_size(size))
}

/// The cached thumbnail of `path` at `size`, if one within the expiry window
/// is stored. Never generates one. A stored record that cannot be served is
/// removed and reported as absent, not as an error.
pub fn get_cached_thumbnail(store: &mut CacheStore, path: &str, size: Option<u32>, now: u64) -> (
    thumbnail: Option<String>
)
    requires
        old(store).wf(),
    ensures
        final(store).wf(),
        match thumbnail {
            Some(payload) => lookup(old(store)@, thumbnail_key(path@, size), now) matches Some(
                entry,
            ) && entry.thumbnail == payload@,
            None => lookup(old(store)@, thumbnail_key(path@, size), now) is None,
        },
        final(store)@ == after_lookup(old(store)@, thumbnail_key(path@, size), now),
{
    let side = match size {
        Some(side) => side,
        None => DEFAULT_THUMBNAIL_SIZE,
    };
    let key = get_cache_key(path, side);
    match store.get(key.as_str(), now) {
        Some(entry) => Some(entry.thumbnail),
        None => None,
    }
}

/// Stores `thumbnail` as the thumbnail of `path` at `size`, stamped `now`, in
/// place of whatever was stored for them.
pub fn set_cached_thumbnail(
    store: &mut CacheStore,
    path: &str,
    thumbnail: String,
    size: Option<u32>,
    now: u64,
)
    requires
        old(store).wf(),
    ensures
        final(store).wf(),
        final(store)@ == old(store)@.insert(
            thumbnail_key(path@, size),
            RecordView::Entry(EntryView { thumbnail: thumbnail@, created: now }),
        ),
{
    let side = match size {
        Some(side) => side,
        None => DEFAULT_THUMBNAIL_SIZE,
    };
    let key = get_cache_key(path, side);
    store.put(key.as_str(), CacheEntry { thumbnail, created: now }, now);
}

/// Sweeps the store at `now` and returns how many records were removed.
pub fn clear_old_cache(store: &mut CacheStore, now: u64) -> (removed: usize)
    requires
        old(store).wf(),
    ensures
        final(store).wf(),
        final(store)@ == after_sweep(old(store)@, now),
        removed == old(store)@.dom().len() - final(store)@.dom().len(),
{
    store.sweep(now)
}

/// How many records the store holds and how many of them may be served at
/// `now`.
pub fn get_cache_stats(store: &CacheStore, now: u64) -> (stats: CacheStatsData)
    requires
        store.wf(),
    ensures
        stats.total_entries == store@.dom().len(),
        stats.valid_entries == fresh_keys(store@, now).len(),
{
    store.stats(now)
}

// ---------------------------------------------------------------------------
// What holds of every store
// ---------------------------------------------------------------------------
/// Round trip. An entry that was just stored under a key is found under that
/// key, with the payload it was stored with, for as long as the expiry window
/// lasts.
pub proof fn lemma_put_then_get(
    store: Map<Seq<char>, RecordView>,
    key: Seq<char>,
    thumbnail: Seq<char>,
    stored: u64,
    now: u64,
)
    requires
        now - stored <= CACHE_DURATION,
    ensures
        ({
            let entry = EntryView { thumbnail, created: stored };
            let filled = store.insert(key, RecordView::Entry(entry));
            &&& lookup(filled, key, now) == Some(entry)
            &&& after_lookup(filled, key, now) == filled
        }),
{
}

/// Expiry boundary. An entry is served up to and including the moment its age
/// equals the expiry window. One second later a lookup treats it as absent
/// and removes it, and so does a sweep.
pub proof fn lemma_expiry_boundary(
    store: Map<Seq<char>, RecordView>,
    key: Seq<char>,
    entry: EntryView,
    now: u64,
)
    requires
        store.dom().contains(key),
        store[key] == RecordView::Entry(entry),
    ensures
        now - entry.created <= CACHE_DURATION ==> {
            &&& lookup(store, key, now) == Some(entry)
            &&& after_lookup(store, key, now) == store
            &&& after_sweep(store, now).dom().contains(key)
            &&& after_sweep(store, now)[key] == store[key]
        },
        now - entry.created > CACHE_DURATION ==> {
            &&& lookup(store, key, now) is None
            &&& !after_lookup(store, key, now).dom().contains(key)
            &&& !after_sweep(store, now).dom().contains(key)
        },
{
}

/// Corrupt records heal. A record that could not be parsed is never served:
/// a lookup of its key finds nothing and removes it, and so does a sweep.
pub proof fn lemma_corrupt_self_heal(store: Map<Seq<char>, RecordView>, key: Seq<char>, now: u64)
    requires
        store.dom().contains(key),
        store[key] == RecordView::Corrupt,
    ensures
        lookup(store, key, now) is None,
        !after_lookup(store, key, now).dom().contains(key),
        !after_sweep(store, now).dom().contains(key),
{
}

/// A lookup touches nothing but the key it asks for.
pub proof fn lemma_lookup_leaves_others(
    store: Map<Seq<char>, RecordView>,
    key: Seq<char>,
    other: Seq<char>,
    now: u64,
)
    requires
        other != key,
    ensures
        after_lookup(store, key, now).dom().contains(other) == store.dom().contains(other),
        store.dom().contains(other) ==> after_lookup(store, key, now)[other] == store[other],
{
}

/// A sweep is idempotent: a second sweep at the same time changes nothing and
/// finds nothing to remove.
pub proof fn lemma_sweep_idempotent(store: Map<Seq<char>, RecordView>, now: u64)
    ensures
        after_sweep(after_sweep(store, now), now) == after_sweep(store, now),
        after_sweep(store, now).dom() == fresh_keys(after_sweep(store, now), now),
{
    let swept = after_sweep(store, now);
    assert(fresh_keys(swept, now) =~= swept.dom());
    assert(after_sweep(swept, now) =~= swept);
}

/// A sweep keeps what can be served and nothing else, and changes no record
/// that it keeps.
pub proof fn lemma_sweep_keeps_fresh(store: Map<Seq<char>, RecordView>, key: Seq<char>, now: u64)
    ensures
        after_sweep(store, now).dom().contains(key) <==> store.dom().contains(key) && is_fresh(
            store[key],
            now,
        ),
        after_sweep(store, now).dom().contains(key) ==> after_sweep(store, now)[key] == store[key],
        lookup(after_sweep(store, now), key, now) == lookup(store, key, now),
{
}

} // verus!
