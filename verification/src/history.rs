//! The directory cache of one tab: for each path that was visited, its last
//! listing and whether that listing is out of date.
use crate::listing::{
    built_listing, empty_listing, DirSnapshot, IoError, IoErrorKind, Listing, ListingView,
    ReadOutcome,
};
use crate::path::{DirPath, PathView};
use crate::sort::{
    is_ordered, lemma_arranged_is_ordered, lemma_arranged_keeps_visible, visible, SortOptions,
};
use vstd::prelude::*;

verus! {

/// A cached listing. A stale one is kept as the last known state of its
/// directory and is rebuilt when it is next asked for.
#[derive(Debug)]
pub struct CacheEntry {
    pub listing: Listing,
    pub stale: bool,
}

/// The mathematical value of a cache entry.
pub struct CacheEntryView {
    pub listing: ListingView,
    pub stale: bool,
}

impl View for CacheEntry {
    type V = CacheEntryView;

    open spec fn view(&self) -> CacheEntryView {
        CacheEntryView { listing: self.listing@, stale: self.stale }
    }
}

/// The mathematical value of a cache: at most one entry for each path.
pub type HistoryView = Map<PathView, CacheEntryView>;

/// The cache holds a listing of `path` that is not out of date.
pub open spec fn is_fresh(h: HistoryView, path: PathView) -> bool {
    h.contains_key(path) && !h[path].stale
}

/// The same listing, marked out of date.
pub open spec fn depreciated_entry(c: CacheEntryView) -> CacheEntryView {
    CacheEntryView { stale: true, ..c }
}

/// The cache with every entry marked out of date and no listing touched.
pub open spec fn depreciated(h: HistoryView) -> HistoryView {
    h.map_values(|c: CacheEntryView| depreciated_entry(c))
}

/// The cache with the entry of `path`, if it has one, marked out of date.
pub open spec fn depreciated_at(h: HistoryView, path: PathView) -> HistoryView {
    if h.contains_key(path) {
        h.insert(path, depreciated_entry(h[path]))
    } else {
        h
    }
}

/// The generation that the next listing built for `path` gets.
pub open spec fn next_generation(h: HistoryView, path: PathView) -> int {
    if h.contains_key(path) {
        h[path].listing.generation + 1
    } else {
        1
    }
}

/// The generation counter of `path` can still be advanced.
pub open spec fn has_headroom(h: HistoryView, path: PathView) -> bool {
    h.contains_key(path) ==> h[path].listing.generation < u64::MAX
}

/// The cache after `path` was read with the given outcome. A successful read
/// replaces the listing by one built under `options`, with the next
/// generation, and not stale. A failed read keeps the listing there was, or
/// puts an empty one where there was none, and leaves the entry stale.
pub open spec fn after_read(
    h: HistoryView,
    path: PathView,
    outcome: ReadOutcome,
    options: SortOptions,
) -> HistoryView {
    match outcome {
        Ok(snapshot) => h.insert(
            path,
            CacheEntryView {
                listing: built_listing(path, snapshot, options, next_generation(h, path)),
                stale: false,
            },
        ),
        Err(_) => if h.contains_key(path) {
            h.insert(path, depreciated_entry(h[path]))
        } else {
            h.insert(path, CacheEntryView { listing: empty_listing(path), stale: true })
        },
    }
}

/// The cache after `path` was asked for: untouched where the listing was
/// fresh, and else as after a read with the given outcome.
pub open spec fn after_get_or_load(
    h: HistoryView,
    path: PathView,
    outcome: ReadOutcome,
    options: SortOptions,
) -> HistoryView {
    if is_fresh(h, path) {
        h
    } else {
        after_read(h, path, outcome, options)
    }
}

/// The error that a read outcome is reported as, if it is one.
pub open spec fn failure_of(outcome: ReadOutcome) -> Option<IoError> {
    match outcome {
        Ok(_) => None,
        Err(kind) => Some(IoError { kind }),
    }
}

/// The error in a result, if it is one.
pub open spec fn failure_in<T>(r: Result<T, IoError>) -> Option<IoError> {
    match r {
        Ok(_) => None,
        Err(e) => Some(e),
    }
}

/// `reader` may hand back `outcome` when it is asked for the directory `path`.
pub open spec fn may_read<F: Fn(&DirPath) -> ReadOutcome>(
    reader: F,
    path: PathView,
    outcome: ReadOutcome,
) -> bool {
    exists|p: DirPath| p@ == path && #[trigger] reader.ensures((&p,), outcome)
}

/// `reader` can be asked for every directory.
pub open spec fn reads_any<F: Fn(&DirPath) -> ReadOutcome>(reader: F) -> bool {
    forall|p: DirPath| #[trigger] reader.requires((&p,))
}

/// `after` is the cache `before` once `reader` was asked for `path`, and
/// `failure` is the error it came back with, if any.
pub open spec fn loaded<F: Fn(&DirPath) -> ReadOutcome>(
    reader: F,
    before: HistoryView,
    path: PathView,
    options: SortOptions,
    after: HistoryView,
    failure: Option<IoError>,
) -> bool {
    exists|outcome: ReadOutcome| #[trigger]
        may_read(reader, path, outcome) && after == after_read(before, path, outcome, options)
            && failure == failure_of(outcome)
}

/// `after` is the cache `before` once the listing of `path` was asked for
/// through `reader`: untouched, and without failure, where the listing was
/// fresh, and else as after a read.
pub open spec fn fetched<F: Fn(&DirPath) -> ReadOutcome>(
    reader: F,
    before: HistoryView,
    path: PathView,
    options: SortOptions,
    after: HistoryView,
    failure: Option<IoError>,
) -> bool {
    if is_fresh(before, path) {
        after == before && failure is None
    } else {
        loaded(reader, before, path, options, after, failure)
    }
}

/// Asking twice for a path, with nothing invalidated in between, leaves the
/// cache as the first call left it, generation included: provided the first
/// call came back with a listing, because the listing was fresh or the read
/// succeeded. What a second read would have found plays no part.
pub proof fn lemma_get_or_load_idempotent(
    h: HistoryView,
    path: PathView,
    first: ReadOutcome,
    second: ReadOutcome,
    first_options: SortOptions,
    second_options: SortOptions,
)
    requires
        is_fresh(h, path) || first is Ok,
    ensures
        after_get_or_load(
            after_get_or_load(h, path, first, first_options),
            path,
            second,
            second_options,
        ) == after_get_or_load(h, path, first, first_options),
        is_fresh(after_get_or_load(h, path, first, first_options), path),
{
}

/// After every entry was marked out of date, asking for a cached path reads
/// it again, and a read that succeeds advances its generation by one.
pub proof fn lemma_depreciate_all_forces_reload(
    h: HistoryView,
    path: PathView,
    snapshot: DirSnapshot,
    options: SortOptions,
)
    requires
        h.contains_key(path),
    ensures
        !is_fresh(depreciated(h), path),
        after_get_or_load(depreciated(h), path, Ok(snapshot), options)[path].listing.generation
            == h[path].listing.generation + 1,
        depreciated(h)[path].listing == h[path].listing,
{
}

/// A directory that was read anew is listed under the options of that
/// moment: in the order they prescribe, and with exactly the entries they
/// show.
pub proof fn lemma_read_applies_options(
    h: HistoryView,
    path: PathView,
    snapshot: DirSnapshot,
    options: SortOptions,
)
    ensures
        is_fresh(after_read(h, path, Ok(snapshot), options), path),
        is_ordered(after_read(h, path, Ok(snapshot), options)[path].listing.entries, options),
        after_read(h, path, Ok(snapshot), options)[path].listing.entries.to_multiset() == visible(
            snapshot.entries@,
            options.show_hidden,
        ).to_multiset(),
{
    lemma_arranged_is_ordered(snapshot.entries@, options);
    lemma_arranged_keeps_visible(snapshot.entries@, options);
}

/// A read of one path leaves the entry of every other path as it was, and
/// no entry is lost by it.
pub proof fn lemma_read_touches_one_path(
    h: HistoryView,
    path: PathView,
    outcome: ReadOutcome,
    options: SortOptions,
    other: PathView,
)
    requires
        other != path,
    ensures
        after_read(h, path, outcome, options).contains_key(path),
        after_read(h, path, outcome, options).contains_key(other) == h.contains_key(other),
        h.contains_key(other) ==> after_read(h, path, outcome, options)[other] == h[other],
{
}

/// Marking out of date touches no listing and loses no entry.
pub proof fn lemma_depreciated_keeps_listings(h: HistoryView)
    ensures
        depreciated(h).dom() == h.dom(),
        forall|p: PathView| #[trigger]
            h.contains_key(p) ==> depreciated(h)[p].listing == h[p].listing && depreciated(h)[p].stale,
{
}

spec fn holds_path(slots: Seq<CacheEntry>, path: PathView, i: int) -> bool {
    0 <= i < slots.len() && slots[i].listing.path@ == path
}

spec fn has_slot(slots: Seq<CacheEntry>, path: PathView) -> bool {
    exists|i: int| holds_path(slots, path, i)
}

spec fn slot_index(slots: Seq<CacheEntry>, path: PathView) -> int {
    choose|i: int| holds_path(slots, path, i)
}

spec fn distinct_paths(slots: Seq<CacheEntry>) -> bool {
    forall|i: int, j: int|
        0 <= i < j < slots.len() ==> (#[trigger] slots[i]).listing.path@ != (
        #[trigger] slots[j]).listing.path@
}

spec fn slots_map(slots: Seq<CacheEntry>) -> HistoryView {
    Map::new(|p: PathView| has_slot(slots, p), |p: PathView| slots[slot_index(slots, p)]@)
}

proof fn lemma_slot_index(slots: Seq<CacheEntry>, i: int)
    requires
        distinct_paths(slots),
        0 <= i < slots.len(),
    ensures
        has_slot(slots, slots[i].listing.path@),
        slot_index(slots, slots[i].listing.path@) == i,
        slots_map(slots).contains_key(slots[i].listing.path@),
        slots_map(slots)[slots[i].listing.path@] == slots[i]@,
{
    let path = slots[i].listing.path@;
    assert(holds_path(slots, path, i));
    let j = slot_index(slots, path);
    assert(holds_path(slots, path, j));
    if i < j {
        assert(slots[i].listing.path@ != slots[j].listing.path@);
    } else if j < i {
        assert(slots[j].listing.path@ != slots[i].listing.path@);
    }
}

/// Replacing a slot by one of the same path replaces its value in the map.
proof fn lemma_slots_update(slots: Seq<CacheEntry>, i: int, c: CacheEntry)
    requires
        distinct_paths(slots),
        0 <= i < slots.len(),
        c.listing.path@ == slots[i].listing.path@,
    ensures
        distinct_paths(slots.update(i, c)),
        slots_map(slots.update(i, c)) == slots_map(slots).insert(c.listing.path@, c@),
{
    let new = slots.update(i, c);
    let path = c.listing.path@;
    assert(distinct_paths(new)) by {
        assert forall|a: int, b: int| 0 <= a < b < new.len() implies (#[trigger] new[a]).listing.path@
            != (#[trigger] new[b]).listing.path@ by {
            assert(slots[a].listing.path@ != slots[b].listing.path@);
        }
    }
    assert forall|p: PathView| has_slot(new, p) == (has_slot(slots, p) || p == path) by {
        if has_slot(new, p) {
            let k = slot_index(new, p);
            assert(holds_path(new, p, k));
            assert(holds_path(slots, p, k));
        }
        if has_slot(slots, p) {
            let k = slot_index(slots, p);
            assert(holds_path(slots, p, k));
            assert(holds_path(new, p, k));
        }
        if p == path {
            assert(holds_path(new, p, i));
        }
    }
    assert forall|p: PathView| has_slot(new, p) implies #[trigger] slots_map(new)[p] == slots_map(
        slots,
    ).insert(path, c@)[p] by {
        let k = slot_index(new, p);
        assert(holds_path(new, p, k));
        lemma_slot_index(new, k);
        if p != path {
            assert(k != i);
            lemma_slot_index(slots, k);
        } else {
            lemma_slot_index(new, i);
        }
    }
    assert(slots_map(new) =~= slots_map(slots).insert(path, c@));
}

/// A slot of a new path adds its value to the map.
proof fn lemma_slots_push(slots: Seq<CacheEntry>, c: CacheEntry)
    requires
        distinct_paths(slots),
        !has_slot(slots, c.listing.path@),
    ensures
        distinct_paths(slots.push(c)),
        slots_map(slots.push(c)) == slots_map(slots).insert(c.listing.path@, c@),
{
    let new = slots.push(c);
    let path = c.listing.path@;
    let n = slots.len() as int;
    assert(distinct_paths(new)) by {
        assert forall|a: int, b: int| 0 <= a < b < new.len() implies (#[trigger] new[a]).listing.path@
            != (#[trigger] new[b]).listing.path@ by {
            if b == n {
                assert(!holds_path(slots, path, a));
            } else {
                assert(slots[a].listing.path@ != slots[b].listing.path@);
            }
        }
    }
    assert forall|p: PathView| has_slot(new, p) == (has_slot(slots, p) || p == path) by {
        if has_slot(new, p) {
            let k = slot_index(new, p);
            assert(holds_path(new, p, k));
            if k < n {
                assert(holds_path(slots, p, k));
            }
        }
        if has_slot(slots, p) {
            let k = slot_index(slots, p);
            assert(holds_path(slots, p, k));
            assert(holds_path(new, p, k));
        }
        if p == path {
            assert(holds_path(new, p, n));
        }
    }
    assert forall|p: PathView| has_slot(new, p) implies #[trigger] slots_map(new)[p] == slots_map(
        slots,
    ).insert(path, c@)[p] by {
        let k = slot_index(new, p);
        assert(holds_path(new, p, k));
        lemma_slot_index(new, k);
        if p != path {
            assert(k != n);
            lemma_slot_index(slots, k);
        } else {
            lemma_slot_index(new, n);
        }
    }
    assert(slots_map(new) =~= slots_map(slots).insert(path, c@));
}

/// Marking the first `n` slots stale, one by one, marks all of them stale in
/// the map once `n` is the number of slots.
proof fn lemma_slots_all_stale(old_slots: Seq<CacheEntry>, new_slots: Seq<CacheEntry>)
    requires
        distinct_paths(old_slots),
        new_slots.len() == old_slots.len(),
        forall|k: int|
            0 <= k < old_slots.len() ==> (#[trigger] new_slots[k])@ == depreciated_entry(
                old_slots[k]@,
            ),
    ensures
        distinct_paths(new_slots),
        slots_map(new_slots) == depreciated(slots_map(old_slots)),
{
    assert forall|k: int| 0 <= k < old_slots.len() implies (#[trigger] new_slots[k]).listing.path@
        == old_slots[k].listing.path@ by {
        assert(new_slots[k]@ == depreciated_entry(old_slots[k]@));
    }
    assert(distinct_paths(new_slots)) by {
        assert forall|a: int, b: int| 0 <= a < b < new_slots.len() implies (
        #[trigger] new_slots[a]).listing.path@ != (#[trigger] new_slots[b]).listing.path@ by {
            assert(old_slots[a].listing.path@ != old_slots[b].listing.path@);
        }
    }
    assert forall|p: PathView| has_slot(new_slots, p) == has_slot(old_slots, p) by {
        if has_slot(new_slots, p) {
            let k = slot_index(new_slots, p);
            assert(holds_path(new_slots, p, k));
            assert(holds_path(old_slots, p, k));
        }
        if has_slot(old_slots, p) {
            let k = slot_index(old_slots, p);
            assert(holds_path(old_slots, p, k));
            assert(holds_path(new_slots, p, k));
        }
    }
    assert forall|p: PathView| has_slot(new_slots, p) implies #[trigger] slots_map(new_slots)[p]
        == depreciated(slots_map(old_slots))[p] by {
        let k = slot_index(new_slots, p);
        assert(holds_path(new_slots, p, k));
        lemma_slot_index(new_slots, k);
        lemma_slot_index(old_slots, k);
    }
    assert(slots_map(new_slots) =~= depreciated(slots_map(old_slots)));
}

/// The cache of one tab.
#[derive(Debug)]
pub struct DirectoryHistory {
    slots: Vec<CacheEntry>,
}

impl View for DirectoryHistory {
    type V = HistoryView;

    closed spec fn view(&self) -> HistoryView {
        slots_map(self.slots@)
    }
}

impl DirectoryHistory {
    /// No path is cached twice.
    pub closed spec fn wf(&self) -> bool {
        distinct_paths(self.slots@)
    }

    /// Every entry is filed under the path of its listing.
    pub proof fn lemma_filed_by_path(&self, path: PathView)
        requires
            self.wf(),
            self@.contains_key(path),
        ensures
            self@[path].listing.path == path,
    {
        let k = slot_index(self.slots@, path);
        assert(holds_path(self.slots@, path, k));
        lemma_slot_index(self.slots@, k);
    }

    /// An empty cache.
    pub fn new() -> (h: DirectoryHistory)
        ensures
            h.wf(),
            h@ == Map::<PathView, CacheEntryView>::empty(),
    {
        let h = DirectoryHistory { slots: Vec::new() };
        assert forall|p: PathView| !has_slot(h.slots@, p) by {
            if has_slot(h.slots@, p) {
                assert(holds_path(h.slots@, p, slot_index(h.slots@, p)));
            }
        }
        assert(h@ =~= Map::<PathView, CacheEntryView>::empty());
        h
    }

    /// The slot that holds `path`, if one does.
    fn find(&self, path: &DirPath) -> (r: Option<usize>)
        requires
            self.wf(),
        ensures
            match r {
                Some(i) => i < self.slots@.len() && self.slots@[i as int].listing.path@ == path@
                    && self@.contains_key(path@) && self@[path@] == self.slots@[i as int]@,
                None => !has_slot(self.slots@, path@) && !self@.contains_key(path@),
            },
    {
        let mut i: usize = 0;
        while i < self.slots.len()
            invariant
                self.wf(),
                i <= self.slots@.len(),
                forall|k: int| 0 <= k < i ==> !holds_path(self.slots@, path@, k),
            decreases self.slots@.len() - i,
        {
            if self.slots[i].listing.path.equals(path) {
                proof {
                    lemma_slot_index(self.slots@, i as int);
                }
                return Some(i);
            }
            i += 1;
        }
        assert(!has_slot(self.slots@, path@)) by {
            if has_slot(self.slots@, path@) {
                assert(holds_path(self.slots@, path@, slot_index(self.slots@, path@)));
            }
        }
        None
    }

    /// Whether `path` has an entry, stale or not.
    pub fn contains(&self, path: &DirPath) -> (b: bool)
        requires
            self.wf(),
        ensures
            b == self@.contains_key(path@),
    {
        self.find(path).is_some()
    }

    /// The entry of `path`, stale or not.
    pub fn get(&self, path: &DirPath) -> (r: Option<&CacheEntry>)
        requires
            self.wf(),
        ensures
            match r {
                Some(c) => self@.contains_key(path@) && c@ == self@[path@],
                None => !self@.contains_key(path@),
            },
    {
        match self.find(path) {
            Some(i) => Some(&self.slots[i]),
            None => None,
        }
    }

    /// Whether `path` has a listing that is not out of date.
    pub fn is_fresh(&self, path: &DirPath) -> (b: bool)
        requires
            self.wf(),
        ensures
            b == is_fresh(self@, path@),
    {
        match self.find(path) {
            Some(i) => !self.slots[i].stale,
            None => false,
        }
    }

    /// Whether the generation counter of `path` can still be advanced.
    pub fn has_headroom(&self, path: &DirPath) -> (b: bool)
        requires
            self.wf(),
        ensures
            b == has_headroom(self@, path@),
    {
        match self.find(path) {
            Some(i) => self.slots[i].listing.generation < u64::MAX,
            None => true,
        }
    }

    /// Files what a read of `path` came back with, and reports a failed read
    /// as the error to show.
    pub fn store(&mut self, path: &DirPath, outcome: ReadOutcome, options: &SortOptions) -> (r:
        Result<(), IoError>)
        requires
            old(self).wf(),
            has_headroom(old(self)@, path@),
        ensures
            final(self).wf(),
            final(self)@ == after_read(old(self)@, path@, outcome, *options),
            failure_in(r) == failure_of(outcome),
    {
        let found = self.find(path);
        let ghost before = self.slots@;
        match outcome {
            Ok(snapshot) => {
                match found {
                    Some(i) => {
                        let generation = self.slots[i].listing.generation + 1;
                        let listing = Listing::build(path.clone(), &snapshot, options, generation);
                        let entry = CacheEntry { listing, stale: false };
                        proof {
                            lemma_slots_update(before, i as int, entry);
                        }
                        self.slots[i] = entry;
                    },
                    None => {
                        let listing = Listing::build(path.clone(), &snapshot, options, 1);
                        let entry = CacheEntry { listing, stale: false };
                        proof {
                            lemma_slots_push(before, entry);
                        }
                        self.slots.push(entry);
                    },
                }
                Ok(())
            },
            Err(kind) => {
                match found {
                    Some(i) => {
                        self.slots[i].stale = true;
                        proof {
                            lemma_slots_update(before, i as int, self.slots@[i as int]);
                            assert(self.slots@ =~= before.update(i as int, self.slots@[i as int]));
                        }
                    },
                    None => {
                        let entry = CacheEntry { listing: Listing::empty(path.clone()), stale: true };
                        proof {
                            lemma_slots_push(before, entry);
                        }
                        self.slots.push(entry);
                    },
                }
                Err(IoError { kind })
            },
        }
    }

    /// Marks every entry out of date. No listing is touched and nothing is
    /// read.
    pub fn depreciate_all(&mut self)
        requires
            old(self).wf(),
        ensures
            final(self).wf(),
            final(self)@ == depreciated(old(self)@),
    {
        let ghost before = self.slots@;
        let mut i: usize = 0;
        while i < self.slots.len()
            invariant
                i <= self.slots@.len(),
                self.slots@.len() == before.len(),
                forall|k: int| 0 <= k < i ==> (#[trigger] self.slots@[k])@ == depreciated_entry(before[k]@),
                forall|k: int| i <= k < before.len() ==> self.slots@[k] == before[k],
            decreases self.slots@.len() - i,
        {
            self.slots[i].stale = true;
            i += 1;
        }
        proof {
            lemma_slots_all_stale(before, self.slots@);
        }
    }

    /// Marks the entry of `path` out of date, if it has one.
    pub fn depreciate(&mut self, path: &DirPath)
        requires
            old(self).wf(),
        ensures
            final(self).wf(),
            final(self)@ == depreciated_at(old(self)@, path@),
    {
        let ghost before = self.slots@;
        match self.find(path) {
            Some(i) => {
                self.slots[i].stale = true;
                proof {
                    lemma_slots_update(before, i as int, self.slots@[i as int]);
                    assert(self.slots@ =~= before.update(i as int, self.slots@[i as int]));
                }
            },
            None => {},
        }
    }

    /// The listing of `path`: the cached one where it is fresh, and else one
    /// that is read and built now.
    pub fn get_or_load<'a, F: Fn(&DirPath) -> ReadOutcome>(
        &'a mut self,
        path: &DirPath,
        options: &SortOptions,
        reader: &F,
    ) -> (r: Result<&'a Listing, IoError>)
        requires
            old(self).wf(),
            has_headroom(old(self)@, path@),
            reader.requires((path,)),
        ensures
            final(self).wf(),
            fetched(*reader, old(self)@, path@, *options, final(self)@, failure_in(r)),
            final(self)@.contains_key(path@),
            r matches Ok(listing) ==> listing@ == final(self)@[path@].listing && is_fresh(
                final(self)@,
                path@,
            ),
    {
        let cached = self.is_fresh(path);
        if !cached {
            let outcome = (*reader)(path);
            proof {
                assert(may_read(*reader, path@, outcome));
            }
            let stored = self.store(path, outcome, options);
            if let Err(e) = stored {
                return Err(e);
            }
        }
        match self.find(path) {
            Some(i) => Ok(&self.slots[i].listing),
            None => Err(IoError { kind: IoErrorKind::Other }),
        }
    }

    /// The listing of `path`, read and built now whether or not a fresh one
    /// is cached.
    pub fn force_reload<'a, F: Fn(&DirPath) -> ReadOutcome>(
        &'a mut self,
        path: &DirPath,
        options: &SortOptions,
        reader: &F,
    ) -> (r: Result<&'a Listing, IoError>)
        requires
            old(self).wf(),
            has_headroom(old(self)@, path@),
            reader.requires((path,)),
        ensures
            final(self).wf(),
            loaded(*reader, old(self)@, path@, *options, final(self)@, failure_in(r)),
            final(self)@.contains_key(path@),
            r matches Ok(listing) ==> listing@ == final(self)@[path@].listing && is_fresh(
                final(self)@,
                path@,
            ),
    {
        let outcome = (*reader)(path);
        proof {
            assert(may_read(*reader, path@, outcome));
        }
        let stored = self.store(path, outcome, options);
        if let Err(e) = stored {
            return Err(e);
        }
        match self.find(path) {
            Some(i) => Ok(&self.slots[i].listing),
            None => Err(IoError { kind: IoErrorKind::Other }),
        }
    }
}

} // verus!
