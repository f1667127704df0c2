//! Listings: one directory's children as they were read, arranged under the
//! sort options of that moment.
use crate::entry::Entry;
use crate::path::{DirPath, PathView};
use crate::sort::{arranged, is_ordered, visible, SortOptions};
use vstd::prelude::*;

verus! {

/// Why a directory could not be read.
#[derive(Clone, Copy, Debug, PartialEq, Eq, Structural)]
pub enum IoErrorKind {
    NotFound,
    PermissionDenied,
    Other,
}

/// A directory was unreadable. The cache stays valid; the error is for the
/// caller to show.
#[derive(Clone, Copy, Debug, PartialEq, Eq, Structural)]
pub struct IoError {
    pub kind: IoErrorKind,
}

/// What a successful read of a directory yields: its children in no
/// particular order, and the time of the read.
#[derive(Debug)]
pub struct DirSnapshot {
    pub entries: Vec<Entry>,
    pub taken_at: u64,
}

/// What the filesystem reader hands back for one directory.
pub type ReadOutcome = Result<DirSnapshot, IoErrorKind>;

/// The children of one directory, shown ones only, in listing order.
#[derive(Debug)]
pub struct Listing {
    pub path: DirPath,
    pub entries: Vec<Entry>,
    /// How often this listing has been built.
    pub generation: u64,
    pub loaded_at: u64,
}

/// The mathematical value of a listing.
pub struct ListingView {
    pub path: PathView,
    pub entries: Seq<Entry>,
    pub generation: int,
    pub loaded_at: int,
}

impl View for Listing {
    type V = ListingView;

    open spec fn view(&self) -> ListingView {
        ListingView {
            path: self.path@,
            entries: self.entries@,
            generation: self.generation as int,
            loaded_at: self.loaded_at as int,
        }
    }
}

/// The listing that stands in for a directory that was never read.
pub open spec fn empty_listing(path: PathView) -> ListingView {
    ListingView { path, entries: Seq::empty(), generation: 0, loaded_at: 0 }
}

/// The listing built from `snapshot` under `options`.
pub open spec fn built_listing(
    path: PathView,
    snapshot: DirSnapshot,
    options: SortOptions,
    generation: int,
) -> ListingView {
    ListingView {
        path,
        entries: arranged(snapshot.entries@, options),
        generation,
        loaded_at: snapshot.taken_at as int,
    }
}

/// `i` is the first place in `entries` that holds an entry called `name`.
pub open spec fn is_first_named(entries: Seq<Entry>, name: Seq<char>, i: int) -> bool {
    &&& 0 <= i < entries.len()
    &&& entries[i].name@ == name
    &&& forall|k: int| 0 <= k < i ==> (#[trigger] entries[k]).name@ != name
}

/// The first place in `entries` that holds an entry called `name`, if any.
pub open spec fn position_of_name(entries: Seq<Entry>, name: Seq<char>) -> Option<int> {
    if exists|i: int| is_first_named(entries, name, i) {
        Some(choose|i: int| is_first_named(entries, name, i))
    } else {
        None
    }
}

/// At most one place is the first that holds a given name.
pub proof fn lemma_first_named_unique(entries: Seq<Entry>, name: Seq<char>, i: int, j: int)
    requires
        is_first_named(entries, name, i),
        is_first_named(entries, name, j),
    ensures
        i == j,
{
    if i < j {
        assert(entries[i].name@ != name);
    } else if j < i {
        assert(entries[j].name@ != name);
    }
}

impl Listing {
    /// The listing that stands in for a directory that was never read.
    pub fn empty(path: DirPath) -> (l: Listing)
        ensures
            l@ == empty_listing(path@),
    {
        Listing { path, entries: Vec::new(), generation: 0, loaded_at: 0 }
    }

    /// Builds the listing of `path` from what was read, under `options`.
    pub fn build(path: DirPath, snapshot: &DirSnapshot, options: &SortOptions, generation: u64) -> (l:
        Listing)
        ensures
            l@ == built_listing(path@, *snapshot, *options, generation as int),
            is_ordered(l@.entries, *options),
            l@.entries.to_multiset() == visible(snapshot.entries@, options.show_hidden).to_multiset(),
    {
        Listing {
            path,
            entries: options.arrange(&snapshot.entries),
            generation,
            loaded_at: snapshot.taken_at,
        }
    }

    /// The number of entries.
    pub fn len(&self) -> (n: usize)
        ensures
            n == self@.entries.len(),
    {
        self.entries.len()
    }

    /// Whether there is no entry.
    pub fn is_empty(&self) -> (b: bool)
        ensures
            b == (self@.entries.len() == 0),
    {
        self.entries.len() == 0
    }

    /// The entry at place `i`, if there is one.
    pub fn get(&self, i: usize) -> (e: Option<&Entry>)
        ensures
            i < self@.entries.len() ==> e == Some(&self@.entries[i as int]),
            i >= self@.entries.len() ==> e is None,
    {
        if i < self.entries.len() {
            Some(&self.entries[i])
        } else {
            None
        }
    }

    /// The first place that holds an entry called `name`, if any.
    pub fn position_of(&self, name: &str) -> (r: Option<usize>)
        ensures
            match r {
                Some(k) => position_of_name(self@.entries, name@) == Some(k as int) && k
                    < self@.entries.len(),
                None => position_of_name(self@.entries, name@) is None,
            },
    {
        let needle = name.to_owned();
        let mut i: usize = 0;
        while i < self.entries.len()
            invariant
                i <= self.entries@.len(),
                needle@ == name@,
                forall|k: int| 0 <= k < i ==> (#[trigger] self.entries@[k]).name@ != name@,
            decreases self.entries@.len() - i,
        {
            if self.entries[i].name == needle {
                proof {
                    assert(is_first_named(self@.entries, name@, i as int));
                    let j = choose|j: int| is_first_named(self@.entries, name@, j);
                    lemma_first_named_unique(self@.entries, name@, i as int, j);
                }
                return Some(i);
            }
            i += 1;
        }
        assert forall|j: int| !is_first_named(self@.entries, name@, j) by {
            if is_first_named(self@.entries, name@, j) {
                assert(self.entries@[j].name@ != name@);
            }
        }
        None
    }
}

impl Clone for Listing {
    fn clone(&self) -> (l: Listing)
        ensures
            l@ == self@,
    {
        let mut entries: Vec<Entry> = Vec::new();
        let mut i: usize = 0;
        while i < self.entries.len()
            invariant
                i <= self.entries@.len(),
                entries@ == self.entries@.take(i as int),
            decreases self.entries@.len() - i,
        {
            entries.push(self.entries[i].clone());
            assert(self.entries@.take(i as int).push(self.entries@[i as int]) =~= self.entries@.take(
                i + 1,
            ));
            i += 1;
        }
        assert(self.entries@.take(self.entries@.len() as int) =~= self.entries@);
        Listing {
            path: self.path.clone(),
            entries,
            generation: self.generation,
            loaded_at: self.loaded_at,
        }
    }
}

} // verus!
