//! A tab: one place in the filesystem tree, the selected child there, and the
//! directory cache that the tab owns.
use crate::entry::{Entry, EntryKind};
use crate::history::{
    failure_in, failure_of, fetched, has_headroom, is_fresh, loaded, may_read, reads_any,
    CacheEntryView, DirectoryHistory, HistoryView,
};
use crate::listing::{
    built_listing, position_of_name, IoError, Listing, ListingView, ReadOutcome,
};
use crate::path::{child_path, parent_path, DirPath, PathView};
use crate::sort::SortOptions;
use vstd::prelude::*;

verus! {

/// One navigation cursor.
#[derive(Debug)]
pub struct Tab {
    pub current_path: DirPath,
    pub cursor_index: usize,
    pub history: DirectoryHistory,
    pub child_preview: Option<Listing>,
}

/// The mathematical value of a tab.
pub struct TabView {
    pub current_path: PathView,
    pub cursor_index: int,
    pub history: HistoryView,
    pub child_preview: Option<ListingView>,
}

impl View for Tab {
    type V = TabView;

    open spec fn view(&self) -> TabView {
        TabView {
            current_path: self.current_path@,
            cursor_index: self.cursor_index as int,
            history: self.history@,
            child_preview: match self.child_preview {
                Some(listing) => Some(listing@),
                None => None,
            },
        }
    }
}

/// The cursor stands on an entry, or at 0 where there is none.
pub open spec fn cursor_in_range(cursor: int, len: int) -> bool {
    if len == 0 {
        cursor == 0
    } else {
        0 <= cursor < len
    }
}

/// The place nearest to `cursor` that a listing of `len` entries has.
pub open spec fn clamped(cursor: int, len: int) -> int {
    if len == 0 {
        0
    } else if cursor >= len {
        len - 1
    } else {
        cursor
    }
}

/// The listing a preview holds once its directory was read with `outcome`:
/// none where the read failed.
pub open spec fn preview_of(path: PathView, outcome: ReadOutcome, options: SortOptions) -> Option<
    ListingView,
> {
    match outcome {
        Ok(snapshot) => Some(built_listing(path, snapshot, options, 1)),
        Err(_) => None,
    }
}

/// `preview` is what a preview of `path` holds once `reader` was asked for
/// it, and `failure` the error it came back with, if any.
pub open spec fn previewed<F: Fn(&DirPath) -> ReadOutcome>(
    reader: F,
    path: PathView,
    options: SortOptions,
    preview: Option<ListingView>,
    failure: Option<IoError>,
) -> bool {
    exists|outcome: ReadOutcome| #[trigger]
        may_read(reader, path, outcome) && preview == preview_of(path, outcome, options) && failure
            == failure_of(outcome)
}

/// `after` is the tab `before` once its current directory was brought up to
/// date through `reader`, and `failure` the error of the read, if any. Where
/// the listing was fresh and `force` is not set, nothing is read and the tab
/// is as it was. Else the directory is read, the cursor is brought back into
/// range, and a preview goes.
pub open spec fn reloaded<F: Fn(&DirPath) -> ReadOutcome>(
    reader: F,
    before: TabView,
    force: bool,
    options: SortOptions,
    after: TabView,
    failure: Option<IoError>,
) -> bool {
    &&& after.current_path == before.current_path
    &&& !force && is_fresh(before.history, before.current_path) ==> after == before && failure is None
    &&& force || !is_fresh(before.history, before.current_path) ==> {
        &&& loaded(reader, before.history, before.current_path, options, after.history, failure)
        &&& after.cursor_index == clamped(before.cursor_index, after.listing().entries.len() as int)
        &&& after.child_preview is None
    }
}

/// `after` is the tab `before` with its preview made that of the directory
/// under the cursor, and `failure` the error of the read, if any.
pub open spec fn preview_refreshed<F: Fn(&DirPath) -> ReadOutcome>(
    reader: F,
    before: TabView,
    options: SortOptions,
    after: TabView,
    failure: Option<IoError>,
) -> bool {
    &&& after.current_path == before.current_path
    &&& after.cursor_index == before.cursor_index
    &&& after.history == before.history
    &&& match before.child_target() {
        None => after.child_preview is None && failure is None,
        Some(child) => previewed(reader, child, options, after.child_preview, failure),
    }
}

/// `after` is the tab `before` once it stepped into the directory under its
/// cursor: that directory is the current one, the cursor is at 0, the
/// preview is gone, and the listing was asked for. Where the cursor was not
/// on a directory the tab is as it was.
pub open spec fn entered<F: Fn(&DirPath) -> ReadOutcome>(
    reader: F,
    before: TabView,
    options: SortOptions,
    after: TabView,
    failure: Option<IoError>,
) -> bool {
    match before.child_target() {
        None => after == before && failure is None,
        Some(child) => {
            &&& after.current_path == child
            &&& after.cursor_index == 0
            &&& after.child_preview is None
            &&& fetched(reader, before.history, child, options, after.history, failure)
        },
    }
}

/// `after` is the tab `before` once it stepped up to its parent directory:
/// the parent is the current one, its listing was asked for, the cursor is
/// on the entry of the directory that was left, or at 0 where the parent
/// does not list it, and the preview is gone. At the root the tab is as it
/// was.
pub open spec fn left<F: Fn(&DirPath) -> ReadOutcome>(
    reader: F,
    before: TabView,
    options: SortOptions,
    after: TabView,
    failure: Option<IoError>,
) -> bool {
    if before.current_path.len() == 0 {
        after == before && failure is None
    } else {
        &&& after.current_path == parent_path(before.current_path)
        &&& after.child_preview is None
        &&& fetched(
            reader,
            before.history,
            parent_path(before.current_path),
            options,
            after.history,
            failure,
        )
        &&& after.cursor_index == after.restored_cursor(before.current_path.last())
    }
}

impl TabView {
    /// The listing of the current directory.
    pub open spec fn listing(self) -> ListingView {
        self.history[self.current_path].listing
    }

    /// The entry under the cursor.
    pub open spec fn selected(self) -> Option<Entry> {
        if 0 <= self.cursor_index < self.listing().entries.len() {
            Some(self.listing().entries[self.cursor_index])
        } else {
            None
        }
    }

    /// The directory under the cursor, where the cursor stands on one.
    pub open spec fn child_target(self) -> Option<PathView> {
        match self.selected() {
            Some(e) => if e.kind == EntryKind::Directory {
                Some(child_path(self.current_path, e.name@))
            } else {
                None
            },
            None => None,
        }
    }

    /// The current directory is cached, the cursor is in range, and a preview
    /// is of the directory under the cursor.
    pub open spec fn wf(self) -> bool {
        &&& self.history.contains_key(self.current_path)
        &&& cursor_in_range(self.cursor_index, self.listing().entries.len() as int)
        &&& self.child_preview matches Some(preview) ==> self.child_target() == Some(preview.path)
    }

    /// Where the cursor goes after a step up from the directory called
    /// `name`: onto the entry of that name, or to 0 where it is gone.
    pub open spec fn restored_cursor(self, name: Seq<char>) -> int {
        match position_of_name(self.listing().entries, name) {
            Some(i) => i,
            None => 0,
        }
    }
}

impl Tab {
    /// The cache is well formed, and so is the value of the tab.
    pub open spec fn wf(&self) -> bool {
        self.history.wf() && self@.wf()
    }

    /// A tab that stands in `path`, with the cursor on the first entry.
    pub fn new<F: Fn(&DirPath) -> ReadOutcome>(path: DirPath, options: &SortOptions, reader: &F) -> (r:
        (Tab, Result<(), IoError>))
        requires
            reads_any(*reader),
        ensures
            r.0.wf(),
            r.0@.current_path == path@,
            r.0@.cursor_index == 0,
            r.0@.child_preview is None,
            loaded(
                *reader,
                Map::<PathView, CacheEntryView>::empty(),
                path@,
                *options,
                r.0@.history,
                failure_in(r.1),
            ),
    {
        let mut history = DirectoryHistory::new();
        let failure = match history.get_or_load(&path, options, reader) {
            Ok(_) => Ok(()),
            Err(e) => Err(e),
        };
        (Tab { current_path: path, cursor_index: 0, history, child_preview: None }, failure)
    }

    /// The number of entries in the listing of the current directory.
    pub fn listing_len(&self) -> (n: usize)
        requires
            self.wf(),
        ensures
            n == self@.listing().entries.len(),
    {
        match self.history.get(&self.current_path) {
            Some(entry) => entry.listing.len(),
            None => 0,
        }
    }

    /// The listing of the current directory, which may be stale.
    pub fn current_listing(&self) -> (l: &Listing)
        requires
            self.wf(),
        ensures
            l@ == self@.listing(),
    {
        match self.history.get(&self.current_path) {
            Some(entry) => &entry.listing,
            None => vstd::pervasive::unreached(),
        }
    }

    /// The entry under the cursor, if the listing has any.
    pub fn selected(&self) -> (e: Option<&Entry>)
        requires
            self.wf(),
        ensures
            match self@.selected() {
                Some(entry) => e == Some(&entry),
                None => e is None,
            },
    {
        match self.history.get(&self.current_path) {
            Some(entry) => entry.listing.get(self.cursor_index),
            None => None,
        }
    }

    /// The directory under the cursor, where the cursor stands on one.
    pub fn child_target(&self) -> (p: Option<DirPath>)
        requires
            self.wf(),
        ensures
            match self@.child_target() {
                Some(path) => p is Some && p->0@ == path,
                None => p is None,
            },
    {
        match self.selected() {
            Some(entry) => if entry.is_dir() {
                Some(self.current_path.child(entry.name.as_str()))
            } else {
                None
            },
            None => None,
        }
    }

    /// Puts the cursor on place `i`, or on the nearest place there is. A
    /// preview goes when the cursor moves.
    pub fn set_cursor(&mut self, i: usize)
        requires
            old(self).wf(),
        ensures
            final(self).wf(),
            final(self)@.cursor_index == clamped(i as int, old(self)@.listing().entries.len() as int),
            final(self)@.current_path == old(self)@.current_path,
            final(self)@.history == old(self)@.history,
            final(self)@.cursor_index == old(self)@.cursor_index ==> final(self)@ == old(self)@,
            final(self)@.cursor_index != old(self)@.cursor_index ==> final(self)@.child_preview is None,
    {
        let len = self.listing_len();
        let target = if len == 0 {
            0
        } else if i >= len {
            len - 1
        } else {
            i
        };
        if target != self.cursor_index {
            self.cursor_index = target;
            self.child_preview = None;
        }
    }

    /// Brings the listing of the current directory up to date: by a read
    /// where it is stale or `force` is set. The cursor is then brought back
    /// into range. Where nothing was read the tab is as it was; a preview
    /// goes with a read.
    pub fn reload<F: Fn(&DirPath) -> ReadOutcome>(
        &mut self,
        force: bool,
        options: &SortOptions,
        reader: &F,
    ) -> (r: Result<(), IoError>)
        requires
            old(self).wf(),
            has_headroom(old(self)@.history, old(self)@.current_path),
            reads_any(*reader),
        ensures
            final(self).wf(),
            reloaded(*reader, old(self)@, force, *options, final(self)@, failure_in(r)),
    {
        if !force && self.history.is_fresh(&self.current_path) {
            return Ok(());
        }
        let failure = match self.history.force_reload(&self.current_path, options, reader) {
            Ok(_) => Ok(()),
            Err(e) => Err(e),
        };
        self.child_preview = None;
        let len = self.listing_len_unchecked();
        if len == 0 {
            self.cursor_index = 0;
        } else if self.cursor_index >= len {
            self.cursor_index = len - 1;
        }
        failure
    }

    /// The number of entries in the listing of the current directory, while
    /// the cursor may be out of range.
    fn listing_len_unchecked(&self) -> (n: usize)
        requires
            self.history.wf(),
            self@.history.contains_key(self@.current_path),
        ensures
            n == self@.listing().entries.len(),
    {
        match self.history.get(&self.current_path) {
            Some(entry) => entry.listing.len(),
            None => 0,
        }
    }

    /// Steps into the directory under the cursor: its path becomes the
    /// current one, the cursor goes to 0, and its listing is asked for.
    /// Nothing happens where the cursor is not on a directory.
    pub fn enter_child<F: Fn(&DirPath) -> ReadOutcome>(&mut self, options: &SortOptions, reader: &F) -> (r:
        Result<(), IoError>)
        requires
            old(self).wf(),
            old(self)@.child_target() matches Some(child) ==> has_headroom(old(self)@.history, child),
            reads_any(*reader),
        ensures
            final(self).wf(),
            entered(*reader, old(self)@, *options, final(self)@, failure_in(r)),
    {
        match self.child_target() {
            None => Ok(()),
            Some(child) => {
                self.current_path = child;
                self.cursor_index = 0;
                self.child_preview = None;
                match self.history.get_or_load(&self.current_path, options, reader) {
                    Ok(_) => Ok(()),
                    Err(e) => Err(e),
                }
            },
        }
    }

    /// Steps up to the parent directory and asks for its listing. The cursor
    /// goes onto the entry of the directory that was left, or to 0 where the
    /// parent no longer lists it. Nothing happens at the root.
    pub fn leave_to_parent<F: Fn(&DirPath) -> ReadOutcome>(
        &mut self,
        options: &SortOptions,
        reader: &F,
    ) -> (r: Result<(), IoError>)
        requires
            old(self).wf(),
            has_headroom(old(self)@.history, parent_path(old(self)@.current_path)),
            reads_any(*reader),
        ensures
            final(self).wf(),
            left(*reader, old(self)@, *options, final(self)@, failure_in(r)),
    {
        if self.current_path.is_root() {
            return Ok(());
        }
        let parent = self.current_path.parent();
        let failure = match self.history.get_or_load(&parent, options, reader) {
            Ok(_) => Ok(()),
            Err(e) => Err(e),
        };
        let place = match (self.history.get(&parent), self.current_path.file_name()) {
            (Some(entry), Some(name)) => entry.listing.position_of(name.as_str()),
            _ => None,
        };
        self.cursor_index = match place {
            Some(i) => i,
            None => 0,
        };
        self.current_path = parent;
        self.child_preview = None;
        failure
    }

    /// Makes the preview that of the directory under the cursor, by a read
    /// of that directory; no preview where the cursor is not on a directory
    /// or the read fails.
    pub fn refresh_preview<F: Fn(&DirPath) -> ReadOutcome>(
        &mut self,
        options: &SortOptions,
        reader: &F,
    ) -> (r: Result<(), IoError>)
        requires
            old(self).wf(),
            reads_any(*reader),
        ensures
            final(self).wf(),
            preview_refreshed(*reader, old(self)@, *options, final(self)@, failure_in(r)),
    {
        match self.child_target() {
            None => {
                self.child_preview = None;
                Ok(())
            },
            Some(child) => {
                let outcome = (*reader)(&child);
                proof {
                    assert(may_read(*reader, child@, outcome));
                }
                match outcome {
                    Ok(snapshot) => {
                        self.child_preview = Some(Listing::build(child, &snapshot, options, 1));
                        Ok(())
                    },
                    Err(kind) => {
                        self.child_preview = None;
                        Err(IoError { kind })
                    },
                }
            },
        }
    }
}

} // verus!
