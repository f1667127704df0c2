//! The tabs of the application, the options they share, and the cascade by
//! which a change of those options reaches every tab's cache.
use crate::history::{
    after_read, depreciated, depreciated_at, failure_in, failure_of, has_headroom, is_fresh,
    loaded, may_read, reads_any,
};
use crate::listing::{IoError, ReadOutcome};
use crate::path::{DirPath, PathView};
use crate::sort::{is_ordered, lemma_arranged_is_ordered, SortOptions};
use crate::tab::{preview_refreshed, reloaded, Tab, TabView};
use vstd::prelude::*;

verus! {

/// How the view is drawn, as far as the core holds it.
#[derive(Clone, Copy, Debug, PartialEq, Eq, Structural)]
pub struct DisplayOptions {
    pub tilde_in_titlebar: bool,
}

impl DisplayOptions {
    /// Whether the title bar writes a tilde for the home directory.
    pub fn tilde_in_titlebar(&self) -> (b: bool)
        ensures
            b == self.tilde_in_titlebar,
    {
        self.tilde_in_titlebar
    }
}

/// The options that all tabs share.
#[derive(Clone, Copy, Debug, PartialEq, Eq, Structural)]
pub struct AppConfig {
    pub sort_options: SortOptions,
    pub display_options: DisplayOptions,
}

impl AppConfig {
    /// The shared options with the given values.
    pub fn new(sort_options: SortOptions, display_options: DisplayOptions) -> (c: AppConfig)
        ensures
            c == (AppConfig { sort_options, display_options }),
    {
        AppConfig { sort_options, display_options }
    }

    pub fn sort_options_ref(&self) -> (o: &SortOptions)
        ensures
            *o == self.sort_options,
    {
        &self.sort_options
    }

    pub fn sort_options_mut(&mut self) -> (o: &mut SortOptions)
        ensures
            *o == old(self).sort_options,
            *final(self) == (AppConfig { sort_options: *final(o), ..*old(self) }),
    {
        &mut self.sort_options
    }

    pub fn display_options_ref(&self) -> (o: &DisplayOptions)
        ensures
            *o == self.display_options,
    {
        &self.display_options
    }
}

/// The tab with every cache entry marked out of date and nothing else
/// touched.
pub open spec fn depreciated_tab(t: TabView) -> TabView {
    TabView { history: depreciated(t.history), ..t }
}

/// The tab with the cache entry of `path`, if it has one, marked out of date.
pub open spec fn depreciated_tab_at(t: TabView, path: PathView) -> TabView {
    TabView { history: depreciated_at(t.history, path), ..t }
}

/// `after` is the tab `before` once a change of the shared options reached it
/// as the active tab: its cache marked out of date, its current directory
/// read again under `options`, and then its preview made anew. `failure` is
/// the error of the first read that failed; after a failed read of the
/// current directory the preview is not made.
pub open spec fn options_applied<F: Fn(&DirPath) -> ReadOutcome>(
    reader: F,
    before: TabView,
    options: SortOptions,
    after: TabView,
    failure: Option<IoError>,
) -> bool {
    let shown = TabView { child_preview: None, ..after };
    ||| {
        &&& failure is Some
        &&& after == shown
        &&& reloaded(reader, depreciated_tab(before), false, options, shown, failure)
    }
    ||| {
        &&& reloaded(reader, depreciated_tab(before), false, options, shown, None)
        &&& preview_refreshed(reader, shown, options, after, failure)
    }
}

/// `after` are the tabs `before` once a change of the shared options was
/// carried to them: the active tab as `options_applied` says, and in every
/// other tab the cache marked out of date and nothing else touched.
pub open spec fn options_cascaded<F: Fn(&DirPath) -> ReadOutcome>(
    reader: F,
    before: TabContext,
    options: SortOptions,
    after: TabContext,
    failure: Option<IoError>,
) -> bool {
    &&& after.index == before.index
    &&& after.tabs@.len() == before.tabs@.len()
    &&& forall|i: int|
        0 <= i < before.tabs@.len() && i != before.index ==> (#[trigger] after.tabs@[i])@
            == depreciated_tab(before.tabs@[i]@)
    &&& options_applied(reader, before.active()@, options, after.active()@, failure)
}

/// Once a change of the shared options was carried to the tabs without a
/// failed read, the listing that the active tab shows is fresh and in the
/// order the new options prescribe. Every other cached listing, of the
/// active tab and of every other tab, is as it was and marked out of date,
/// so that it is read again when it is next asked for.
pub proof fn lemma_cascade_reaches_all<F: Fn(&DirPath) -> ReadOutcome>(
    reader: F,
    before: TabContext,
    options: SortOptions,
    after: TabContext,
    failure: Option<IoError>,
)
    requires
        before.wf(),
        before.tabs@.len() > 0,
        options_cascaded(reader, before, options, after, failure),
        failure is None,
    ensures
        is_fresh(after.active()@.history, after.active()@.current_path),
        is_ordered(after.active()@.listing().entries, options),
        forall|path: PathView|
            path != before.active()@.current_path && #[trigger] before.active()@.history.contains_key(
                path,
            ) ==> {
                &&& after.active()@.history.contains_key(path)
                &&& after.active()@.history[path].stale
                &&& after.active()@.history[path].listing == before.active()@.history[path].listing
            },
        forall|i: int, path: PathView|
            0 <= i < before.tabs@.len() && i != before.index && #[trigger] before.tabs@[i]@.history.contains_key(
                path,
            ) ==> {
                &&& after.tabs@[i]@.history.contains_key(path)
                &&& after.tabs@[i]@.history[path].stale
                &&& after.tabs@[i]@.history[path].listing == before.tabs@[i]@.history[path].listing
            },
{
    let was = depreciated_tab(before.active()@);
    let shown = TabView { child_preview: None, ..after.active()@ };
    assert(before.active().wf());
    assert(!is_fresh(was.history, was.current_path));
    assert(loaded(reader, was.history, was.current_path, options, shown.history, None));
    let outcome = choose|outcome: ReadOutcome| #[trigger]
        may_read(reader, was.current_path, outcome) && shown.history == after_read(
            was.history,
            was.current_path,
            outcome,
            options,
        ) && None::<IoError> == failure_of(outcome);
    assert(outcome is Ok);
    lemma_arranged_is_ordered(outcome->Ok_0.entries@, options);
    assert forall|i: int, path: PathView|
        0 <= i < before.tabs@.len() && i != before.index && #[trigger] before.tabs@[i]@.history.contains_key(
            path,
        ) implies {
        &&& after.tabs@[i]@.history.contains_key(path)
        &&& after.tabs@[i]@.history[path].stale
        &&& after.tabs@[i]@.history[path].listing == before.tabs@[i]@.history[path].listing
    } by {
        assert(after.tabs@[i]@ == depreciated_tab(before.tabs@[i]@));
    }
}

/// The tabs in their order, and which of them is the active one.
#[derive(Debug)]
pub struct TabContext {
    pub index: usize,
    pub tabs: Vec<Tab>,
}

impl TabContext {
    /// Every tab is well formed, and the active index names a tab where
    /// there is one, and is 0 where there is none.
    pub open spec fn wf(&self) -> bool {
        &&& forall|i: int| 0 <= i < self.tabs@.len() ==> (#[trigger] self.tabs@[i]).wf()
        &&& self.tabs@.len() > 0 ==> self.index < self.tabs@.len()
        &&& self.tabs@.len() == 0 ==> self.index == 0
    }

    /// The active tab.
    pub open spec fn active(&self) -> Tab {
        self.tabs@[self.index as int]
    }

    /// No tabs yet.
    pub fn new() -> (c: TabContext)
        ensures
            c.wf(),
            c.tabs@.len() == 0,
            c.index == 0,
    {
        TabContext { index: 0, tabs: Vec::new() }
    }

    /// The number of tabs.
    pub fn len(&self) -> (n: usize)
        ensures
            n == self.tabs@.len(),
    {
        self.tabs.len()
    }

    /// Adds a tab behind the others. The active tab stays the active one.
    pub fn push_tab(&mut self, tab: Tab)
        requires
            old(self).wf(),
            tab.wf(),
        ensures
            final(self).wf(),
            final(self).tabs@ == old(self).tabs@.push(tab),
            final(self).index == old(self).index,
    {
        self.tabs.push(tab);
        assert forall|i: int| 0 <= i < self.tabs@.len() implies (#[trigger] self.tabs@[i]).wf() by {
            if i < old(self).tabs@.len() {
                assert(self.tabs@[i] == old(self).tabs@[i]);
            }
        }
    }

    /// Makes the tab at `index` the active one.
    pub fn set_index(&mut self, index: usize)
        requires
            old(self).wf(),
            index < old(self).tabs@.len(),
        ensures
            final(self).wf(),
            final(self).tabs@ == old(self).tabs@,
            final(self).index == index,
    {
        self.index = index;
    }

    /// The active tab.
    pub fn active_tab(&self) -> (t: &Tab)
        requires
            self.wf(),
            self.tabs@.len() > 0,
        ensures
            *t == self.active(),
            t.wf(),
    {
        &self.tabs[self.index]
    }

    /// The active tab, to be changed in place. Whether the tab is still well
    /// formed afterwards is up to the caller.
    pub fn active_tab_mut(&mut self) -> (t: &mut Tab)
        requires
            old(self).wf(),
            old(self).tabs@.len() > 0,
        ensures
            *t == old(self).active(),
            final(self).index == old(self).index,
            final(self).tabs@ == old(self).tabs@.update(old(self).index as int, *final(t)),
    {
        &mut self.tabs[self.index]
    }

    /// Marks every cache entry of every tab out of date. Nothing is read.
    pub fn depreciate_all(&mut self)
        requires
            old(self).wf(),
        ensures
            final(self).wf(),
            final(self).index == old(self).index,
            final(self).tabs@.len() == old(self).tabs@.len(),
            forall|i: int|
                0 <= i < old(self).tabs@.len() ==> (#[trigger] final(self).tabs@[i])@
                    == depreciated_tab(old(self).tabs@[i]@),
    {
        let mut i: usize = 0;
        while i < self.tabs.len()
            invariant
                i <= self.tabs@.len(),
                self.index == old(self).index,
                self.tabs@.len() == old(self).tabs@.len(),
                forall|k: int| 0 <= k < self.tabs@.len() ==> (#[trigger] self.tabs@[k]).wf(),
                forall|k: int|
                    0 <= k < i ==> (#[trigger] self.tabs@[k])@ == depreciated_tab(old(self).tabs@[k]@),
                forall|k: int| i <= k < self.tabs@.len() ==> self.tabs@[k] == old(self).tabs@[k],
            decreases self.tabs@.len() - i,
        {
            self.tabs[i].history.depreciate_all();
            i += 1;
        }
    }

    /// Marks the cache entry of `path` out of date in every tab that has one.
    pub fn depreciate(&mut self, path: &DirPath)
        requires
            old(self).wf(),
        ensures
            final(self).wf(),
            final(self).index == old(self).index,
            final(self).tabs@.len() == old(self).tabs@.len(),
            forall|i: int|
                0 <= i < old(self).tabs@.len() ==> (#[trigger] final(self).tabs@[i])@
                    == depreciated_tab_at(old(self).tabs@[i]@, path@),
    {
        let mut i: usize = 0;
        while i < self.tabs.len()
            invariant
                i <= self.tabs@.len(),
                self.index == old(self).index,
                self.tabs@.len() == old(self).tabs@.len(),
                forall|k: int| 0 <= k < self.tabs@.len() ==> (#[trigger] self.tabs@[k]).wf(),
                forall|k: int|
                    0 <= k < i ==> (#[trigger] self.tabs@[k])@ == depreciated_tab_at(
                        old(self).tabs@[k]@,
                        path@,
                    ),
                forall|k: int| i <= k < self.tabs@.len() ==> self.tabs@[k] == old(self).tabs@[k],
            decreases self.tabs@.len() - i,
        {
            self.tabs[i].history.depreciate(path);
            i += 1;
        }
    }

    /// Brings the tab at `tab_index` up to date, by a read where its current
    /// listing is stale. No other tab is touched.
    pub fn soft_reload<F: Fn(&DirPath) -> ReadOutcome>(
        &mut self,
        tab_index: usize,
        options: &SortOptions,
        reader: &F,
    ) -> (r: Result<(), IoError>)
        requires
            old(self).wf(),
            tab_index < old(self).tabs@.len(),
            has_headroom(
                old(self).tabs@[tab_index as int]@.history,
                old(self).tabs@[tab_index as int]@.current_path,
            ),
            reads_any(*reader),
        ensures
            final(self).wf(),
            final(self).index == old(self).index,
            final(self).tabs@.len() == old(self).tabs@.len(),
            forall|i: int|
                0 <= i < old(self).tabs@.len() && i != tab_index ==> final(self).tabs@[i] == old(
                    self,
                ).tabs@[i],
            reloaded(
                *reader,
                old(self).tabs@[tab_index as int]@,
                false,
                *options,
                final(self).tabs@[tab_index as int]@,
                failure_in(r),
            ),
    {
        self.tabs[tab_index].reload(false, options, reader)
    }

    /// Carries a change of the shared options to the tabs: every cache entry
    /// of every tab is marked out of date, the active tab reads its current
    /// directory again under `options`, and its preview is made anew. The
    /// other tabs read nothing until they are next asked.
    pub fn apply_options<F: Fn(&DirPath) -> ReadOutcome>(&mut self, options: &SortOptions, reader: &F) -> (r:
        Result<(), IoError>)
        requires
            old(self).wf(),
            old(self).tabs@.len() > 0,
            has_headroom(old(self).active()@.history, old(self).active()@.current_path),
            reads_any(*reader),
        ensures
            final(self).wf(),
            options_cascaded(*reader, *old(self), *options, *final(self), failure_in(r)),
    {
        self.depreciate_all();
        let active = self.index;
        let reload = self.tabs[active].reload(false, options, reader);
        if let Err(e) = reload {
            return Err(e);
        }
        self.tabs[active].refresh_preview(options, reader)
    }
}

/// The whole state of the application that the core works on.
#[derive(Debug)]
pub struct AppContext {
    pub config: AppConfig,
    pub tab_context: TabContext,
}

impl AppContext {
    /// The tabs are well formed.
    pub open spec fn wf(&self) -> bool {
        self.tab_context.wf()
    }

    /// The application state with the given options and no tabs yet.
    pub fn new(config: AppConfig) -> (c: AppContext)
        ensures
            c.wf(),
            c.config == config,
            c.tab_context.tabs@.len() == 0,
            c.tab_context.index == 0,
    {
        AppContext { config, tab_context: TabContext::new() }
    }

    pub fn config_ref(&self) -> (c: &AppConfig)
        ensures
            *c == self.config,
    {
        &self.config
    }

    pub fn config_mut(&mut self) -> (c: &mut AppConfig)
        ensures
            *c == old(self).config,
            *final(self) == (AppContext { config: *final(c), ..*old(self) }),
    {
        &mut self.config
    }

    pub fn tab_context_ref(&self) -> (t: &TabContext)
        ensures
            *t == self.tab_context,
    {
        &self.tab_context
    }

    pub fn tab_context_mut(&mut self) -> (t: &mut TabContext)
        ensures
            *t == old(self).tab_context,
            *final(self) == (AppContext { tab_context: *final(t), ..*old(self) }),
    {
        &mut self.tab_context
    }
}

} // verus!
