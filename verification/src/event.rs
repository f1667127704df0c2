//! The events that reach the core through the one merged input channel.
use crate::context::{depreciated_tab_at, AppContext};
use crate::keymap::Key;
use crate::path::DirPath;
use crate::tab::TabView;
use vstd::prelude::*;

verus! {

/// One event of the merged input channel.
#[derive(Debug)]
pub enum AppEvent {
    /// A key was pressed.
    Key(Key),
    /// The terminal has a new size.
    Resize { width: u16, height: u16 },
    /// A file operation that ran in the background has finished in `path`,
    /// well or not; what is cached of that directory may no longer hold.
    FileOperationDone { path: DirPath, succeeded: bool },
}

/// The tab after an event that is not a key press: a finished file operation
/// marks what the tab has cached of its directory out of date, and nothing
/// else changes anything.
pub open spec fn tab_after_event(tab: TabView, event: AppEvent) -> TabView {
    match event {
        AppEvent::FileOperationDone { path, .. } => depreciated_tab_at(tab, path@),
        _ => tab,
    }
}

/// The tab after the events of `events` that are not key presses, in their
/// order.
pub open spec fn tab_after_events(tab: TabView, events: Seq<AppEvent>) -> TabView
    decreases events.len(),
{
    if events.len() == 0 {
        tab
    } else {
        tab_after_event(tab_after_events(tab, events.drop_last()), events.last())
    }
}

/// `after` is the application state `before` once `event` was processed as
/// an event that is not a key press.
pub open spec fn processed(before: AppContext, event: AppEvent, after: AppContext) -> bool {
    &&& after.config == before.config
    &&& after.tab_context.index == before.tab_context.index
    &&& after.tab_context.tabs@.len() == before.tab_context.tabs@.len()
    &&& forall|i: int|
        0 <= i < before.tab_context.tabs@.len() ==> (#[trigger] after.tab_context.tabs@[i])@
            == tab_after_event(before.tab_context.tabs@[i]@, event)
}

/// Processes an event that is not a key press. Only cache entries are marked
/// out of date; nothing is read.
pub fn process_noninteractive(event: &AppEvent, context: &mut AppContext)
    requires
        old(context).wf(),
    ensures
        final(context).wf(),
        processed(*old(context), *event, *final(context)),
{
    match event {
        AppEvent::FileOperationDone { path, .. } => {
            context.tab_context.depreciate(path);
        },
        _ => {},
    }
}

} // verus!
