//! Reading the current directory again on request.
use crate::context::AppContext;
use crate::history::{failure_in, has_headroom, reads_any};
use crate::listing::{IoError, ReadOutcome};
use crate::path::DirPath;
use crate::tab::reloaded;
use vstd::prelude::*;

verus! {

/// The command that reads the active tab's directory again.
#[derive(Clone, Debug)]
pub struct ReloadDirList;

impl ReloadDirList {
    pub fn new() -> (c: Self) {
        ReloadDirList
    }

    /// The name the command goes by in a keymap.
    pub fn command() -> (name: &'static str)
        ensures
            name@ == "reload_dir_list"@,
    {
        "reload_dir_list"
    }

    /// Reads the current directory of the active tab again, whether or not
    /// its listing is stale. No other tab and no option is touched.
    pub fn reload<F: Fn(&DirPath) -> ReadOutcome>(context: &mut AppContext, reader: &F) -> (r: Result<
        (),
        IoError,
    >)
        requires
            old(context).wf(),
            old(context).tab_context.tabs@.len() > 0,
            has_headroom(
                old(context).tab_context.active()@.history,
                old(context).tab_context.active()@.current_path,
            ),
            reads_any(*reader),
        ensures
            final(context).wf(),
            final(context).config == old(context).config,
            final(context).tab_context.index == old(context).tab_context.index,
            final(context).tab_context.tabs@.len() == old(context).tab_context.tabs@.len(),
            forall|i: int|
                0 <= i < old(context).tab_context.tabs@.len() && i != old(context).tab_context.index
                    ==> final(context).tab_context.tabs@[i] == old(context).tab_context.tabs@[i],
            reloaded(
                *reader,
                old(context).tab_context.active()@,
                true,
                old(context).config.sort_options,
                final(context).tab_context.active()@,
                failure_in(r),
            ),
    {
        let options = context.config.sort_options;
        let active = context.tab_context.index;
        context.tab_context.tabs[active].reload(true, &options, reader)
    }
}

} // verus!
