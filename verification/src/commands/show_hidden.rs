//! Showing and hiding the entries whose name denotes hidden.
use crate::context::{options_cascaded, AppConfig, AppContext};
use crate::history::{failure_in, has_headroom, reads_any};
use crate::listing::{IoError, ReadOutcome};
use crate::path::DirPath;
use crate::sort::SortOptions;
use vstd::prelude::*;

verus! {

/// The command that toggles whether hidden entries are listed.
#[derive(Clone, Debug)]
pub struct ToggleHiddenFiles;

impl ToggleHiddenFiles {
    pub fn new() -> (c: Self) {
        ToggleHiddenFiles
    }

    /// The name the command goes by in a keymap.
    pub fn command() -> (name: &'static str)
        ensures
            name@ == "toggle_hidden"@,
    {
        "toggle_hidden"
    }

    /// Flips `show_hidden`. Every cached listing of every tab becomes out of
    /// date; the active tab reads its directory again at once and makes its
    /// preview anew, the others when they are next asked.
    pub fn toggle_hidden<F: Fn(&DirPath) -> ReadOutcome>(context: &mut AppContext, reader: &F) -> (r:
        Result<(), IoError>)
        requires
            old(context).wf(),
            old(context).tab_context.tabs@.len() > 0,
            has_headroom(
                old(context).tab_context.active()@.history,
                old(context).tab_context.active()@.current_path,
            ),
            reads_any(*reader),
        ensures
            final(context).wf(),
            final(context).config == (AppConfig {
                sort_options: SortOptions {
                    show_hidden: !old(context).config.sort_options.show_hidden,
                    ..old(context).config.sort_options
                },
                ..old(context).config
            }),
            options_cascaded(
                *reader,
                old(context).tab_context,
                final(context).config.sort_options,
                final(context).tab_context,
                failure_in(r),
            ),
    {
        let opposite = !context.config.sort_options.show_hidden();
        context.config.sort_options.set_show_hidden(opposite);
        let options = context.config.sort_options;
        context.tab_context.apply_options(&options, reader)
    }
}

} // verus!
