//! Carrying out the command that a chord resolved to.
use crate::commands::reload_dir::ReloadDirList;
use crate::commands::show_hidden::ToggleHiddenFiles;
use crate::commands::sort::{set_sort, toggle_reverse};
use crate::context::{options_cascaded, AppConfig, AppContext};
use crate::history::{failure_in, has_headroom, reads_any};
use crate::keymap::Command;
use crate::listing::{IoError, ReadOutcome};
use crate::path::{parent_path, DirPath};
use crate::sort::{SortOptions, SortType};
use crate::tab::{entered, left, reloaded};
use vstd::prelude::*;

verus! {

/// The options after `command`, where it is one that changes them.
pub open spec fn options_after(command: Command, options: SortOptions) -> SortOptions {
    match command {
        Command::ToggleHiddenFiles => SortOptions { show_hidden: !options.show_hidden, ..options },
        Command::ToggleReverse => SortOptions { reverse: !options.reverse, ..options },
        Command::SortByName => SortOptions { method: SortType::Name, ..options },
        Command::SortBySize => SortOptions { method: SortType::Size, ..options },
        Command::SortByMtime => SortOptions { method: SortType::Mtime, ..options },
        Command::SortByExtension => SortOptions { method: SortType::Extension, ..options },
        _ => options,
    }
}

/// There is an active tab, and the generation counter of the directory that
/// `command` may read can still be advanced.
pub open spec fn ready_for(command: Command, context: AppContext) -> bool {
    let active = context.tab_context.active()@;
    &&& context.tab_context.tabs@.len() > 0
    &&& match command {
        Command::Quit => true,
        Command::OpenDirectory => active.child_target() matches Some(child) ==> has_headroom(
            active.history,
            child,
        ),
        Command::ParentDirectory => has_headroom(active.history, parent_path(active.current_path)),
        _ => has_headroom(active.history, active.current_path),
    }
}

/// `after` has the tabs of `before` but for the active one, and the same
/// active index.
pub open spec fn others_untouched(before: AppContext, after: AppContext) -> bool {
    &&& after.tab_context.index == before.tab_context.index
    &&& after.tab_context.tabs@.len() == before.tab_context.tabs@.len()
    &&& forall|i: int|
        0 <= i < before.tab_context.tabs@.len() && i != before.tab_context.index
            ==> after.tab_context.tabs@[i] == before.tab_context.tabs@[i]
}

/// `after` is the application state `before` once `command` was carried
/// out, and `failure` the error of the read that failed, if one did.
pub open spec fn executed<F: Fn(&DirPath) -> ReadOutcome>(
    reader: F,
    command: Command,
    before: AppContext,
    after: AppContext,
    failure: Option<IoError>,
) -> bool {
    let was = before.tab_context.active()@;
    let is = after.tab_context.active()@;
    match command {
        Command::Quit => after == before && failure is None,
        Command::ReloadDirList => {
            &&& after.config == before.config
            &&& others_untouched(before, after)
            &&& reloaded(reader, was, true, before.config.sort_options, is, failure)
        },
        Command::OpenDirectory => {
            &&& after.config == before.config
            &&& others_untouched(before, after)
            &&& entered(reader, was, before.config.sort_options, is, failure)
        },
        Command::ParentDirectory => {
            &&& after.config == before.config
            &&& others_untouched(before, after)
            &&& left(reader, was, before.config.sort_options, is, failure)
        },
        _ => {
            &&& after.config == (AppConfig {
                sort_options: options_after(command, before.config.sort_options),
                ..before.config
            })
            &&& options_cascaded(
                reader,
                before.tab_context,
                after.config.sort_options,
                after.tab_context,
                failure,
            )
        },
    }
}

/// Whether `command` can be carried out on the application state as it is.
pub fn can_execute(command: &Command, context: &AppContext) -> (b: bool)
    requires
        context.wf(),
    ensures
        b == ready_for(*command, *context),
{
    if context.tab_context.len() == 0 {
        return false;
    }
    let tab = context.tab_context.active_tab();
    match command {
        Command::Quit => true,
        Command::OpenDirectory => match tab.child_target() {
            Some(child) => tab.history.has_headroom(&child),
            None => true,
        },
        Command::ParentDirectory => tab.history.has_headroom(&tab.current_path.parent()),
        _ => tab.history.has_headroom(&tab.current_path),
    }
}

/// Carries out `command` on the application state. Quitting is left to the
/// caller and changes nothing here.
pub fn execute<F: Fn(&DirPath) -> ReadOutcome>(command: &Command, context: &mut AppContext, reader: &F) -> (r:
    Result<(), IoError>)
    requires
        old(context).wf(),
        ready_for(*command, *old(context)),
        reads_any(*reader),
    ensures
        final(context).wf(),
        executed(*reader, *command, *old(context), *final(context), failure_in(r)),
{
    match command {
        Command::Quit => Ok(()),
        Command::ReloadDirList => ReloadDirList::reload(context, reader),
        Command::ToggleHiddenFiles => ToggleHiddenFiles::toggle_hidden(context, reader),
        Command::ToggleReverse => toggle_reverse(context, reader),
        Command::SortByName => set_sort(context, SortType::Name, reader),
        Command::SortBySize => set_sort(context, SortType::Size, reader),
        Command::SortByMtime => set_sort(context, SortType::Mtime, reader),
        Command::SortByExtension => set_sort(context, SortType::Extension, reader),
        Command::OpenDirectory => {
            let options = context.config.sort_options;
            let active = context.tab_context.index;
            context.tab_context.tabs[active].enter_child(&options, reader)
        },
        Command::ParentDirectory => {
            let options = context.config.sort_options;
            let active = context.tab_context.index;
            context.tab_context.tabs[active].leave_to_parent(&options, reader)
        },
    }
}

} // verus!
