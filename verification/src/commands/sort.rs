//! Changing how listings are sorted.
use crate::context::{options_cascaded, AppConfig, AppContext};
use crate::history::{failure_in, has_headroom, reads_any};
use crate::listing::{IoError, ReadOutcome};
use crate::path::DirPath;
use crate::sort::{SortOptions, SortType};
use vstd::prelude::*;

verus! {

/// Sorts by `method` from now on. Every cached listing of every tab becomes
/// out of date; the active tab reads its directory again at once and makes
/// its preview anew, the others when they are next asked.
pub fn set_sort<F: Fn(&DirPath) -> ReadOutcome>(context: &mut AppContext, method: SortType, reader: &F) -> (r:
    Result<(), IoError>)
    requires
        old(context).wf(),
        old(context).tab_context.tabs@.len() > 0,
        has_headroom(
            old(context).tab_context.active()@.history,
            old(context).tab_context.active()@.current_path,
        ),
        reads_any(*reader),
    ensures
        final(context).wf(),
        final(context).config == (AppConfig {
            sort_options: SortOptions { method, ..old(context).config.sort_options },
            ..old(context).config
        }),
        options_cascaded(
            *reader,
            old(context).tab_context,
            final(context).config.sort_options,
            final(context).tab_context,
            failure_in(r),
        ),
{
    context.config.sort_options.set_sort_method(method);
    let options = context.config.sort_options;
    context.tab_context.apply_options(&options, reader)
}

/// Turns the sort order round. The tabs follow as they do for `set_sort`.
pub fn toggle_reverse<F: Fn(&DirPath) -> ReadOutcome>(context: &mut AppContext, reader: &F) -> (r: Result<
    (),
    IoError,
>)
    requires
        old(context).wf(),
        old(context).tab_context.tabs@.len() > 0,
        has_headroom(
            old(context).tab_context.active()@.history,
            old(context).tab_context.active()@.current_path,
        ),
        reads_any(*reader),
    ensures
        final(context).wf(),
        final(context).config == (AppConfig {
            sort_options: SortOptions {
                reverse: !old(context).config.sort_options.reverse,
                ..old(context).config.sort_options
            },
            ..old(context).config
        }),
        options_cascaded(
            *reader,
            old(context).tab_context,
            final(context).config.sort_options,
            final(context).tab_context,
            failure_in(r),
        ),
{
    let reversed = !context.config.sort_options.reverse;
    context.config.sort_options.reverse = reversed;
    let options = context.config.sort_options;
    context.tab_context.apply_options(&options, reader)
}

} // verus!
