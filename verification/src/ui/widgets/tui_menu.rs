//! The command menu: the overlay that lists what the next key of a chord can
//! be, and the handling of the events that arrive while it is open.
use crate::context::AppContext;
use crate::entry::{bytes_le, bytes_le_from, lemma_bytes_le_total, lemma_bytes_le_transitive};
use crate::event::{process_noninteractive, processed, tab_after_events, AppEvent};
use crate::keymap::{step, Command, CommandKeybind, CommandMapping, Key, MenuState, Walk};
use vstd::prelude::*;
use vstd::seq_lib::{to_multiset_build, to_multiset_insert};
use vstd::utf8::encode_utf8;

verus! {

/// The lines that the border of the overlay takes.
pub const BORDER_HEIGHT: usize = 1;

/// The lines left free below the overlay.
pub const BOTTOM_MARGIN: usize = 1;

/// A rectangle of terminal cells.
#[derive(Clone, Copy, Debug, PartialEq, Eq, Structural)]
pub struct MenuRect {
    pub x: u16,
    pub y: u16,
    pub width: u16,
    pub height: u16,
}

/// The top line of an overlay of `options` lines in a frame of
/// `frame_height` lines: such that the overlay ends above the bottom margin,
/// or the first line of the frame where the frame is too short for that.
pub open spec fn menu_top(frame_height: u16, options: usize) -> int {
    if frame_height < options + BORDER_HEIGHT + BOTTOM_MARGIN {
        0
    } else {
        frame_height - (BORDER_HEIGHT + BOTTOM_MARGIN) - options
    }
}

/// The region of the overlay: as wide as the frame, one line for each option
/// and one for the border, counted in the 16 bits of a terminal coordinate.
pub fn menu_rect(frame_width: u16, frame_height: u16, options: usize) -> (rect: MenuRect)
    ensures
        rect.x == 0,
        rect.y == menu_top(frame_height, options),
        rect.width == frame_width,
        rect.height == (options + BORDER_HEIGHT) % 0x10000,
{
    let y: u16 = if frame_height < 2 || options > (frame_height - 2) as usize {
        0
    } else {
        frame_height - 2 - options as u16
    };
    let wrapped: usize = (options % 0x10000 + BORDER_HEIGHT) % 0x10000;
    assert(wrapped == (options + BORDER_HEIGHT) % 0x10000) by (nonlinear_arith)
        requires
            wrapped == (options % 0x10000 + 1) % 0x10000,
            BORDER_HEIGHT == 1,
    ;
    MenuRect { x: 0, y, width: frame_width, height: wrapped as u16 }
}

/// The name a command is listed under.
pub open spec fn command_name(command: Command) -> Seq<char> {
    match command {
        Command::Quit => "quit"@,
        Command::ReloadDirList => "reload_dir_list"@,
        Command::ToggleHiddenFiles => "toggle_hidden"@,
        Command::ToggleReverse => "sort reverse"@,
        Command::SortByName => "sort lexical"@,
        Command::SortBySize => "sort size"@,
        Command::SortByMtime => "sort mtime"@,
        Command::SortByExtension => "sort ext"@,
        Command::OpenDirectory => "open"@,
        Command::ParentDirectory => "parent_directory"@,
    }
}

/// What the overlay writes for a binding: the name of its command, or dots
/// for a nested mapping.
pub open spec fn label_of(keybind: CommandKeybind) -> Seq<char> {
    match keybind {
        CommandKeybind::Simple(command) => command_name(command),
        CommandKeybind::Composite(_) => "..."@,
    }
}

/// The name a command is listed under.
pub fn name_of(command: &Command) -> (name: &'static str)
    ensures
        name@ == command_name(*command),
{
    match command {
        Command::Quit => "quit",
        Command::ReloadDirList => "reload_dir_list",
        Command::ToggleHiddenFiles => "toggle_hidden",
        Command::ToggleReverse => "sort reverse",
        Command::SortByName => "sort lexical",
        Command::SortBySize => "sort size",
        Command::SortByMtime => "sort mtime",
        Command::SortByExtension => "sort ext",
        Command::OpenDirectory => "open",
        Command::ParentDirectory => "parent_directory",
    }
}

/// One line of the overlay.
#[derive(Debug)]
pub struct MenuEntry {
    pub key: Key,
    pub label: String,
}

/// The key and the label of a line.
pub open spec fn line_of(entry: MenuEntry) -> (Key, Seq<char>) {
    (entry.key, entry.label@)
}

/// The key and the label that a binding is listed with.
pub open spec fn listed_as(binding: (Key, CommandKeybind)) -> (Key, Seq<char>) {
    (binding.0, label_of(binding.1))
}

/// The label of `a` does not sort behind that of `b`, byte by byte.
pub open spec fn label_le(a: MenuEntry, b: MenuEntry) -> bool {
    bytes_le(encode_utf8(a.label@), encode_utf8(b.label@))
}

/// The lines are in the order of their labels.
pub open spec fn sorted_by_label(lines: Seq<MenuEntry>) -> bool {
    forall|i: int, j: int| 0 <= i < j < lines.len() ==> label_le(lines[i], lines[j])
}

fn label_precedes(a: &MenuEntry, b: &MenuEntry) -> (r: bool)
    ensures
        r == label_le(*a, *b),
{
    let ab = a.label.as_str().as_bytes();
    let bb = b.label.as_str().as_bytes();
    assert(ab@.skip(0) =~= ab@);
    assert(bb@.skip(0) =~= bb@);
    bytes_le_from(ab, 0, bb, 0)
}

/// Puts `entry` into the sorted `lines`, behind the last line whose label
/// does not sort behind its own.
fn place_line(lines: &mut Vec<MenuEntry>, entry: MenuEntry)
    requires
        sorted_by_label(old(lines)@),
    ensures
        sorted_by_label(final(lines)@),
        final(lines)@.map_values(|e: MenuEntry| line_of(e)).to_multiset() == old(lines)@.map_values(
            |e: MenuEntry| line_of(e),
        ).to_multiset().insert(line_of(entry)),
{
    let ghost s = lines@;
    let mut p: usize = lines.len();
    let mut searching = true;
    while searching && p > 0
        invariant
            lines@ == s,
            p <= s.len(),
            forall|k: int| p <= k < s.len() ==> !label_le(#[trigger] s[k], entry),
            !searching ==> p > 0 && label_le(s[p - 1], entry),
        decreases p + if searching { 1int } else { 0int },
    {
        if label_precedes(&lines[p - 1], &entry) {
            searching = false;
        } else {
            p -= 1;
        }
    }
    lines.insert(p, entry);
    proof {
        let r = lines@;
        assert forall|i: int, j: int| 0 <= i < j < r.len() implies label_le(r[i], r[j]) by {
            if j == p {
                if i < p - 1 {
                    assert(label_le(s[i], s[p - 1]));
                    lemma_bytes_le_transitive(
                        encode_utf8(s[i].label@),
                        encode_utf8(s[p - 1].label@),
                        encode_utf8(entry.label@),
                    );
                }
            } else if i == p {
                assert(!label_le(s[j - 1], entry));
                lemma_bytes_le_total(encode_utf8(s[j - 1].label@), encode_utf8(entry.label@));
            } else if i < p && j > p {
                assert(label_le(s[i], s[j - 1]));
            } else if i > p {
                assert(label_le(s[i - 1], s[j - 1]));
            } else {
                assert(label_le(s[i], s[j]));
            }
        }
        let line = |e: MenuEntry| line_of(e);
        assert(r.map_values(line) =~= s.map_values(line).insert(p as int, line_of(entry)));
        to_multiset_insert(s.map_values(line), p as int, line_of(entry));
    }
}

/// The lines of the overlay for `mapping`: one for each key it binds, with
/// the label of what the key is bound to, in the order of the labels.
pub fn menu_entries(mapping: &CommandMapping) -> (lines: Vec<MenuEntry>)
    ensures
        sorted_by_label(lines@),
        lines@.map_values(|e: MenuEntry| line_of(e)).to_multiset() == mapping.bindings@.map_values(
            |b: (Key, CommandKeybind)| listed_as(b),
        ).to_multiset(),
{
    let ghost line = |e: MenuEntry| line_of(e);
    let ghost listed = |b: (Key, CommandKeybind)| listed_as(b);
    let mut lines: Vec<MenuEntry> = Vec::new();
    let mut i: usize = 0;
    assert(lines@.map_values(line) =~= mapping.bindings@.take(0).map_values(listed));
    while i < mapping.bindings.len()
        invariant
            i <= mapping.bindings@.len(),
            sorted_by_label(lines@),
            line == |e: MenuEntry| line_of(e),
            listed == |b: (Key, CommandKeybind)| listed_as(b),
            lines@.map_values(line).to_multiset() == mapping.bindings@.take(i as int).map_values(
                listed,
            ).to_multiset(),
        decreases mapping.bindings@.len() - i,
    {
        let label = match &mapping.bindings[i].1 {
            CommandKeybind::Simple(command) => name_of(command).to_owned(),
            CommandKeybind::Composite(_) => "...".to_owned(),
        };
        let entry = MenuEntry { key: mapping.bindings[i].0, label };
        proof {
            let front = mapping.bindings@.take(i as int);
            assert(mapping.bindings@.take(i + 1).map_values(listed) =~= front.map_values(listed).push(
                listed_as(mapping.bindings@[i as int]),
            ));
            to_multiset_build(front.map_values(listed), listed_as(mapping.bindings@[i as int]));
        }
        place_line(&mut lines, entry);
        i += 1;
    }
    assert(mapping.bindings@.take(mapping.bindings@.len() as int) =~= mapping.bindings@);
    lines
}

/// The state of the walk after `event`: a key press is one step, and no
/// other event moves the walk.
pub open spec fn event_step(root: CommandMapping, state: Walk, event: AppEvent) -> Walk {
    match event {
        AppEvent::Key(key) => step(root, state, key),
        _ => state,
    }
}

/// The state of the walk once the open menu has taken the events of
/// `events` one by one, up to the one that ends the walk.
pub open spec fn menu_walk(root: CommandMapping, state: Walk, events: Seq<AppEvent>) -> Walk
    decreases events.len(),
{
    if events.len() == 0 || state.waiting_on(root) is None {
        state
    } else {
        menu_walk(root, event_step(root, state, events[0]), events.skip(1))
    }
}

/// How many of `events` the open menu takes: all up to and with the one
/// that ends the walk.
pub open spec fn events_taken(root: CommandMapping, state: Walk, events: Seq<AppEvent>) -> nat
    decreases events.len(),
{
    if events.len() == 0 || state.waiting_on(root) is None {
        0
    } else {
        1 + events_taken(root, event_step(root, state, events[0]), events.skip(1))
    }
}

/// The command that a walk has resolved to, if it has.
pub open spec fn resolved_command(end: Walk) -> Option<Command> {
    match end {
        Walk::Resolved(command) => Some(command),
        _ => None,
    }
}

/// The menu that asks for the rest of a chord.
pub struct TuiCommandMenu;

impl TuiCommandMenu {
    pub fn new() -> Self {
        Self {  }
    }

    /// Handles one event while the menu is open. A key press is one step of
    /// the walk and changes nothing else. Any other event is processed as it
    /// would be with the menu closed, and leaves the walk where it stands:
    /// it neither resolves nor aborts it.
    pub fn handle_event<'a>(
        &mut self,
        context: &mut AppContext,
        m: &'a CommandMapping,
        state: MenuState<'a>,
        event: &AppEvent,
    ) -> (next: MenuState<'a>)
        requires
            old(context).wf(),
            m.wf(),
            state@.wf(),
        ensures
            final(context).wf(),
            next@.wf(),
            match *event {
                AppEvent::Key(key) => next@ == step(*m, state@, key) && *final(context) == *old(
                    context,
                ),
                _ => next@ == state@ && processed(*old(context), *event, *final(context)),
            },
    {
        match event {
            AppEvent::Key(key) => m.advance(state, *key),
            _ => {
                process_noninteractive(event, context);
                state
            },
        }
    }

    /// Opens the menu at the top of `m` and feeds it the events of `events`
    /// in their order, until a key press ends the walk or the events run
    /// out. The result is the command that the key presses resolve to; none
    /// where the walk was aborted or is not over. Events behind the one
    /// that ends the walk are not taken.
    pub fn get_input<'a>(
        &mut self,
        context: &mut AppContext,
        m: &'a CommandMapping,
        events: &[AppEvent],
    ) -> (r: Option<&'a Command>)
        requires
            old(context).wf(),
            m.wf(),
        ensures
            final(context).wf(),
            match r {
                Some(command) => resolved_command(menu_walk(*m, Walk::Root, events@)) == Some(
                    *command,
                ),
                None => resolved_command(menu_walk(*m, Walk::Root, events@)) is None,
            },
            final(context).config == old(context).config,
            final(context).tab_context.index == old(context).tab_context.index,
            final(context).tab_context.tabs@.len() == old(context).tab_context.tabs@.len(),
            forall|k: int|
                0 <= k < old(context).tab_context.tabs@.len() ==> (
                #[trigger] final(context).tab_context.tabs@[k])@ == tab_after_events(
                    old(context).tab_context.tabs@[k]@,
                    events@.take(events_taken(*m, Walk::Root, events@) as int),
                ),
    {
        let mut state: MenuState<'a> = MenuState::Root;
        let mut i: usize = 0;
        let mut open = true;
        assert(events@.skip(0) =~= events@);
        assert(events@.take(0) =~= Seq::<AppEvent>::empty());
        while open && i < events.len()
            invariant
                context.wf(),
                m.wf(),
                state@.wf(),
                i <= events@.len(),
                open == (state@.waiting_on(*m) is Some),
                menu_walk(*m, Walk::Root, events@) == menu_walk(*m, state@, events@.skip(i as int)),
                events_taken(*m, Walk::Root, events@) == i + events_taken(
                    *m,
                    state@,
                    events@.skip(i as int),
                ),
                context.config == old(context).config,
                context.tab_context.index == old(context).tab_context.index,
                context.tab_context.tabs@.len() == old(context).tab_context.tabs@.len(),
                forall|k: int|
                    0 <= k < old(context).tab_context.tabs@.len() ==> (
                    #[trigger] context.tab_context.tabs@[k])@ == tab_after_events(
                        old(context).tab_context.tabs@[k]@,
                        events@.take(i as int),
                    ),
            decreases events@.len() - i,
        {
            let ghost before = *context;
            assert(events@.skip(i as int).skip(1) =~= events@.skip(i + 1));
            assert(events@.take(i + 1).drop_last() =~= events@.take(i as int));
            state = self.handle_event(context, m, state, &events[i]);
            open = match state {
                MenuState::Root => true,
                MenuState::InComposite(_) => true,
                _ => false,
            };
            assert forall|k: int| 0 <= k < old(context).tab_context.tabs@.len() implies (
            #[trigger] context.tab_context.tabs@[k])@ == tab_after_events(
                old(context).tab_context.tabs@[k]@,
                events@.take(i + 1),
            ) by {
                assert(before.tab_context.tabs@[k]@ == tab_after_events(
                    old(context).tab_context.tabs@[k]@,
                    events@.take(i as int),
                ));
            }
            i += 1;
        }
        match state {
            MenuState::Resolved(command) => Some(command),
            _ => None,
        }
    }
}

/// The lines of a menu, as they are drawn.
pub struct TuiMenu<'a> {
    options: &'a [&'a str],
}

impl<'a> TuiMenu<'a> {
    /// The lines, top first.
    pub closed spec fn options(&self) -> Seq<&'a str> {
        self.options@
    }

    /// A menu of the given lines.
    pub fn new(options: &'a [&'a str]) -> (menu: Self)
        ensures
            menu.options() == options@,
    {
        Self { options }
    }

    /// The number of lines.
    pub fn len(&self) -> (n: usize)
        ensures
            n == self.options().len(),
    {
        self.options.len()
    }

    /// The lines, top first.
    pub fn lines(&self) -> (lines: &'a [&'a str])
        ensures
            lines@ == self.options(),
    {
        self.options
    }

    /// The cell at which line `i` begins when the menu is drawn into `area`:
    /// one column in from the left edge, and one line below the border for
    /// each line before it. None where that cell is beyond what a terminal
    /// coordinate can hold.
    pub fn line_origin(area: &MenuRect, i: usize) -> (cell: Option<(u16, u16)>)
        ensures
            match cell {
                Some((x, y)) => x == area.x + 1 && y == area.y + BORDER_HEIGHT + i,
                None => area.x + 1 > u16::MAX || area.y + BORDER_HEIGHT + i > u16::MAX,
            },
    {
        if area.x == u16::MAX || area.y == u16::MAX {
            return None;
        }
        let room: u16 = u16::MAX - area.y - 1;
        if i > room as usize {
            return None;
        }
        Some((area.x + 1, area.y + 1 + i as u16))
    }
}

} // verus!
