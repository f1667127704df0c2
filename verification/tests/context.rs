use joshuto::commands::execute::execute;
use joshuto::commands::reload_dir::ReloadDirList;
use joshuto::commands::show_hidden::ToggleHiddenFiles;
use joshuto::commands::sort::{set_sort, toggle_reverse};
use joshuto::context::{AppConfig, AppContext, DisplayOptions, TabContext};
use joshuto::entry::{Entry, EntryKind};
use joshuto::event::{process_noninteractive, AppEvent};
use joshuto::keymap::{Command, Key};
use joshuto::listing::{DirSnapshot, IoError, IoErrorKind, ReadOutcome};
use joshuto::path::DirPath;
use joshuto::sort::{SortOptions, SortType};
use joshuto::tab::Tab;
use std::cell::Cell;

fn c_entry(name: &str, kind: EntryKind, size: u64, mtime: u64) -> Entry {
    Entry::new(name.to_string(), kind, size, mtime, 0o644)
}

fn c_names(entries: &Vec<Entry>) -> Vec<String> {
    entries.iter().map(|e| e.name.clone()).collect()
}

fn c_path(parts: &[&str]) -> DirPath {
    DirPath::from_components(parts.iter().map(|s| s.to_string()).collect())
}

fn c_read(path: &DirPath) -> ReadOutcome {
    let parts: Vec<&str> = path.components.iter().map(|s| s.as_str()).collect();
    let entries = match parts.as_slice() {
        ["a"] => vec![
            c_entry("big", EntryKind::File, 300, 1),
            c_entry("dir", EntryKind::Directory, 100, 3),
            c_entry(".hid", EntryKind::File, 50, 4),
            c_entry("tiny", EntryKind::File, 2, 2),
        ],
        ["a", "dir"] => vec![
            c_entry("y", EntryKind::File, 1, 0),
            c_entry("x", EntryKind::File, 2, 0),
        ],
        ["b"] => vec![c_entry("lone", EntryKind::File, 1, 1)],
        _ => return Err(IoErrorKind::NotFound),
    };
    Ok(DirSnapshot { entries, taken_at: 3 })
}

fn c_config() -> AppConfig {
    AppConfig::new(SortOptions::default(), DisplayOptions { tilde_in_titlebar: true })
}

fn c_context(paths: &[&[&str]]) -> AppContext {
    let mut context = AppContext::new(c_config());
    for parts in paths {
        let (tab, r) = Tab::new(c_path(parts), &SortOptions::default(), &c_read);
        assert_eq!(r, Ok(()));
        context.tab_context.push_tab(tab);
    }
    context
}

fn c_listing_names(context: &AppContext, tab: usize, parts: &[&str]) -> Vec<String> {
    c_names(&context.tab_context.tabs[tab].history.get(&c_path(parts)).unwrap().listing.entries)
}

#[test]
fn new_context_has_no_tabs() {
    let context = AppContext::new(c_config());
    assert_eq!(context.tab_context_ref().len(), 0);
    assert_eq!(context.tab_context_ref().index, 0);
    assert_eq!(*context.config_ref(), c_config());
    assert!(context.config_ref().display_options_ref().tilde_in_titlebar());
    assert_eq!(*context.config_ref().sort_options_ref(), SortOptions::default());
}

#[test]
fn push_tab_keeps_the_active_index() {
    let mut tabs = TabContext::new();
    let (one, _) = Tab::new(c_path(&["a"]), &SortOptions::default(), &c_read);
    let (two, _) = Tab::new(c_path(&["b"]), &SortOptions::default(), &c_read);
    tabs.push_tab(one);
    tabs.push_tab(two);
    assert_eq!(tabs.len(), 2);
    assert_eq!(tabs.index, 0);
    assert_eq!(tabs.active_tab().current_path.components, vec!["a"]);
    tabs.set_index(1);
    assert_eq!(tabs.active_tab().current_path.components, vec!["b"]);
}

#[test]
fn active_tab_mut_reaches_the_active_tab() {
    let mut context = c_context(&[&["a"], &["b"]]);
    context.tab_context_mut().set_index(1);
    context.tab_context_mut().active_tab_mut().set_cursor(0);
    assert_eq!(context.tab_context.active_tab().current_path.components, vec!["b"]);
    context.config_mut().sort_options_mut().set_show_hidden(true);
    assert!(context.config.sort_options.show_hidden);
}

#[test]
fn two_tabs_set_sort_by_size() {
    let mut context = c_context(&[&["a"], &["a"]]);
    assert_eq!(set_sort(&mut context, SortType::Size, &c_read), Ok(()));
    assert_eq!(context.config.sort_options, SortOptions::new(SortType::Size, false, false));
    let a = c_path(&["a"]);
    let first = context.tab_context.tabs[0].history.get(&a).unwrap();
    assert!(!first.stale);
    assert_eq!(first.listing.generation, 2);
    assert_eq!(c_names(&first.listing.entries), vec!["tiny", "dir", "big"]);
    let second = context.tab_context.tabs[1].history.get(&a).unwrap();
    assert!(second.stale);
    assert_eq!(second.listing.generation, 1);
    assert_eq!(c_names(&second.listing.entries), vec!["big", "dir", "tiny"]);
    let options = context.config.sort_options;
    assert_eq!(context.tab_context.soft_reload(1, &options, &c_read), Ok(()));
    let second = context.tab_context.tabs[1].history.get(&a).unwrap();
    assert!(!second.stale);
    assert_eq!(second.listing.generation, 2);
    assert_eq!(c_names(&second.listing.entries), vec!["tiny", "dir", "big"]);
}

#[test]
fn set_sort_reads_only_for_the_active_tab() {
    let mut context = c_context(&[&["a"], &["b"], &["a"]]);
    let reads = Cell::new(0usize);
    let reader = |p: &DirPath| {
        reads.set(reads.get() + 1);
        c_read(p)
    };
    context.tab_context.set_index(2);
    assert_eq!(set_sort(&mut context, SortType::Mtime, &reader), Ok(()));
    assert_eq!(reads.get(), 1);
    assert_eq!(c_listing_names(&context, 2, &["a"]), vec!["big", "tiny", "dir"]);
    assert!(context.tab_context.tabs[0].history.get(&c_path(&["a"])).unwrap().stale);
    assert!(context.tab_context.tabs[1].history.get(&c_path(&["b"])).unwrap().stale);
    assert_eq!(context.tab_context.index, 2);
}

#[test]
fn set_sort_makes_the_preview_anew() {
    let mut context = c_context(&[&["a"]]);
    context.tab_context.tabs[0].set_cursor(1);
    assert_eq!(set_sort(&mut context, SortType::Name, &c_read), Ok(()));
    let tab = &context.tab_context.tabs[0];
    assert_eq!(tab.cursor_index, 1);
    let preview = tab.child_preview.as_ref().unwrap();
    assert_eq!(preview.path.components, vec!["a", "dir"]);
    assert_eq!(c_names(&preview.entries), vec!["x", "y"]);
}

#[test]
fn set_sort_reports_an_unreadable_directory_and_keeps_the_view() {
    let mut context = c_context(&[&["a"]]);
    let gone = |_: &DirPath| -> ReadOutcome { Err(IoErrorKind::NotFound) };
    assert_eq!(
        set_sort(&mut context, SortType::Size, &gone),
        Err(IoError { kind: IoErrorKind::NotFound })
    );
    assert_eq!(context.config.sort_options.method, SortType::Size);
    let entry = context.tab_context.tabs[0].history.get(&c_path(&["a"])).unwrap();
    assert!(entry.stale);
    assert_eq!(entry.listing.generation, 1);
    assert_eq!(c_names(&entry.listing.entries), vec!["big", "dir", "tiny"]);
}

#[test]
fn toggle_reverse_flips_and_reloads() {
    let mut context = c_context(&[&["a"], &["b"]]);
    assert_eq!(toggle_reverse(&mut context, &c_read), Ok(()));
    assert!(context.config.sort_options.reverse);
    assert_eq!(c_listing_names(&context, 0, &["a"]), vec!["tiny", "dir", "big"]);
    assert!(context.tab_context.tabs[1].history.get(&c_path(&["b"])).unwrap().stale);
    assert_eq!(toggle_reverse(&mut context, &c_read), Ok(()));
    assert!(!context.config.sort_options.reverse);
    assert_eq!(c_listing_names(&context, 0, &["a"]), vec!["big", "dir", "tiny"]);
    assert_eq!(
        context.tab_context.tabs[0].history.get(&c_path(&["a"])).unwrap().listing.generation,
        3
    );
}

#[test]
fn toggle_hidden_shows_and_hides_dot_names() {
    let mut context = c_context(&[&["a"], &["a"]]);
    assert_eq!(ToggleHiddenFiles::toggle_hidden(&mut context, &c_read), Ok(()));
    assert!(context.config.sort_options.show_hidden);
    assert_eq!(c_listing_names(&context, 0, &["a"]), vec![".hid", "big", "dir", "tiny"]);
    assert_eq!(c_listing_names(&context, 1, &["a"]), vec!["big", "dir", "tiny"]);
    assert!(context.tab_context.tabs[1].history.get(&c_path(&["a"])).unwrap().stale);
    assert_eq!(ToggleHiddenFiles::toggle_hidden(&mut context, &c_read), Ok(()));
    assert!(!context.config.sort_options.show_hidden);
    assert_eq!(c_listing_names(&context, 0, &["a"]), vec!["big", "dir", "tiny"]);
}

#[test]
fn reload_dir_list_reads_the_active_tab_only() {
    let mut context = c_context(&[&["a"], &["a"]]);
    assert_eq!(ReloadDirList::reload(&mut context, &c_read), Ok(()));
    let a = c_path(&["a"]);
    assert_eq!(context.tab_context.tabs[0].history.get(&a).unwrap().listing.generation, 2);
    assert_eq!(context.tab_context.tabs[1].history.get(&a).unwrap().listing.generation, 1);
    assert!(!context.tab_context.tabs[1].history.get(&a).unwrap().stale);
    assert_eq!(context.config, c_config());
}

#[test]
fn command_names() {
    assert_eq!(ReloadDirList::command(), "reload_dir_list");
    assert_eq!(ToggleHiddenFiles::command(), "toggle_hidden");
    let _ = ReloadDirList::new();
    let _ = ToggleHiddenFiles::new();
}

#[test]
fn one_tabs_reload_leaves_the_other_tabs_alone() {
    let mut context = c_context(&[&["a"], &["a"], &["b"]]);
    let options = SortOptions::new(SortType::Size, true, true);
    context.tab_context.tabs[1].history.depreciate(&c_path(&["a"]));
    assert_eq!(context.tab_context.soft_reload(1, &options, &c_read), Ok(()));
    assert_eq!(c_listing_names(&context, 1, &["a"]), vec!["big", "dir", ".hid", "tiny"]);
    assert_eq!(
        context.tab_context.tabs[1].history.get(&c_path(&["a"])).unwrap().listing.generation,
        2
    );
    for other in [0usize, 2] {
        let tab = &context.tab_context.tabs[other];
        let entry = tab.history.get(&tab.current_path).unwrap();
        assert!(!entry.stale);
        assert_eq!(entry.listing.generation, 1);
    }
    assert_eq!(c_listing_names(&context, 0, &["a"]), vec!["big", "dir", "tiny"]);
}

#[test]
fn soft_reload_of_a_fresh_tab_reads_nothing() {
    let mut context = c_context(&[&["a"]]);
    let never = |_: &DirPath| -> ReadOutcome { panic!("nothing is to be read") };
    assert_eq!(context.tab_context.soft_reload(0, &SortOptions::default(), &never), Ok(()));
}

#[test]
fn depreciate_all_tabs_marks_every_entry() {
    let mut context = c_context(&[&["a"], &["b"]]);
    context.tab_context.depreciate_all();
    assert!(context.tab_context.tabs[0].history.get(&c_path(&["a"])).unwrap().stale);
    assert!(context.tab_context.tabs[1].history.get(&c_path(&["b"])).unwrap().stale);
    assert_eq!(c_listing_names(&context, 0, &["a"]), vec!["big", "dir", "tiny"]);
}

#[test]
fn finished_file_operation_marks_its_directory_in_every_tab() {
    let mut context = c_context(&[&["a"], &["b"], &["a"]]);
    let event = AppEvent::FileOperationDone { path: c_path(&["a"]), succeeded: true };
    process_noninteractive(&event, &mut context);
    assert!(context.tab_context.tabs[0].history.get(&c_path(&["a"])).unwrap().stale);
    assert!(!context.tab_context.tabs[1].history.get(&c_path(&["b"])).unwrap().stale);
    assert!(context.tab_context.tabs[2].history.get(&c_path(&["a"])).unwrap().stale);
    let failed = AppEvent::FileOperationDone { path: c_path(&["b"]), succeeded: false };
    process_noninteractive(&failed, &mut context);
    assert!(context.tab_context.tabs[1].history.get(&c_path(&["b"])).unwrap().stale);
}

#[test]
fn resize_and_keys_change_no_cache() {
    let mut context = c_context(&[&["a"]]);
    process_noninteractive(&AppEvent::Resize { width: 10, height: 5 }, &mut context);
    process_noninteractive(&AppEvent::Key(Key::Char('q')), &mut context);
    assert!(!context.tab_context.tabs[0].history.get(&c_path(&["a"])).unwrap().stale);
}

#[test]
fn execute_sort_commands() {
    let mut context = c_context(&[&["a"]]);
    assert_eq!(execute(&Command::SortBySize, &mut context, &c_read), Ok(()));
    assert_eq!(context.config.sort_options.method, SortType::Size);
    assert_eq!(c_listing_names(&context, 0, &["a"]), vec!["tiny", "dir", "big"]);
    assert_eq!(execute(&Command::SortByMtime, &mut context, &c_read), Ok(()));
    assert_eq!(c_listing_names(&context, 0, &["a"]), vec!["big", "tiny", "dir"]);
    assert_eq!(execute(&Command::SortByExtension, &mut context, &c_read), Ok(()));
    assert_eq!(context.config.sort_options.method, SortType::Extension);
    assert_eq!(execute(&Command::SortByName, &mut context, &c_read), Ok(()));
    assert_eq!(c_listing_names(&context, 0, &["a"]), vec!["big", "dir", "tiny"]);
    assert_eq!(execute(&Command::ToggleReverse, &mut context, &c_read), Ok(()));
    assert_eq!(c_listing_names(&context, 0, &["a"]), vec!["tiny", "dir", "big"]);
    assert_eq!(execute(&Command::ToggleHiddenFiles, &mut context, &c_read), Ok(()));
    assert_eq!(c_listing_names(&context, 0, &["a"]), vec!["tiny", "dir", "big", ".hid"]);
}

#[test]
fn execute_navigation_commands() {
    let mut context = c_context(&[&["a"]]);
    context.tab_context.tabs[0].set_cursor(1);
    assert_eq!(execute(&Command::OpenDirectory, &mut context, &c_read), Ok(()));
    assert_eq!(context.tab_context.tabs[0].current_path.components, vec!["a", "dir"]);
    assert_eq!(execute(&Command::ParentDirectory, &mut context, &c_read), Ok(()));
    assert_eq!(context.tab_context.tabs[0].current_path.components, vec!["a"]);
    assert_eq!(context.tab_context.tabs[0].cursor_index, 1);
    assert_eq!(
        execute(&Command::ParentDirectory, &mut context, &c_read),
        Err(IoError { kind: IoErrorKind::NotFound })
    );
    assert!(context.tab_context.tabs[0].current_path.is_root());
}

#[test]
fn execute_reload_and_quit() {
    let mut context = c_context(&[&["a"]]);
    assert_eq!(execute(&Command::ReloadDirList, &mut context, &c_read), Ok(()));
    assert_eq!(
        context.tab_context.tabs[0].history.get(&c_path(&["a"])).unwrap().listing.generation,
        2
    );
    let never = |_: &DirPath| -> ReadOutcome { panic!("nothing is to be read") };
    assert_eq!(execute(&Command::Quit, &mut context, &never), Ok(()));
    assert_eq!(
        context.tab_context.tabs[0].history.get(&c_path(&["a"])).unwrap().listing.generation,
        2
    );
}

#[test]
fn can_execute_needs_an_active_tab() {
    let empty = AppContext::new(c_config());
    assert!(!joshuto::commands::execute::can_execute(&Command::Quit, &empty));
    assert!(!joshuto::commands::execute::can_execute(&Command::SortByName, &empty));
    let context = c_context(&[&["a"]]);
    for command in [
        Command::Quit,
        Command::ReloadDirList,
        Command::ToggleHiddenFiles,
        Command::ToggleReverse,
        Command::SortByName,
        Command::SortBySize,
        Command::SortByMtime,
        Command::SortByExtension,
        Command::OpenDirectory,
        Command::ParentDirectory,
    ] {
        assert!(joshuto::commands::execute::can_execute(&command, &context));
    }
}
