use joshuto::entry::{Entry, EntryKind};
use joshuto::history::DirectoryHistory;
use joshuto::listing::{DirSnapshot, IoError, IoErrorKind, ReadOutcome};
use joshuto::path::DirPath;
use joshuto::sort::{SortOptions, SortType};
use std::cell::Cell;

fn h_file(name: &str, size: u64) -> Entry {
    Entry::new(name.to_string(), EntryKind::File, size, 0, 0o644)
}

fn h_names(entries: &Vec<Entry>) -> Vec<String> {
    entries.iter().map(|e| e.name.clone()).collect()
}

fn h_path(parts: &[&str]) -> DirPath {
    DirPath::from_components(parts.iter().map(|s| s.to_string()).collect())
}

fn h_read(path: &DirPath) -> ReadOutcome {
    let parts: Vec<&str> = path.components.iter().map(|s| s.as_str()).collect();
    match parts.as_slice() {
        ["a"] => Ok(DirSnapshot {
            entries: vec![h_file("two", 2), h_file("one", 1), h_file(".three", 3)],
            taken_at: 10,
        }),
        ["b"] => Ok(DirSnapshot { entries: vec![h_file("x", 9)], taken_at: 20 }),
        ["locked"] => Err(IoErrorKind::PermissionDenied),
        ["odd"] => Err(IoErrorKind::Other),
        _ => Err(IoErrorKind::NotFound),
    }
}

#[test]
fn new_history_is_empty() {
    let history = DirectoryHistory::new();
    assert!(!history.contains(&h_path(&["a"])));
    assert!(history.get(&h_path(&["a"])).is_none());
    assert!(!history.is_fresh(&h_path(&["a"])));
    assert!(history.has_headroom(&h_path(&["a"])));
}

#[test]
fn get_or_load_reads_a_new_path_once() {
    let reads = Cell::new(0usize);
    let reader = |p: &DirPath| {
        reads.set(reads.get() + 1);
        h_read(p)
    };
    let mut history = DirectoryHistory::new();
    let options = SortOptions::default();
    let a = h_path(&["a"]);
    {
        let listing = history.get_or_load(&a, &options, &reader).unwrap();
        assert_eq!(h_names(&listing.entries), vec!["one", "two"]);
        assert_eq!(listing.generation, 1);
        assert_eq!(listing.loaded_at, 10);
        assert!(listing.path.equals(&a));
    }
    assert_eq!(reads.get(), 1);
    assert!(history.contains(&a));
    assert!(history.is_fresh(&a));
}

#[test]
fn get_or_load_twice_gives_the_same_generation() {
    let reads = Cell::new(0usize);
    let reader = |p: &DirPath| {
        reads.set(reads.get() + 1);
        h_read(p)
    };
    let mut history = DirectoryHistory::new();
    let options = SortOptions::default();
    let a = h_path(&["a"]);
    let first = history.get_or_load(&a, &options, &reader).unwrap().generation;
    let second = history.get_or_load(&a, &options, &reader).unwrap().generation;
    assert_eq!(first, 1);
    assert_eq!(second, first);
    assert_eq!(reads.get(), 1);
}

#[test]
fn get_or_load_after_depreciate_all_advances_the_generation() {
    let mut history = DirectoryHistory::new();
    let options = SortOptions::default();
    let a = h_path(&["a"]);
    let b = h_path(&["b"]);
    history.get_or_load(&a, &options, &h_read).unwrap();
    history.get_or_load(&b, &options, &h_read).unwrap();
    history.depreciate_all();
    assert!(!history.is_fresh(&a));
    assert!(!history.is_fresh(&b));
    assert_eq!(history.get(&a).unwrap().listing.generation, 1);
    assert_eq!(h_names(&history.get(&a).unwrap().listing.entries), vec!["one", "two"]);
    assert_eq!(history.get_or_load(&a, &options, &h_read).unwrap().generation, 2);
    assert_eq!(history.get_or_load(&b, &options, &h_read).unwrap().generation, 2);
    assert!(history.is_fresh(&a));
    history.depreciate_all();
    assert_eq!(history.get_or_load(&a, &options, &h_read).unwrap().generation, 3);
}

#[test]
fn depreciate_marks_one_path_only() {
    let mut history = DirectoryHistory::new();
    let options = SortOptions::default();
    let a = h_path(&["a"]);
    let b = h_path(&["b"]);
    history.get_or_load(&a, &options, &h_read).unwrap();
    history.get_or_load(&b, &options, &h_read).unwrap();
    history.depreciate(&a);
    assert!(history.get(&a).unwrap().stale);
    assert!(!history.get(&b).unwrap().stale);
    assert_eq!(history.get(&a).unwrap().listing.generation, 1);
    assert_eq!(history.get_or_load(&b, &options, &h_read).unwrap().generation, 1);
    assert_eq!(history.get_or_load(&a, &options, &h_read).unwrap().generation, 2);
}

#[test]
fn depreciate_of_an_unknown_path_changes_nothing() {
    let mut history = DirectoryHistory::new();
    let options = SortOptions::default();
    let a = h_path(&["a"]);
    history.get_or_load(&a, &options, &h_read).unwrap();
    history.depreciate(&h_path(&["nowhere"]));
    assert!(history.is_fresh(&a));
    assert!(!history.contains(&h_path(&["nowhere"])));
}

#[test]
fn reload_applies_the_options_of_the_moment() {
    let mut history = DirectoryHistory::new();
    let a = h_path(&["a"]);
    let by_name = SortOptions::new(SortType::Name, false, false);
    let by_size_all = SortOptions::new(SortType::Size, true, true);
    assert_eq!(
        h_names(&history.get_or_load(&a, &by_name, &h_read).unwrap().entries),
        vec!["one", "two"]
    );
    assert_eq!(
        h_names(&history.get_or_load(&a, &by_size_all, &h_read).unwrap().entries),
        vec!["one", "two"]
    );
    history.depreciate_all();
    assert_eq!(
        h_names(&history.get_or_load(&a, &by_size_all, &h_read).unwrap().entries),
        vec![".three", "two", "one"]
    );
}

#[test]
fn force_reload_reads_even_when_fresh() {
    let reads = Cell::new(0usize);
    let reader = |p: &DirPath| {
        reads.set(reads.get() + 1);
        h_read(p)
    };
    let mut history = DirectoryHistory::new();
    let options = SortOptions::default();
    let a = h_path(&["a"]);
    assert_eq!(history.force_reload(&a, &options, &reader).unwrap().generation, 1);
    assert_eq!(history.force_reload(&a, &options, &reader).unwrap().generation, 2);
    assert_eq!(history.get_or_load(&a, &options, &reader).unwrap().generation, 2);
    assert_eq!(reads.get(), 2);
}

#[test]
fn unreadable_new_path_becomes_an_empty_stale_entry() {
    let mut history = DirectoryHistory::new();
    let options = SortOptions::default();
    let gone = h_path(&["gone"]);
    let r = history.get_or_load(&gone, &options, &h_read).map(|l| l.generation);
    assert_eq!(r, Err(IoError { kind: IoErrorKind::NotFound }));
    let entry = history.get(&gone).unwrap();
    assert!(entry.stale);
    assert!(entry.listing.is_empty());
    assert_eq!(entry.listing.generation, 0);
    assert!(entry.listing.path.equals(&gone));
}

#[test]
fn each_error_kind_is_reported() {
    let mut history = DirectoryHistory::new();
    let options = SortOptions::default();
    let kind_of = |r: Result<&joshuto::listing::Listing, IoError>| r.map(|_| ()).unwrap_err().kind;
    assert_eq!(
        kind_of(history.get_or_load(&h_path(&["locked"]), &options, &h_read)),
        IoErrorKind::PermissionDenied
    );
    assert_eq!(
        kind_of(history.get_or_load(&h_path(&["odd"]), &options, &h_read)),
        IoErrorKind::Other
    );
    assert_eq!(
        kind_of(history.force_reload(&h_path(&["none"]), &options, &h_read)),
        IoErrorKind::NotFound
    );
}

#[test]
fn failed_reload_keeps_the_previous_listing_and_stays_stale() {
    let fail = Cell::new(false);
    let reader = |p: &DirPath| {
        if fail.get() {
            Err(IoErrorKind::PermissionDenied)
        } else {
            h_read(p)
        }
    };
    let mut history = DirectoryHistory::new();
    let options = SortOptions::default();
    let a = h_path(&["a"]);
    history.get_or_load(&a, &options, &reader).unwrap();
    fail.set(true);
    let r = history.force_reload(&a, &options, &reader).map(|_| ());
    assert_eq!(r, Err(IoError { kind: IoErrorKind::PermissionDenied }));
    let entry = history.get(&a).unwrap();
    assert!(entry.stale);
    assert_eq!(entry.listing.generation, 1);
    assert_eq!(h_names(&entry.listing.entries), vec!["one", "two"]);
    fail.set(false);
    assert_eq!(history.get_or_load(&a, &options, &reader).unwrap().generation, 2);
}

#[test]
fn failed_first_read_is_tried_again_on_the_next_access() {
    let fail = Cell::new(true);
    let reader = |p: &DirPath| {
        if fail.get() {
            Err(IoErrorKind::NotFound)
        } else {
            h_read(p)
        }
    };
    let mut history = DirectoryHistory::new();
    let options = SortOptions::default();
    let a = h_path(&["a"]);
    assert!(history.get_or_load(&a, &options, &reader).is_err());
    fail.set(false);
    let listing = history.get_or_load(&a, &options, &reader).unwrap();
    assert_eq!(listing.generation, 1);
    assert_eq!(h_names(&listing.entries), vec!["one", "two"]);
}

#[test]
fn store_files_a_read_outcome() {
    let mut history = DirectoryHistory::new();
    let options = SortOptions::new(SortType::Size, false, true);
    let a = h_path(&["a"]);
    assert_eq!(history.store(&a, h_read(&a), &options), Ok(()));
    assert_eq!(history.get(&a).unwrap().listing.generation, 1);
    assert_eq!(h_names(&history.get(&a).unwrap().listing.entries), vec!["one", "two", ".three"]);
    assert_eq!(history.store(&a, h_read(&a), &options), Ok(()));
    assert_eq!(history.get(&a).unwrap().listing.generation, 2);
    assert_eq!(
        history.store(&a, Err(IoErrorKind::Other), &options),
        Err(IoError { kind: IoErrorKind::Other })
    );
    assert!(history.get(&a).unwrap().stale);
    assert_eq!(history.get(&a).unwrap().listing.generation, 2);
}

#[test]
fn has_headroom_ends_at_the_largest_generation() {
    let mut history = DirectoryHistory::new();
    let options = SortOptions::default();
    let a = h_path(&["a"]);
    history.get_or_load(&a, &options, &h_read).unwrap();
    assert!(history.has_headroom(&a));
    assert!(history.has_headroom(&h_path(&["other"])));
}

#[test]
fn one_entry_for_each_path() {
    let mut history = DirectoryHistory::new();
    let options = SortOptions::default();
    let a = h_path(&["a"]);
    history.get_or_load(&a, &options, &h_read).unwrap();
    history.force_reload(&a, &options, &h_read).unwrap();
    history.get_or_load(&h_path(&["a", "sub"]), &options, &h_read).unwrap_err();
    assert_eq!(history.get(&a).unwrap().listing.generation, 2);
    assert!(history.contains(&h_path(&["a", "sub"])));
    assert!(!history.contains(&h_path(&["sub"])));
}
