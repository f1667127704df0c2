use joshuto::entry::{bytes_le_from, extension_offset, Entry, EntryKind};
use joshuto::listing::{DirSnapshot, Listing};
use joshuto::path::DirPath;
use joshuto::sort::{SortOptions, SortType};

fn file(name: &str, size: u64, mtime: u64) -> Entry {
    Entry::new(name.to_string(), EntryKind::File, size, mtime, 0o644)
}

fn dir(name: &str, size: u64, mtime: u64) -> Entry {
    Entry::new(name.to_string(), EntryKind::Directory, size, mtime, 0o755)
}

fn names(entries: &Vec<Entry>) -> Vec<String> {
    entries.iter().map(|e| e.name.clone()).collect()
}

fn sample() -> Vec<Entry> {
    vec![
        file("b.txt", 30, 100),
        dir(".git", 10, 400),
        file("a.rs", 20, 300),
        file("Makefile", 40, 200),
    ]
}

#[test]
fn arrange_by_name_leaves_hidden_out() {
    let options = SortOptions::new(SortType::Name, false, false);
    assert_eq!(names(&options.arrange(&sample())), vec!["Makefile", "a.rs", "b.txt"]);
}

#[test]
fn arrange_by_name_shows_hidden_when_asked() {
    let options = SortOptions::new(SortType::Name, false, true);
    assert_eq!(names(&options.arrange(&sample())), vec![".git", "Makefile", "a.rs", "b.txt"]);
}

#[test]
fn arrange_by_size() {
    let options = SortOptions::new(SortType::Size, false, true);
    assert_eq!(names(&options.arrange(&sample())), vec![".git", "a.rs", "b.txt", "Makefile"]);
}

#[test]
fn arrange_by_mtime() {
    let options = SortOptions::new(SortType::Mtime, false, true);
    assert_eq!(names(&options.arrange(&sample())), vec!["b.txt", "Makefile", "a.rs", ".git"]);
}

#[test]
fn arrange_by_extension_puts_names_without_one_first() {
    let options = SortOptions::new(SortType::Extension, false, true);
    assert_eq!(names(&options.arrange(&sample())), vec![".git", "Makefile", "a.rs", "b.txt"]);
}

#[test]
fn arrange_reversed_runs_backwards() {
    let by_size = SortOptions::new(SortType::Size, true, false);
    assert_eq!(names(&by_size.arrange(&sample())), vec!["Makefile", "b.txt", "a.rs"]);
    let by_name = SortOptions::new(SortType::Name, true, true);
    assert_eq!(names(&by_name.arrange(&sample())), vec!["b.txt", "a.rs", "Makefile", ".git"]);
}

#[test]
fn arrange_reverse_is_the_mirror_image_without_ties() {
    for method in [SortType::Name, SortType::Size, SortType::Mtime] {
        let forward = names(&SortOptions::new(method, false, true).arrange(&sample()));
        let mut backward = names(&SortOptions::new(method, true, true).arrange(&sample()));
        backward.reverse();
        assert_eq!(forward, backward);
    }
}

#[test]
fn arrange_keeps_read_order_among_equals() {
    let raw = vec![file("x", 5, 1), file("y", 5, 2), file("w", 1, 3), file("z", 5, 4)];
    let options = SortOptions::new(SortType::Size, false, false);
    assert_eq!(names(&options.arrange(&raw)), vec!["w", "x", "y", "z"]);
}

#[test]
fn arrange_keeps_every_shown_entry_once() {
    let raw = vec![file("a", 1, 1), file(".a", 1, 1), file("a", 2, 2), file(".b", 3, 3)];
    let shown = SortOptions::new(SortType::Name, false, false).arrange(&raw);
    assert_eq!(names(&shown), vec!["a", "a"]);
    let all = SortOptions::new(SortType::Name, false, true).arrange(&raw);
    assert_eq!(all.len(), 4);
}

#[test]
fn arrange_of_nothing_is_nothing() {
    let options = SortOptions::default();
    assert!(options.arrange(&Vec::new()).is_empty());
}

#[test]
fn default_options_sort_by_name_forwards_without_hidden() {
    let options = SortOptions::default();
    assert_eq!(options, SortOptions::new(SortType::Name, false, false));
    assert!(!options.show_hidden());
}

#[test]
fn options_setters_change_one_field() {
    let mut options = SortOptions::default();
    options.set_sort_method(SortType::Mtime);
    assert_eq!(options, SortOptions::new(SortType::Mtime, false, false));
    options.set_show_hidden(true);
    assert_eq!(options, SortOptions::new(SortType::Mtime, false, true));
}

#[test]
fn precedes_follows_method_and_reverse() {
    let small = file("zz", 1, 9);
    let large = file("aa", 2, 3);
    assert!(SortOptions::new(SortType::Size, false, false).precedes(&small, &large));
    assert!(!SortOptions::new(SortType::Size, true, false).precedes(&small, &large));
    assert!(!SortOptions::new(SortType::Name, false, false).precedes(&small, &large));
    assert!(SortOptions::new(SortType::Mtime, false, false).precedes(&large, &small));
    assert!(SortOptions::new(SortType::Size, false, false).precedes(&small, &small));
}

#[test]
fn hidden_is_a_leading_dot() {
    assert!(file(".bashrc", 0, 0).is_hidden());
    assert!(file(".", 0, 0).is_hidden());
    assert!(!file("a.b", 0, 0).is_hidden());
    assert!(!file("", 0, 0).is_hidden());
}

#[test]
fn is_dir_tells_directories_apart() {
    assert!(dir("d", 0, 0).is_dir());
    assert!(!file("f", 0, 0).is_dir());
    assert!(!Entry::new("l".to_string(), EntryKind::Symlink, 0, 0, 0).is_dir());
    assert!(!Entry::new("s".to_string(), EntryKind::Socket, 0, 0, 0).is_dir());
    assert!(!Entry::new("o".to_string(), EntryKind::Other, 0, 0, 0).is_dir());
}

#[test]
fn entry_clone_is_equal_in_every_field() {
    let e = Entry::new("n".to_string(), EntryKind::Socket, 11, 22, 0o600);
    let c = e.clone();
    assert_eq!(c.name, "n");
    assert_eq!(c.kind, EntryKind::Socket);
    assert_eq!((c.size, c.modified_time, c.permissions), (11, 22, 0o600));
}

#[test]
fn byte_order_puts_a_prefix_first() {
    assert!(bytes_le_from(b"ab", 0, b"abc", 0));
    assert!(!bytes_le_from(b"abc", 0, b"ab", 0));
    assert!(bytes_le_from(b"abc", 0, b"abc", 0));
    assert!(bytes_le_from(b"abc", 0, b"abd", 0));
    assert!(!bytes_le_from(b"b", 0, b"abd", 0));
    assert!(bytes_le_from(b"", 0, b"", 0));
}

#[test]
fn byte_order_from_offsets_compares_the_tails() {
    assert!(bytes_le_from(b"zzrs", 2, b"aatxt", 2));
    assert!(!bytes_le_from(b"aatxt", 2, b"zzrs", 2));
    assert!(bytes_le_from(b"abc", 3, b"x", 0));
}

#[test]
fn extension_begins_behind_the_last_inner_dot() {
    assert_eq!(extension_offset(b"a.tar.gz"), 6);
    assert_eq!(extension_offset(b"a.rs"), 2);
    assert_eq!(extension_offset(b"Makefile"), 8);
    assert_eq!(extension_offset(b".bashrc"), 7);
    assert_eq!(extension_offset(b".config.toml"), 8);
    assert_eq!(extension_offset(b"a."), 2);
    assert_eq!(extension_offset(b""), 0);
    assert_eq!(extension_offset(b"."), 1);
}

#[test]
fn listing_build_arranges_and_stamps() {
    let snapshot = DirSnapshot { entries: sample(), taken_at: 77 };
    let options = SortOptions::new(SortType::Size, false, false);
    let listing = Listing::build(DirPath::root(), &snapshot, &options, 3);
    assert_eq!(names(&listing.entries), vec!["a.rs", "b.txt", "Makefile"]);
    assert_eq!(listing.generation, 3);
    assert_eq!(listing.loaded_at, 77);
    assert_eq!(listing.len(), 3);
    assert!(!listing.is_empty());
    assert!(listing.path.is_root());
}

#[test]
fn listing_empty_has_generation_zero() {
    let listing = Listing::empty(DirPath::root().child("a"));
    assert!(listing.is_empty());
    assert_eq!(listing.len(), 0);
    assert_eq!(listing.generation, 0);
    assert_eq!(listing.loaded_at, 0);
    assert_eq!(listing.path.components, vec!["a"]);
}

#[test]
fn listing_get_is_none_out_of_range() {
    let snapshot = DirSnapshot { entries: sample(), taken_at: 0 };
    let listing = Listing::build(DirPath::root(), &snapshot, &SortOptions::default(), 1);
    assert_eq!(listing.get(0).map(|e| e.name.as_str()), Some("Makefile"));
    assert_eq!(listing.get(2).map(|e| e.name.as_str()), Some("b.txt"));
    assert!(listing.get(3).is_none());
}

#[test]
fn listing_position_of_finds_the_first_of_that_name() {
    let raw = vec![file("a", 1, 0), file("b", 2, 0), file("a", 3, 0)];
    let snapshot = DirSnapshot { entries: raw, taken_at: 0 };
    let options = SortOptions::new(SortType::Size, true, false);
    let listing = Listing::build(DirPath::root(), &snapshot, &options, 1);
    assert_eq!(listing.position_of("a"), Some(0));
    assert_eq!(listing.entries[0].size, 3);
    assert_eq!(listing.position_of("b"), Some(1));
    assert_eq!(listing.position_of("c"), None);
}

#[test]
fn listing_clone_copies_everything() {
    let snapshot = DirSnapshot { entries: sample(), taken_at: 5 };
    let listing = Listing::build(DirPath::root().child("x"), &snapshot, &SortOptions::default(), 9);
    let copy = listing.clone();
    assert_eq!(names(&copy.entries), names(&listing.entries));
    assert_eq!(copy.generation, 9);
    assert_eq!(copy.loaded_at, 5);
    assert!(copy.path.equals(&listing.path));
}
