use joshuto::context::{AppConfig, AppContext, DisplayOptions};
use joshuto::path::DirPath;
use joshuto::sort::SortOptions;
use joshuto::ui::widgets::tui_topbar::TuiTopBar;

fn tb_path(parts: &[&str]) -> DirPath {
    DirPath::from_components(parts.iter().map(|s| s.to_string()).collect())
}

fn tb_context(tilde: bool) -> AppContext {
    AppContext::new(AppConfig::new(SortOptions::default(), DisplayOptions { tilde_in_titlebar: tilde }))
}

#[test]
fn title_writes_the_whole_path_when_it_fits() {
    let context = tb_context(false);
    let path = tb_path(&["home", "user", "projects"]);
    let title = TuiTopBar::new(&context, &path).title_path(80, None);
    assert!(!title.ellipsis);
    assert_eq!(title.text, "/home/user/projects");
}

#[test]
fn title_that_fills_the_bar_exactly_is_not_cut() {
    let context = tb_context(false);
    let path = tb_path(&["home", "user"]);
    let exact = TuiTopBar::new(&context, &path).title_path(10, None);
    assert!(!exact.ellipsis);
    assert_eq!(exact.text, "/home/user");
    let short = TuiTopBar::new(&context, &path).title_path(9, None);
    assert!(short.ellipsis);
    assert_eq!(short.text, "user");
}

#[test]
fn title_width_counts_bytes() {
    let context = tb_context(false);
    let path = tb_path(&["d\u{e9}j\u{e0}"]);
    let bar = TuiTopBar::new(&context, &path);
    assert!(bar.title_path(6, None).ellipsis);
    assert!(!bar.title_path(7, None).ellipsis);
}

#[test]
fn title_of_the_root_is_never_cut() {
    let context = tb_context(true);
    let root = DirPath::root();
    let title = TuiTopBar::new(&context, &root).title_path(0, Some(&tb_path(&["home"])));
    assert!(!title.ellipsis);
    assert_eq!(title.text, "/");
}

#[test]
fn title_writes_a_tilde_for_the_home_directory() {
    let context = tb_context(true);
    let home = tb_path(&["home", "user"]);
    let path = tb_path(&["home", "user", "projects"]);
    let title = TuiTopBar::new(&context, &path).title_path(80, Some(&home));
    assert!(!title.ellipsis);
    assert_eq!(title.text, "~/projects");
    let at_home = TuiTopBar::new(&context, &home).title_path(80, Some(&home));
    assert_eq!(at_home.text, "~");
}

#[test]
fn title_replaces_every_occurrence_of_the_home_text() {
    let context = tb_context(true);
    let home = tb_path(&["u"]);
    let path = tb_path(&["u", "x", "u"]);
    let title = TuiTopBar::new(&context, &path).title_path(80, Some(&home));
    assert_eq!(title.text, "~/x~");
}

#[test]
fn title_keeps_the_home_directory_when_no_tilde_is_asked_for() {
    let context = tb_context(false);
    let home = tb_path(&["home", "user"]);
    let path = tb_path(&["home", "user", "projects"]);
    let title = TuiTopBar::new(&context, &path).title_path(80, Some(&home));
    assert_eq!(title.text, "/home/user/projects");
}

#[test]
fn title_without_a_known_home_is_not_abbreviated() {
    let context = tb_context(true);
    let path = tb_path(&["home", "user", "projects"]);
    let title = TuiTopBar::new(&context, &path).title_path(80, None);
    assert_eq!(title.text, "/home/user/projects");
}

#[test]
fn cut_title_is_the_last_component() {
    let context = tb_context(true);
    let home = tb_path(&["home", "user"]);
    let path = tb_path(&["home", "user", "projects"]);
    let title = TuiTopBar::new(&context, &path).title_path(5, Some(&home));
    assert!(title.ellipsis);
    assert_eq!(title.text, "projects");
}
