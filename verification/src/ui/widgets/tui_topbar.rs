//! The title bar.
use crate::context::AppContext;
use crate::path::{path_text, DirPath, PathView};
use vstd::prelude::*;
use vstd::utf8::encode_utf8;

verus! {

/// The title bar of the view: it shows who is looking at which directory.
pub struct TuiTopBar<'a> {
    pub context: &'a AppContext,
    path: &'a DirPath,
}

/// What the title bar writes for the directory.
#[derive(Debug)]
pub struct TitlePath {
    /// Whether the text is cut down to the last component, which an
    /// ellipsis in front of it tells the reader.
    pub ellipsis: bool,
    pub text: String,
}

/// `text` with every occurrence of `from` replaced by `to`, as
/// `str::replace` of the standard library returns it.
pub uninterp spec fn str_replaced(text: Seq<char>, from: Seq<char>, to: Seq<char>) -> Seq<char>;

/// Calls `str::replace`: the result is a new string, `text` with the matches
/// of `from` replaced by `to`. Nothing more is claimed of it than that it is
/// a function of the three strings.
#[verifier::external_body]
fn replace_all(text: &str, from: &str, to: &str) -> (r: String)
    ensures
        r@ == str_replaced(text@, from@, to@),
{
    text.replace(from, to)
}

/// Whether the written path takes more bytes than the bar has columns and
/// there is a last component to cut it down to.
pub open spec fn is_cut(path: PathView, width: u16) -> bool {
    encode_utf8(path_text(path)).len() > width && path.len() > 0
}

/// The text of the path before the home directory is abbreviated: the last
/// component alone where the path is cut, and else the path as it is
/// written.
pub open spec fn fitted_text(path: PathView, width: u16) -> Seq<char> {
    if is_cut(path, width) {
        path.last()
    } else {
        path_text(path)
    }
}

/// The text of the path in the bar: the fitted text, with the home directory
/// written as a tilde where that is asked for and a home directory is known.
pub open spec fn title_text(path: PathView, width: u16, tilde: bool, home: Option<PathView>) -> Seq<
    char,
> {
    match home {
        Some(home_dir) => if tilde {
            str_replaced(fitted_text(path, width), path_text(home_dir), "~"@)
        } else {
            fitted_text(path, width)
        },
        None => fitted_text(path, width),
    }
}

impl<'a> TuiTopBar<'a> {
    /// The application state that the bar is drawn from.
    pub closed spec fn shown_context(&self) -> AppContext {
        *self.context
    }

    /// The directory that the bar names.
    pub closed spec fn shown_path(&self) -> DirPath {
        *self.path
    }

    /// The title bar for `path` under the options of `context`.
    pub fn new(context: &'a AppContext, path: &'a DirPath) -> (bar: Self)
        ensures
            bar.shown_context() == *context,
            bar.shown_path() == *path,
    {
        Self { context, path }
    }

    /// What the bar writes for the directory when it is `width` columns
    /// wide and the user's home directory is `home_dir`.
    pub fn title_path(&self, width: u16, home_dir: Option<&DirPath>) -> (title: TitlePath)
        ensures
            title.ellipsis == is_cut(self.shown_path()@, width),
            title.text@ == title_text(
                self.shown_path()@,
                width,
                self.shown_context().config.display_options.tilde_in_titlebar,
                match home_dir {
                    Some(home) => Some(home@),
                    None => None,
                },
            ),
    {
        let mut ellipsis = false;
        let mut text = self.path.to_text();
        if text.as_str().as_bytes().len() > width as usize {
            if let Some(name) = self.path.file_name() {
                text = name.clone();
                ellipsis = true;
            }
        }
        if self.context.config_ref().display_options_ref().tilde_in_titlebar() {
            if let Some(home) = home_dir {
                let home_text = home.to_text();
                text = replace_all(text.as_str(), home_text.as_str(), "~");
            }
        }
        TitlePath { ellipsis, text }
    }
}

} // verus!
