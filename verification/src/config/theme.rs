//! The colour theme, and the defaults that fill what a theme file leaves out.
use std::collections::HashMap;
use vstd::prelude::*;

verus! {

/// A pair of terminal colours under an id; -1 stands for the terminal's own.
#[derive(Debug, Clone)]
pub struct JoshutoColorPair {
    pub id: i16,
    pub fg: i16,
    pub bg: i16,
}

impl JoshutoColorPair {
    pub fn new(id: i16, fg: i16, bg: i16) -> (pair: Self)
        ensures
            pair == (JoshutoColorPair { id, fg, bg }),
    {
        JoshutoColorPair { id, fg, bg }
    }
}

/// How one class of entries is drawn.
#[derive(Debug, Clone)]
pub struct JoshutoColorTheme {
    pub colorpair: i16,
    pub bold: bool,
    pub underline: bool,
    pub prefix: Option<String>,
    pub prefixsize: Option<usize>,
}

/// A theme as a theme file gives it: any part may be missing.
#[derive(Debug)]
pub struct JoshutoRawTheme {
    pub colorpair: Option<Vec<JoshutoColorPair>>,
    pub selection: Option<JoshutoColorTheme>,
    pub executable: Option<JoshutoColorTheme>,
    pub regular: Option<JoshutoColorTheme>,
    pub directory: Option<JoshutoColorTheme>,
    pub link: Option<JoshutoColorTheme>,
    pub socket: Option<JoshutoColorTheme>,
    pub ext: Option<HashMap<String, JoshutoColorTheme>>,
}

/// A complete theme.
#[derive(Debug, Clone)]
pub struct JoshutoTheme {
    pub colorpair: Vec<JoshutoColorPair>,
    pub regular: JoshutoColorTheme,
    pub selection: JoshutoColorTheme,
    pub directory: JoshutoColorTheme,
    pub executable: JoshutoColorTheme,
    pub link: JoshutoColorTheme,
    pub socket: JoshutoColorTheme,
    pub ext: HashMap<String, JoshutoColorTheme>,
}

/// The background that stands for the terminal's own.
pub const TERMINAL_BACKGROUND: i16 = -1;

/// A style without prefix.
pub open spec fn plain_style(colorpair: i16, bold: bool) -> JoshutoColorTheme {
    JoshutoColorTheme { colorpair, bold, underline: false, prefix: None, prefixsize: None }
}

/// The colour pairs of the default theme: ids 2 to 6, each with the colour
/// of its id on the terminal's own background.
pub open spec fn default_colorpairs() -> Seq<JoshutoColorPair> {
    seq![
        JoshutoColorPair { id: 2, fg: 2, bg: TERMINAL_BACKGROUND },
        JoshutoColorPair { id: 3, fg: 3, bg: TERMINAL_BACKGROUND },
        JoshutoColorPair { id: 4, fg: 4, bg: TERMINAL_BACKGROUND },
        JoshutoColorPair { id: 5, fg: 5, bg: TERMINAL_BACKGROUND },
        JoshutoColorPair { id: 6, fg: 6, bg: TERMINAL_BACKGROUND },
    ]
}

/// The default style of the selected entry.
pub open spec fn default_selection() -> JoshutoColorTheme {
    plain_style(3, true)
}

/// The default style of executable files.
pub open spec fn default_executable() -> JoshutoColorTheme {
    plain_style(2, true)
}

/// The default style of regular files.
pub open spec fn default_regular() -> JoshutoColorTheme {
    plain_style(0, false)
}

/// The default style of directories.
pub open spec fn default_directory() -> JoshutoColorTheme {
    plain_style(4, true)
}

/// The default style of symbolic links.
pub open spec fn default_link() -> JoshutoColorTheme {
    plain_style(6, true)
}

/// The default style of sockets.
pub open spec fn default_socket() -> JoshutoColorTheme {
    plain_style(6, true)
}

/// The given style, or the default where none is given.
pub open spec fn style_or(given: Option<JoshutoColorTheme>, default: JoshutoColorTheme) -> JoshutoColorTheme {
    match given {
        Some(style) => style,
        None => default,
    }
}

fn plain(colorpair: i16, bold: bool) -> (style: JoshutoColorTheme)
    ensures
        style == plain_style(colorpair, bold),
{
    JoshutoColorTheme { colorpair, bold, underline: false, prefix: None, prefixsize: None }
}

fn choose_style(given: Option<JoshutoColorTheme>, colorpair: i16, bold: bool) -> (style:
    JoshutoColorTheme)
    ensures
        style == style_or(given, plain_style(colorpair, bold)),
{
    match given {
        Some(style) => style,
        None => plain(colorpair, bold),
    }
}

fn default_pairs() -> (pairs: Vec<JoshutoColorPair>)
    ensures
        pairs@ == default_colorpairs(),
{
    let mut colorpair: Vec<JoshutoColorPair> = Vec::with_capacity(10);
    colorpair.push(JoshutoColorPair::new(2, 2, TERMINAL_BACKGROUND));
    colorpair.push(JoshutoColorPair::new(3, 3, TERMINAL_BACKGROUND));
    colorpair.push(JoshutoColorPair::new(4, 4, TERMINAL_BACKGROUND));
    colorpair.push(JoshutoColorPair::new(5, 5, TERMINAL_BACKGROUND));
    colorpair.push(JoshutoColorPair::new(6, 6, TERMINAL_BACKGROUND));
    assert(colorpair@ =~= default_colorpairs());
    colorpair
}

impl JoshutoRawTheme {
    /// The complete theme: each part as given, and the default for each part
    /// that is missing.
    pub fn flatten(self) -> (theme: JoshutoTheme)
        ensures
            match self.colorpair {
                Some(pairs) => theme.colorpair == pairs,
                None => theme.colorpair@ == default_colorpairs(),
            },
            theme.selection == style_or(self.selection, default_selection()),
            theme.executable == style_or(self.executable, default_executable()),
            theme.regular == style_or(self.regular, default_regular()),
            theme.directory == style_or(self.directory, default_directory()),
            theme.link == style_or(self.link, default_link()),
            theme.socket == style_or(self.socket, default_socket()),
            match self.ext {
                Some(ext) => theme.ext == ext,
                None => theme.ext@ == Map::<String, JoshutoColorTheme>::empty(),
            },
    {
        let colorpair = match self.colorpair {
            Some(s) => s,
            None => default_pairs(),
        };
        let selection = choose_style(self.selection, 3, true);
        let executable = choose_style(self.executable, 2, true);
        let regular = choose_style(self.regular, 0, false);
        let directory = choose_style(self.directory, 4, true);
        let link = choose_style(self.link, 6, true);
        let socket = choose_style(self.socket, 6, true);
        let ext = match self.ext {
            Some(ext) => ext,
            None => HashMap::new(),
        };
        JoshutoTheme { colorpair, regular, directory, selection, executable, link, socket, ext }
    }
}

impl JoshutoTheme {
    /// The default theme.
    pub fn new() -> (theme: Self)
        ensures
            theme.colorpair@ == default_colorpairs(),
            theme.selection == default_selection(),
            theme.executable == default_executable(),
            theme.regular == default_regular(),
            theme.directory == default_directory(),
            theme.link == default_link(),
            theme.socket == default_socket(),
            theme.ext@ == Map::<String, JoshutoColorTheme>::empty(),
    {
        JoshutoTheme {
            colorpair: default_pairs(),
            selection: plain(3, true),
            executable: plain(2, true),
            regular: plain(0, false),
            directory: plain(4, true),
            link: plain(6, true),
            socket: plain(6, true),
            ext: HashMap::new(),
        }
    }

    /// The theme to run with: what the theme file gave, completed by the
    /// defaults, or the default theme where there was no file.
    pub fn get_config(raw: Option<JoshutoRawTheme>) -> (theme: Self)
        ensures
            theme.colorpair@ == match raw {
                Some(JoshutoRawTheme { colorpair: Some(pairs), .. }) => pairs@,
                _ => default_colorpairs(),
            },
            theme.selection == match raw {
                Some(config) => style_or(config.selection, default_selection()),
                None => default_selection(),
            },
            theme.executable == match raw {
                Some(config) => style_or(config.executable, default_executable()),
                None => default_executable(),
            },
            theme.regular == match raw {
                Some(config) => style_or(config.regular, default_regular()),
                None => default_regular(),
            },
            theme.directory == match raw {
                Some(config) => style_or(config.directory, default_directory()),
                None => default_directory(),
            },
            theme.link == match raw {
                Some(config) => style_or(config.link, default_link()),
                None => default_link(),
            },
            theme.socket == match raw {
                Some(config) => style_or(config.socket, default_socket()),
                None => default_socket(),
            },
            theme.ext@ == match raw {
                Some(JoshutoRawTheme { ext: Some(ext), .. }) => ext@,
                _ => Map::<String, JoshutoColorTheme>::empty(),
            },
    {
        match raw {
            Some(config) => config.flatten(),
            None => Self::new(),
        }
    }
}

} // verus!
