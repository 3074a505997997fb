use vstd::prelude::*;

use crate::text::{ascii_lower_seq, copy_string, eq_chars, lower_chars, string_from_chars};

verus! {

/// A terminal colour.
#[derive(Copy, Clone, Debug, PartialEq, Eq, Structural)]
pub enum Color {
    Black,
    Red,
    Green,
    Yellow,
    Blue,
    Magenta,
    Cyan,
    Gray,
    DarkGray,
    LightRed,
    LightGreen,
    LightYellow,
    LightBlue,
    LightMagenta,
    LightCyan,
    White,
}

/// The name a colour is written as.
pub open spec fn color_name(c: Color) -> Seq<char> {
    match c {
        Color::Black => seq!['B', 'l', 'a', 'c', 'k'],
        Color::Red => seq!['R', 'e', 'd'],
        Color::Green => seq!['G', 'r', 'e', 'e', 'n'],
        Color::Yellow => seq!['Y', 'e', 'l', 'l', 'o', 'w'],
        Color::Blue => seq!['B', 'l', 'u', 'e'],
        Color::Magenta => seq!['M', 'a', 'g', 'e', 'n', 't', 'a'],
        Color::Cyan => seq!['C', 'y', 'a', 'n'],
        Color::Gray => seq!['G', 'r', 'a', 'y'],
        Color::DarkGray => seq!['D', 'a', 'r', 'k', 'G', 'r', 'a', 'y'],
        Color::LightRed => seq!['L', 'i', 'g', 'h', 't', 'R', 'e', 'd'],
        Color::LightGreen => seq!['L', 'i', 'g', 'h', 't', 'G', 'r', 'e', 'e', 'n'],
        Color::LightYellow => seq!['L', 'i', 'g', 'h', 't', 'Y', 'e', 'l', 'l', 'o', 'w'],
        Color::LightBlue => seq!['L', 'i', 'g', 'h', 't', 'B', 'l', 'u', 'e'],
        Color::LightMagenta => seq!['L', 'i', 'g', 'h', 't', 'M', 'a', 'g', 'e', 'n', 't', 'a'],
        Color::LightCyan => seq!['L', 'i', 'g', 'h', 't', 'C', 'y', 'a', 'n'],
        Color::White => seq!['W', 'h', 'i', 't', 'e'],
    }
}

/// The colour a name denotes, without regard to ASCII case.
pub open spec fn color_of(s: Seq<char>) -> Option<Color> {
    let l = ascii_lower_seq(s);
    if l == seq!['b', 'l', 'a', 'c', 'k'] {
        Some(Color::Black)
    } else if l == seq!['r', 'e', 'd'] {
        Some(Color::Red)
    } else if l == seq!['g', 'r', 'e', 'e', 'n'] {
        Some(Color::Green)
    } else if l == seq!['y', 'e', 'l', 'l', 'o', 'w'] {
        Some(Color::Yellow)
    } else if l == seq!['b', 'l', 'u', 'e'] {
        Some(Color::Blue)
    } else if l == seq!['m', 'a', 'g', 'e', 'n', 't', 'a'] {
        Some(Color::Magenta)
    } else if l == seq!['c', 'y', 'a', 'n'] {
        Some(Color::Cyan)
    } else if l == seq!['g', 'r', 'a', 'y'] {
        Some(Color::Gray)
    } else if l == seq!['d', 'a', 'r', 'k', 'g', 'r', 'a', 'y'] {
        Some(Color::DarkGray)
    } else if l == seq!['l', 'i', 'g', 'h', 't', 'r', 'e', 'd'] {
        Some(Color::LightRed)
    } else if l == seq!['l', 'i', 'g', 'h', 't', 'g', 'r', 'e', 'e', 'n'] {
        Some(Color::LightGreen)
    } else if l == seq!['l', 'i', 'g', 'h', 't', 'y', 'e', 'l', 'l', 'o', 'w'] {
        Some(Color::LightYellow)
    } else if l == seq!['l', 'i', 'g', 'h', 't', 'b', 'l', 'u', 'e'] {
        Some(Color::LightBlue)
    } else if l == seq!['l', 'i', 'g', 'h', 't', 'm', 'a', 'g', 'e', 'n', 't', 'a'] {
        Some(Color::LightMagenta)
    } else if l == seq!['l', 'i', 'g', 'h', 't', 'c', 'y', 'a', 'n'] {
        Some(Color::LightCyan)
    } else if l == seq!['w', 'h', 'i', 't', 'e'] {
        Some(Color::White)
    } else {
        None
    }
}

pub open spec fn color_or(s: Seq<char>, default: Color) -> Color {
    match color_of(s) {
        Some(c) => c,
        None => default,
    }
}

/// The colour named by `s` (without regard to ASCII case), or `default`.
pub fn str_to_color_or(s: &str, default: Color) -> (r: Color)
    ensures
        r == color_or(s@, default),
{
    let l = lower_chars(s);
    let l = l.as_slice();
    assert((&['b', 'l', 'a', 'c', 'k'])@ =~= seq!['b', 'l', 'a', 'c', 'k']);
    assert((&['r', 'e', 'd'])@ =~= seq!['r', 'e', 'd']);
    assert((&['g', 'r', 'e', 'e', 'n'])@ =~= seq!['g', 'r', 'e', 'e', 'n']);
    assert((&['y', 'e', 'l', 'l', 'o', 'w'])@ =~= seq!['y', 'e', 'l', 'l', 'o', 'w']);
    assert((&['b', 'l', 'u', 'e'])@ =~= seq!['b', 'l', 'u', 'e']);
    assert((&['m', 'a', 'g', 'e', 'n', 't', 'a'])@ =~= seq!['m', 'a', 'g', 'e', 'n', 't', 'a']);
    assert((&['c', 'y', 'a', 'n'])@ =~= seq!['c', 'y', 'a', 'n']);
    assert((&['g', 'r', 'a', 'y'])@ =~= seq!['g', 'r', 'a', 'y']);
    assert((&['d', 'a', 'r', 'k', 'g', 'r', 'a', 'y'])@ =~= seq!['d', 'a', 'r', 'k', 'g', 'r', 'a', 'y']);
    assert((&['l', 'i', 'g', 'h', 't', 'r', 'e', 'd'])@ =~= seq!['l', 'i', 'g', 'h', 't', 'r', 'e', 'd']);
    assert((&['l', 'i', 'g', 'h', 't', 'g', 'r', 'e', 'e', 'n'])@ =~= seq![
        'l',
        'i',
        'g',
        'h',
        't',
        'g',
        'r',
        'e',
        'e',
        'n',
    ]);
    assert((&['l', 'i', 'g', 'h', 't', 'y', 'e', 'l', 'l', 'o', 'w'])@ =~= seq![
        'l',
        'i',
        'g',
        'h',
        't',
        'y',
        'e',
        'l',
        'l',
        'o',
        'w',
    ]);
    assert((&['l', 'i', 'g', 'h', 't', 'b', 'l', 'u', 'e'])@ =~= seq![
        'l',
        'i',
        'g',
        'h',
        't',
        'b',
        'l',
        'u',
        'e',
    ]);
    assert((&['l', 'i', 'g', 'h', 't', 'm', 'a', 'g', 'e', 'n', 't', 'a'])@ =~= seq![
        'l',
        'i',
        'g',
        'h',
        't',
        'm',
        'a',
        'g',
        'e',
        'n',
        't',
        'a',
    ]);
    assert((&['l', 'i', 'g', 'h', 't', 'c', 'y', 'a', 'n'])@ =~= seq![
        'l',
        'i',
        'g',
        'h',
        't',
        'c',
        'y',
        'a',
        'n',
    ]);
    assert((&['w', 'h', 'i', 't', 'e'])@ =~= seq!['w', 'h', 'i', 't', 'e']);
    if eq_chars(l, &['b', 'l', 'a', 'c', 'k']) {
        Color::Black
    } else if eq_chars(l, &['r', 'e', 'd']) {
        Color::Red
    } else if eq_chars(l, &['g', 'r', 'e', 'e', 'n']) {
        Color::Green
    } else if eq_chars(l, &['y', 'e', 'l', 'l', 'o', 'w']) {
        Color::Yellow
    } else if eq_chars(l, &['b', 'l', 'u', 'e']) {
        Color::Blue
    } else if eq_chars(l, &['m', 'a', 'g', 'e', 'n', 't', 'a']) {
        Color::Magenta
    } else if eq_chars(l, &['c', 'y', 'a', 'n']) {
        Color::Cyan
    } else if eq_chars(l, &['g', 'r', 'a', 'y']) {
        Color::Gray
    } else if eq_chars(l, &['d', 'a', 'r', 'k', 'g', 'r', 'a', 'y']) {
        Color::DarkGray
    } else if eq_chars(l, &['l', 'i', 'g', 'h', 't', 'r', 'e', 'd']) {
        Color::LightRed
    } else if eq_chars(l, &['l', 'i', 'g', 'h', 't', 'g', 'r', 'e', 'e', 'n']) {
        Color::LightGreen
    } else if eq_chars(l, &['l', 'i', 'g', 'h', 't', 'y', 'e', 'l', 'l', 'o', 'w']) {
        Color::LightYellow
    } else if eq_chars(l, &['l', 'i', 'g', 'h', 't', 'b', 'l', 'u', 'e']) {
        Color::LightBlue
    } else if eq_chars(l, &['l', 'i', 'g', 'h', 't', 'm', 'a', 'g', 'e', 'n', 't', 'a']) {
        Color::LightMagenta
    } else if eq_chars(l, &['l', 'i', 'g', 'h', 't', 'c', 'y', 'a', 'n']) {
        Color::LightCyan
    } else if eq_chars(l, &['w', 'h', 'i', 't', 'e']) {
        Color::White
    } else {
        default
    }
}

/// The name of a colour.
pub fn color_to_string(c: Color) -> (r: String)
    ensures
        r@ == color_name(c),
{
    let name: &[char] = match c {
        Color::Black => &['B', 'l', 'a', 'c', 'k'],
        Color::Red => &['R', 'e', 'd'],
        Color::Green => &['G', 'r', 'e', 'e', 'n'],
        Color::Yellow => &['Y', 'e', 'l', 'l', 'o', 'w'],
        Color::Blue => &['B', 'l', 'u', 'e'],
        Color::Magenta => &['M', 'a', 'g', 'e', 'n', 't', 'a'],
        Color::Cyan => &['C', 'y', 'a', 'n'],
        Color::Gray => &['G', 'r', 'a', 'y'],
        Color::DarkGray => &['D', 'a', 'r', 'k', 'G', 'r', 'a', 'y'],
        Color::LightRed => &['L', 'i', 'g', 'h', 't', 'R', 'e', 'd'],
        Color::LightGreen => &['L', 'i', 'g', 'h', 't', 'G', 'r', 'e', 'e', 'n'],
        Color::LightYellow => &['L', 'i', 'g', 'h', 't', 'Y', 'e', 'l', 'l', 'o', 'w'],
        Color::LightBlue => &['L', 'i', 'g', 'h', 't', 'B', 'l', 'u', 'e'],
        Color::LightMagenta => &['L', 'i', 'g', 'h', 't', 'M', 'a', 'g', 'e', 'n', 't', 'a'],
        Color::LightCyan => &['L', 'i', 'g', 'h', 't', 'C', 'y', 'a', 'n'],
        Color::White => &['W', 'h', 'i', 't', 'e'],
    };
    assert(name@ =~= color_name(c));
    string_from_chars(name)
}

/// Reading a colour's name gives the colour back, whatever the default.
pub proof fn lemma_color_name_roundtrip(c: Color, default: Color)
    ensures
        color_or(color_name(c), default) == c,
{
    let n = color_name(c);
    assert(ascii_lower_seq(n) =~= match c {
        Color::Black => seq!['b', 'l', 'a', 'c', 'k'],
        Color::Red => seq!['r', 'e', 'd'],
        Color::Green => seq!['g', 'r', 'e', 'e', 'n'],
        Color::Yellow => seq!['y', 'e', 'l', 'l', 'o', 'w'],
        Color::Blue => seq!['b', 'l', 'u', 'e'],
        Color::Magenta => seq!['m', 'a', 'g', 'e', 'n', 't', 'a'],
        Color::Cyan => seq!['c', 'y', 'a', 'n'],
        Color::Gray => seq!['g', 'r', 'a', 'y'],
        Color::DarkGray => seq!['d', 'a', 'r', 'k', 'g', 'r', 'a', 'y'],
        Color::LightRed => seq!['l', 'i', 'g', 'h', 't', 'r', 'e', 'd'],
        Color::LightGreen => seq!['l', 'i', 'g', 'h', 't', 'g', 'r', 'e', 'e', 'n'],
        Color::LightYellow => seq!['l', 'i', 'g', 'h', 't', 'y', 'e', 'l', 'l', 'o', 'w'],
        Color::LightBlue => seq!['l', 'i', 'g', 'h', 't', 'b', 'l', 'u', 'e'],
        Color::LightMagenta => seq!['l', 'i', 'g', 'h', 't', 'm', 'a', 'g', 'e', 'n', 't', 'a'],
        Color::LightCyan => seq!['l', 'i', 'g', 'h', 't', 'c', 'y', 'a', 'n'],
        Color::White => seq!['w', 'h', 'i', 't', 'e'],
    });
}

/// The colours of the interface.
#[derive(Copy, Clone, Debug, PartialEq, Eq, Structural)]
pub struct InterfaceStyle {
    pub selected_fg: Color,
    pub selected_bg: Color,
    pub edit_fg: Color,
    pub edit_bg: Color,
    pub cursor_fg: Color,
    pub cursor_bg: Color,
}

impl Default for InterfaceStyle {
    fn default() -> (r: InterfaceStyle)
        ensures
            r == (InterfaceStyle {
                selected_fg: Color::White,
                selected_bg: Color::Blue,
                edit_fg: Color::White,
                edit_bg: Color::LightBlue,
                cursor_fg: Color::Black,
                cursor_bg: Color::White,
            }),
    {
        InterfaceStyle {
            selected_fg: Color::White,
            selected_bg: Color::Blue,
            edit_fg: Color::White,
            edit_bg: Color::LightBlue,
            cursor_fg: Color::Black,
            cursor_bg: Color::White,
        }
    }
}

/// How far and which way the view scrolls.
#[derive(Copy, Clone, Debug, PartialEq, Eq, Structural)]
pub struct NavigationSettings {
    pub scroll: usize,
    pub inverted: bool,
}

impl Default for NavigationSettings {
    fn default() -> (r: NavigationSettings)
        ensures
            r == (NavigationSettings { scroll: 0, inverted: false }),
    {
        NavigationSettings { scroll: 0, inverted: false }
    }
}

/// Where the database is kept.
#[derive(Clone, Debug, PartialEq, Eq)]
pub struct DatabaseSettings {
    pub path: String,
}

/// The columns to sort by, each with whether it is reversed.
#[derive(Clone, Debug, PartialEq, Eq)]
pub struct SortSettings {
    pub columns: Vec<(String, bool)>,
    pub is_sorted: bool,
}

impl Default for SortSettings {
    fn default() -> (r: SortSettings)
        ensures
            r.columns@.len() == 0,
            !r.is_sorted,
    {
        SortSettings { columns: Vec::new(), is_sorted: false }
    }
}

// ---------------------------------------------------------------------------
// The settings file's sections
// ---------------------------------------------------------------------------

/// The colours section: each colour by name, where given.
#[derive(Clone, Debug, PartialEq, Eq)]
pub struct TomlColors {
    pub selected_fg: Option<String>,
    pub selected_bg: Option<String>,
    pub edit_fg: Option<String>,
    pub edit_bg: Option<String>,
}

/// The colour a setting names, or `default` where it is missing or names none.
pub open spec fn setting_color(s: Option<String>, default: Color) -> Color {
    match s {
        Some(n) => color_or(n@, default),
        None => default,
    }
}

fn setting_color_of(s: &Option<String>, default: Color) -> (r: Color)
    ensures
        r == setting_color(*s, default),
{
    match s {
        Some(color) => str_to_color_or(color.as_str(), default),
        None => default,
    }
}

pub open spec fn name_view(s: Option<String>) -> Option<Seq<char>> {
    match s {
        Some(n) => Some(n@),
        None => None,
    }
}

impl Default for TomlColors {
    fn default() -> (r: TomlColors)
        ensures
            r.selected_fg is None,
            r.selected_bg is None,
            r.edit_fg is None,
            r.edit_bg is None,
    {
        TomlColors { selected_fg: None, selected_bg: None, edit_fg: None, edit_bg: None }
    }
}

impl TomlColors {
    /// The background of selected items (light blue by default).
    pub fn selected_bg(&self) -> (r: Color)
        ensures
            r == setting_color(self.selected_bg, Color::LightBlue),
    {
        setting_color_of(&self.selected_bg, Color::LightBlue)
    }

    /// The foreground of selected items (white by default).
    pub fn selected_fg(&self) -> (r: Color)
        ensures
            r == setting_color(self.selected_fg, Color::White),
    {
        setting_color_of(&self.selected_fg, Color::White)
    }

    /// The background of edited items (blue by default).
    pub fn edit_bg(&self) -> (r: Color)
        ensures
            r == setting_color(self.edit_bg, Color::Blue),
    {
        setting_color_of(&self.edit_bg, Color::Blue)
    }

    /// The foreground of edited items (white by default).
    pub fn edit_fg(&self) -> (r: Color)
        ensures
            r == setting_color(self.edit_fg, Color::White),
    {
        setting_color_of(&self.edit_fg, Color::White)
    }

    /// The section that writes the interface's colours by name.
    pub fn from_style(is: InterfaceStyle) -> (r: TomlColors)
        ensures
            name_view(r.selected_fg) == Some(color_name(is.selected_fg)),
            name_view(r.selected_bg) == Some(color_name(is.selected_bg)),
            name_view(r.edit_fg) == Some(color_name(is.edit_fg)),
            name_view(r.edit_bg) == Some(color_name(is.edit_bg)),
    {
        TomlColors {
            selected_fg: Some(color_to_string(is.selected_fg)),
            selected_bg: Some(color_to_string(is.selected_bg)),
            edit_fg: Some(color_to_string(is.edit_fg)),
            edit_bg: Some(color_to_string(is.edit_bg)),
        }
    }
}

impl From<TomlColors> for InterfaceStyle {
    /// The interface's colours from the section, the cursor's colours as by default.
    fn from(t: TomlColors) -> (r: InterfaceStyle) {
        InterfaceStyle {
            selected_fg: t.selected_fg(),
            selected_bg: t.selected_bg(),
            edit_fg: t.edit_fg(),
            edit_bg: t.edit_bg(),
            cursor_fg: Color::Black,
            cursor_bg: Color::White,
        }
    }
}

impl vstd::std_specs::convert::FromSpecImpl<TomlColors> for InterfaceStyle {
    open spec fn obeys_from_spec() -> bool {
        true
    }

    open spec fn from_spec(t: TomlColors) -> InterfaceStyle {
        InterfaceStyle {
            selected_fg: setting_color(t.selected_fg, Color::White),
            selected_bg: setting_color(t.selected_bg, Color::LightBlue),
            edit_fg: setting_color(t.edit_fg, Color::White),
            edit_bg: setting_color(t.edit_bg, Color::Blue),
            cursor_fg: Color::Black,
            cursor_bg: Color::White,
        }
    }
}

/// Writing the interface's colours and reading them back gives the same colours.
pub proof fn lemma_style_roundtrip(is: InterfaceStyle, t: TomlColors)
    requires
        name_view(t.selected_fg) == Some(color_name(is.selected_fg)),
        name_view(t.selected_bg) == Some(color_name(is.selected_bg)),
        name_view(t.edit_fg) == Some(color_name(is.edit_fg)),
        name_view(t.edit_bg) == Some(color_name(is.edit_bg)),
    ensures
        <InterfaceStyle as vstd::std_specs::convert::FromSpec<TomlColors>>::from_spec(t).selected_fg
            == is.selected_fg,
        <InterfaceStyle as vstd::std_specs::convert::FromSpec<TomlColors>>::from_spec(t).selected_bg
            == is.selected_bg,
        <InterfaceStyle as vstd::std_specs::convert::FromSpec<TomlColors>>::from_spec(t).edit_fg
            == is.edit_fg,
        <InterfaceStyle as vstd::std_specs::convert::FromSpec<TomlColors>>::from_spec(t).edit_bg
            == is.edit_bg,
{
    lemma_color_name_roundtrip(is.selected_fg, Color::White);
    lemma_color_name_roundtrip(is.selected_bg, Color::LightBlue);
    lemma_color_name_roundtrip(is.edit_fg, Color::White);
    lemma_color_name_roundtrip(is.edit_bg, Color::Blue);
}

/// The layout section: the columns shown, where given.
#[derive(Clone, Debug, PartialEq, Eq)]
pub struct TomlColumns {
    pub columns: Option<Vec<String>>,
}

pub open spec fn strs_view(v: Seq<String>) -> Seq<Seq<char>> {
    Seq::new(v.len(), |i: int| v[i]@)
}

impl Default for TomlColumns {
    fn default() -> (r: TomlColumns)
        ensures
            r.columns is None,
    {
        TomlColumns { columns: None }
    }
}

impl TomlColumns {
    /// The columns shown: those given, else title and authors.
    pub fn into_columns(self) -> (r: Vec<String>)
        ensures
            match self.columns {
                Some(v) => r@ == v@,
                None => strs_view(r@) == seq![
                    seq!['T', 'i', 't', 'l', 'e'],
                    seq!['A', 'u', 't', 'h', 'o', 'r', 's'],
                ],
            },
    {
        match self.columns {
            Some(s) => s,
            None => {
                let mut v: Vec<String> = Vec::new();
                v.push(string_from_chars(&['T', 'i', 't', 'l', 'e']));
                v.push(string_from_chars(&['A', 'u', 't', 'h', 'o', 'r', 's']));
                assert((&['T', 'i', 't', 'l', 'e'])@ =~= seq!['T', 'i', 't', 'l', 'e']);
                assert((&['A', 'u', 't', 'h', 'o', 'r', 's'])@ =~= seq![
                    'A',
                    'u',
                    't',
                    'h',
                    'o',
                    'r',
                    's',
                ]);
                assert(strs_view(v@) =~= seq![
                    seq!['T', 'i', 't', 'l', 'e'],
                    seq!['A', 'u', 't', 'h', 'o', 'r', 's'],
                ]);
                v
            },
        }
    }

    /// The section that writes the given columns.
    pub fn from_columns(vs: Vec<String>) -> (r: TomlColumns)
        ensures
            r.columns == Some(vs),
    {
        TomlColumns { columns: Some(vs) }
    }
}

/// The sorting section: the columns to sort by, each with whether it is reversed.
#[derive(Clone, Debug, PartialEq, Eq)]
pub struct TomlSort {
    pub columns: Option<Vec<(String, Option<bool>)>>,
}

impl Default for TomlSort {
    fn default() -> (r: TomlSort)
        ensures
            r.columns is None,
    {
        TomlSort { columns: None }
    }
}

pub open spec fn sort_entries_view(v: Seq<(String, Option<bool>)>) -> Seq<(Seq<char>, Option<bool>)> {
    Seq::new(v.len(), |i: int| (v[i].0@, v[i].1))
}

pub open spec fn sort_columns_view(v: Seq<(String, bool)>) -> Seq<(Seq<char>, bool)> {
    Seq::new(v.len(), |i: int| (v[i].0@, v[i].1))
}

pub open spec fn unwrap_false(b: Option<bool>) -> bool {
    match b {
        Some(x) => x,
        None => false,
    }
}

impl TomlSort {
    /// The sort settings: the columns given (not reversed unless said), sorted exactly when
    /// there are none.
    pub fn into_sort_settings(self) -> (r: SortSettings)
        ensures
            sort_columns_view(r.columns@) == (match self.columns {
                Some(v) => Seq::new(
                    v@.len(),
                    |i: int| (v@[i].0@, unwrap_false(v@[i].1)),
                ),
                None => Seq::empty(),
            }),
            r.is_sorted == (r.columns@.len() == 0),
    {
        let mut out: Vec<(String, bool)> = Vec::new();
        match self.columns {
            Some(v) => {
                let mut i: usize = 0;
                while i < v.len()
                    invariant
                        i <= v@.len(),
                        sort_columns_view(out@) =~= Seq::new(
                            i as nat,
                            |j: int| (v@[j].0@, unwrap_false(v@[j].1)),
                        ),
                    decreases v.len() - i,
                {
                    let r = match v[i].1 {
                        Some(x) => x,
                        None => false,
                    };
                    let ghost prev = sort_columns_view(out@);
                    out.push((copy_string(&v[i].0), r));
                    assert(sort_columns_view(out@) =~= prev.push((v@[i as int].0@, r)));
                    i = i + 1;
                }
            },
            None => {},
        }
        let is_sorted = out.len() == 0;
        SortSettings { is_sorted, columns: out }
    }

    /// The section that writes the sort settings' columns.
    pub fn from_sort_settings(s: SortSettings) -> (r: TomlSort)
        ensures
            r.columns matches Some(v) && sort_entries_view(v@) == Seq::new(
                s.columns@.len(),
                |i: int| (s.columns@[i].0@, Some(s.columns@[i].1)),
            ),
    {
        let mut out: Vec<(String, Option<bool>)> = Vec::new();
        let mut i: usize = 0;
        while i < s.columns.len()
            invariant
                i <= s.columns@.len(),
                sort_entries_view(out@) =~= Seq::new(
                    i as nat,
                    |j: int| (s.columns@[j].0@, Some(s.columns@[j].1)),
                ),
            decreases s.columns.len() - i,
        {
            let ghost prev = sort_entries_view(out@);
            out.push((copy_string(&s.columns[i].0), Some(s.columns[i].1)));
            assert(sort_entries_view(out@) =~= prev.push(
                (s.columns@[i as int].0@, Some(s.columns@[i as int].1)),
            ));
            i = i + 1;
        }
        TomlSort { columns: Some(out) }
    }
}

/// The navigation section.
#[derive(Copy, Clone, Debug, PartialEq, Eq, Structural)]
pub struct TomlNavigation {
    pub scroll: Option<usize>,
    pub inverted: Option<bool>,
}

impl Default for TomlNavigation {
    fn default() -> (r: TomlNavigation)
        ensures
            r == (TomlNavigation { scroll: Some(5), inverted: Some(false) }),
    {
        TomlNavigation { scroll: Some(5), inverted: Some(false) }
    }
}

impl From<TomlNavigation> for NavigationSettings {
    /// The navigation settings: scrolling by 5 and not inverted where not given.
    fn from(t: TomlNavigation) -> (r: NavigationSettings) {
        NavigationSettings {
            scroll: match t.scroll {
                Some(s) => s,
                None => 5,
            },
            inverted: match t.inverted {
                Some(i) => i,
                None => false,
            },
        }
    }
}

impl vstd::std_specs::convert::FromSpecImpl<TomlNavigation> for NavigationSettings {
    open spec fn obeys_from_spec() -> bool {
        true
    }

    open spec fn from_spec(t: TomlNavigation) -> NavigationSettings {
        NavigationSettings {
            scroll: match t.scroll {
                Some(s) => s,
                None => 5,
            },
            inverted: unwrap_false(t.inverted),
        }
    }
}

impl From<NavigationSettings> for TomlNavigation {
    fn from(n: NavigationSettings) -> (r: TomlNavigation) {
        TomlNavigation { scroll: Some(n.scroll), inverted: Some(n.inverted) }
    }
}

impl vstd::std_specs::convert::FromSpecImpl<NavigationSettings> for TomlNavigation {
    open spec fn obeys_from_spec() -> bool {
        true
    }

    open spec fn from_spec(n: NavigationSettings) -> TomlNavigation {
        TomlNavigation { scroll: Some(n.scroll), inverted: Some(n.inverted) }
    }
}

/// Writing the navigation settings and reading them back gives the same settings.
pub proof fn lemma_navigation_roundtrip(n: NavigationSettings)
    ensures
        <NavigationSettings as vstd::std_specs::convert::FromSpec<TomlNavigation>>::from_spec(
            <TomlNavigation as vstd::std_specs::convert::FromSpec<NavigationSettings>>::from_spec(n),
        ) == n,
{
}

} // verus!
