use vstd::prelude::*;
use vstd::string::*;
use crate::Level;
use crate::text::repeated;

verus! {

/// A terminal foreground color, one of the standard and bright ANSI colors
/// the renderer uses.
#[derive(Clone, Copy, PartialEq, Eq, Structural, Debug)]
pub enum Color {
    Red,
    Green,
    Yellow,
    Blue,
    Magenta,
    Cyan,
    White,
    BrightBlack,
    BrightRed,
    BrightGreen,
    BrightYellow,
    BrightBlue,
    BrightMagenta,
    BrightCyan,
}

/// The SGR escape prefix that switches the foreground to `c`.
pub open spec fn fg_prefix(c: Color) -> Seq<char> {
    match c {
        Color::Red => seq!['\x1b', '[', '3', '1', 'm'],
        Color::Green => seq!['\x1b', '[', '3', '2', 'm'],
        Color::Yellow => seq!['\x1b', '[', '3', '3', 'm'],
        Color::Blue => seq!['\x1b', '[', '3', '4', 'm'],
        Color::Magenta => seq!['\x1b', '[', '3', '5', 'm'],
        Color::Cyan => seq!['\x1b', '[', '3', '6', 'm'],
        Color::White => seq!['\x1b', '[', '3', '7', 'm'],
        Color::BrightBlack => seq!['\x1b', '[', '9', '0', 'm'],
        Color::BrightRed => seq!['\x1b', '[', '9', '1', 'm'],
        Color::BrightGreen => seq!['\x1b', '[', '9', '2', 'm'],
        Color::BrightYellow => seq!['\x1b', '[', '9', '3', 'm'],
        Color::BrightBlue => seq!['\x1b', '[', '9', '4', 'm'],
        Color::BrightMagenta => seq!['\x1b', '[', '9', '5', 'm'],
        Color::BrightCyan => seq!['\x1b', '[', '9', '6', 'm'],
    }
}

/// The SGR escape that resets all attributes.
pub open spec fn sgr_reset() -> Seq<char> {
    seq!['\x1b', '[', '0', 'm']
}

/// `s` wrapped in the SGR codes that display it in color `c`.
pub open spec fn colorize_spec(s: Seq<char>, c: Color) -> Seq<char> {
    fg_prefix(c) + s + sgr_reset()
}

fn fg_prefix_str(c: Color) -> (r: &'static str)
    ensures
        r@ == fg_prefix(c),
{
    match c {
        Color::Red => {
            proof { reveal_strlit("\x1b[31m"); }
            "\x1b[31m"
        },
        Color::Green => {
            proof { reveal_strlit("\x1b[32m"); }
            "\x1b[32m"
        },
        Color::Yellow => {
            proof { reveal_strlit("\x1b[33m"); }
            "\x1b[33m"
        },
        Color::Blue => {
            proof { reveal_strlit("\x1b[34m"); }
            "\x1b[34m"
        },
        Color::Magenta => {
            proof { reveal_strlit("\x1b[35m"); }
            "\x1b[35m"
        },
        Color::Cyan => {
            proof { reveal_strlit("\x1b[36m"); }
            "\x1b[36m"
        },
        Color::White => {
            proof { reveal_strlit("\x1b[37m"); }
            "\x1b[37m"
        },
        Color::BrightBlack => {
            proof { reveal_strlit("\x1b[90m"); }
            "\x1b[90m"
        },
        Color::BrightRed => {
            proof { reveal_strlit("\x1b[91m"); }
            "\x1b[91m"
        },
        Color::BrightGreen => {
            proof { reveal_strlit("\x1b[92m"); }
            "\x1b[92m"
        },
        Color::BrightYellow => {
            proof { reveal_strlit("\x1b[93m"); }
            "\x1b[93m"
        },
        Color::BrightBlue => {
            proof { reveal_strlit("\x1b[94m"); }
            "\x1b[94m"
        },
        Color::BrightMagenta => {
            proof { reveal_strlit("\x1b[95m"); }
            "\x1b[95m"
        },
        Color::BrightCyan => {
            proof { reveal_strlit("\x1b[96m"); }
            "\x1b[96m"
        },
    }
}

/// `s` wrapped in the SGR codes that display it in color `c`.
pub fn colorize(s: &str, c: Color) -> (r: String)
    ensures
        r@ == colorize_spec(s@, c),
{
    let mut r = String::from_str(fg_prefix_str(c));
    r.append(s);
    proof { reveal_strlit("\x1b[0m"); }
    r.append("\x1b[0m");
    proof {
        assert(r@ =~= colorize_spec(s@, c));
    }
    r
}

/// The fixed-width severity badge for `l`: a one-letter label on a colored
/// background for known levels, a plain four-space blank for `Unknown`.
pub open spec fn badge_spec(l: Level) -> Seq<char> {
    match l {
        Level::Verbose => seq!['\x1b', '[', '1', ';', '3', '0', ';', '4', '4', 'm', ' ', 'V', ' ',
            '\x1b', '[', '0', 'm'],
        Level::Debug => seq!['\x1b', '[', '1', ';', '3', '0', ';', '1', '0', '0', 'm', ' ', 'D',
            ' ', '\x1b', '[', '0', 'm'],
        Level::Info => seq!['\x1b', '[', '1', ';', '3', '0', ';', '4', '2', 'm', ' ', 'I', ' ',
            '\x1b', '[', '0', 'm'],
        Level::Warn => seq!['\x1b', '[', '1', ';', '3', '0', ';', '4', '3', 'm', ' ', 'W', ' ',
            '\x1b', '[', '0', 'm'],
        Level::Error => seq!['\x1b', '[', '1', ';', '3', '0', ';', '4', '1', 'm', ' ', 'E', ' ',
            '\x1b', '[', '0', 'm'],
        Level::Fatal => seq!['\x1b', '[', '1', ';', '3', '0', ';', '1', '0', '1', 'm', ' ', 'F',
            ' ', '\x1b', '[', '0', 'm'],
        Level::Unknown => repeated(' ', 4),
    }
}

/// The message color that belongs to severity `l`.
pub open spec fn level_color_spec(l: Level) -> Color {
    match l {
        Level::Verbose => Color::Blue,
        Level::Debug => Color::BrightBlack,
        Level::Info => Color::Green,
        Level::Warn => Color::Yellow,
        Level::Error => Color::Red,
        Level::Fatal => Color::BrightRed,
        Level::Unknown => Color::White,
    }
}

/// The severity badge and message color for `level`.
pub fn get_level_color(level: Level) -> (r: (String, Color))
    ensures
        r.0@ == badge_spec(level),
        r.1 == level_color_spec(level),
{
    match level {
        Level::Verbose => {
            proof { reveal_strlit("\x1b[1;30;44m V \x1b[0m"); }
            let b = String::from_str("\x1b[1;30;44m V \x1b[0m");
            proof { assert(b@ =~= badge_spec(level)); }
            (b, Color::Blue)
        },
        Level::Debug => {
            proof { reveal_strlit("\x1b[1;30;100m D \x1b[0m"); }
            let b = String::from_str("\x1b[1;30;100m D \x1b[0m");
            proof { assert(b@ =~= badge_spec(level)); }
            (b, Color::BrightBlack)
        },
        Level::Info => {
            proof { reveal_strlit("\x1b[1;30;42m I \x1b[0m"); }
            let b = String::from_str("\x1b[1;30;42m I \x1b[0m");
            proof { assert(b@ =~= badge_spec(level)); }
            (b, Color::Green)
        },
        Level::Warn => {
            proof { reveal_strlit("\x1b[1;30;43m W \x1b[0m"); }
            let b = String::from_str("\x1b[1;30;43m W \x1b[0m");
            proof { assert(b@ =~= badge_spec(level)); }
            (b, Color::Yellow)
        },
        Level::Error => {
            proof { reveal_strlit("\x1b[1;30;41m E \x1b[0m"); }
            let b = String::from_str("\x1b[1;30;41m E \x1b[0m");
            proof { assert(b@ =~= badge_spec(level)); }
            (b, Color::Red)
        },
        Level::Fatal => {
            proof { reveal_strlit("\x1b[1;30;101m F \x1b[0m"); }
            let b = String::from_str("\x1b[1;30;101m F \x1b[0m");
            proof { assert(b@ =~= badge_spec(level)); }
            (b, Color::BrightRed)
        },
        Level::Unknown => {
            proof { reveal_strlit("    "); }
            let b = String::from_str("    ");
            proof { assert(b@ =~= badge_spec(level)); }
            (b, Color::White)
        },
    }
}

/// The fixed palette that tag colors are drawn from, by index, cycling
/// every twelve entries.
pub open spec fn palette_color(i: int) -> Color {
    let j = i % 12;
    if j == 0 { Color::Red }
    else if j == 1 { Color::Green }
    else if j == 2 { Color::Yellow }
    else if j == 3 { Color::Blue }
    else if j == 4 { Color::Magenta }
    else if j == 5 { Color::Cyan }
    else if j == 6 { Color::BrightRed }
    else if j == 7 { Color::BrightGreen }
    else if j == 8 { Color::BrightYellow }
    else if j == 9 { Color::BrightBlue }
    else if j == 10 { Color::BrightMagenta }
    else { Color::BrightCyan }
}

/// The palette color at index `i`.
pub fn palette_color_at(i: usize) -> (c: Color)
    ensures
        c == palette_color(i as int),
{
    let j = i % 12;
    if j == 0 { Color::Red }
    else if j == 1 { Color::Green }
    else if j == 2 { Color::Yellow }
    else if j == 3 { Color::Blue }
    else if j == 4 { Color::Magenta }
    else if j == 5 { Color::Cyan }
    else if j == 6 { Color::BrightRed }
    else if j == 7 { Color::BrightGreen }
    else if j == 8 { Color::BrightYellow }
    else if j == 9 { Color::BrightBlue }
    else if j == 10 { Color::BrightMagenta }
    else { Color::BrightCyan }
}

} // verus!
