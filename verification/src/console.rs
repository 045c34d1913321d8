use vstd::prelude::*;

verus! {

/// The sixteen colours of the VGA text mode, in the order of their numbers.
#[derive(Clone, Copy, Debug, PartialEq, Eq, Structural)]
pub enum Color {
    Black,
    Blue,
    Green,
    Cyan,
    Red,
    Magenta,
    Brown,
    LightGray,
    DarkGray,
    LightBlue,
    LightGreen,
    LightCyan,
    LightRed,
    Pink,
    Yellow,
    White,
}

/// The number of a VGA text-mode colour.
pub open spec fn spec_color_number(c: Color) -> u8 {
    match c {
        Color::Black => 0,
        Color::Blue => 1,
        Color::Green => 2,
        Color::Cyan => 3,
        Color::Red => 4,
        Color::Magenta => 5,
        Color::Brown => 6,
        Color::LightGray => 7,
        Color::DarkGray => 8,
        Color::LightBlue => 9,
        Color::LightGreen => 10,
        Color::LightCyan => 11,
        Color::LightRed => 12,
        Color::Pink => 13,
        Color::Yellow => 14,
        Color::White => 15,
    }
}

/// The number of a VGA text-mode colour.
pub fn color_number(c: Color) -> (n: u8)
    ensures
        n == spec_color_number(c),
        n < 16,
{
    match c {
        Color::Black => 0,
        Color::Blue => 1,
        Color::Green => 2,
        Color::Cyan => 3,
        Color::Red => 4,
        Color::Magenta => 5,
        Color::Brown => 6,
        Color::LightGray => 7,
        Color::DarkGray => 8,
        Color::LightBlue => 9,
        Color::LightGreen => 10,
        Color::LightCyan => 11,
        Color::LightRed => 12,
        Color::Pink => 13,
        Color::Yellow => 14,
        Color::White => 15,
    }
}

/// The sixteen colours of the VGA text mode, listed in the order of the
/// hardware palette: the three low bits of a colour's place are its blue,
/// green and red components, the fourth its intensity.
pub open spec fn vga_palette_order() -> Seq<Color> {
    seq![
        Color::Black,
        Color::Blue,
        Color::Green,
        Color::Cyan,
        Color::Red,
        Color::Magenta,
        Color::Brown,
        Color::LightGray,
        Color::DarkGray,
        Color::LightBlue,
        Color::LightGreen,
        Color::LightCyan,
        Color::LightRed,
        Color::Pink,
        Color::Yellow,
        Color::White,
    ]
}

/// A colour's number is its place in the VGA palette order, so different
/// colours have different numbers and every number below 16 names one
/// colour; each light colour is its dark colour with the intensity bit (8)
/// set, and cyan, magenta, brown and light gray mix the blue (1), green (2)
/// and red (4) bits of their components.
pub proof fn lemma_color_number_is_palette_place(c: Color, d: Color)
    ensures
        spec_color_number(c) < 16,
        vga_palette_order()[spec_color_number(c) as int] == c,
        spec_color_number(c) == spec_color_number(d) ==> c == d,
        spec_color_number(Color::LightBlue) == spec_color_number(Color::Blue) + 8,
        spec_color_number(Color::LightGreen) == spec_color_number(Color::Green) + 8,
        spec_color_number(Color::LightCyan) == spec_color_number(Color::Cyan) + 8,
        spec_color_number(Color::LightRed) == spec_color_number(Color::Red) + 8,
        spec_color_number(Color::Pink) == spec_color_number(Color::Magenta) + 8,
        spec_color_number(Color::Yellow) == spec_color_number(Color::Brown) + 8,
        spec_color_number(Color::DarkGray) == spec_color_number(Color::Black) + 8,
        spec_color_number(Color::White) == spec_color_number(Color::LightGray) + 8,
        spec_color_number(Color::Cyan) == spec_color_number(Color::Blue) + spec_color_number(
            Color::Green,
        ),
        spec_color_number(Color::Magenta) == spec_color_number(Color::Blue) + spec_color_number(
            Color::Red,
        ),
        spec_color_number(Color::Brown) == spec_color_number(Color::Green) + spec_color_number(
            Color::Red,
        ),
        spec_color_number(Color::LightGray) == spec_color_number(Color::Blue) + spec_color_number(
            Color::Green,
        ) + spec_color_number(Color::Red),
        spec_color_number(Color::Black) == 0,
        spec_color_number(Color::Blue) == 1,
        spec_color_number(Color::Green) == 2,
        spec_color_number(Color::Red) == 4,
{
}

/// The sixteen colours a console is written in; they index a console's palette.
#[derive(Clone, Copy, Debug, PartialEq, Eq, Structural)]
pub enum ConsoleColor {
    Black,
    Red,
    Green,
    Yellow,
    Blue,
    Magenta,
    Cyan,
    White,
    BrightBlack,
    BrightRed,
    BrightGreen,
    BrightYellow,
    BrightBlue,
    BrightMagenta,
    BrightCyan,
    BrightWhite,
}

/// The palette index of a console colour.
pub open spec fn spec_console_color_index(c: ConsoleColor) -> usize {
    match c {
        ConsoleColor::Black => 0,
        ConsoleColor::Red => 1,
        ConsoleColor::Green => 2,
        ConsoleColor::Yellow => 3,
        ConsoleColor::Blue => 4,
        ConsoleColor::Magenta => 5,
        ConsoleColor::Cyan => 6,
        ConsoleColor::White => 7,
        ConsoleColor::BrightBlack => 8,
        ConsoleColor::BrightRed => 9,
        ConsoleColor::BrightGreen => 10,
        ConsoleColor::BrightYellow => 11,
        ConsoleColor::BrightBlue => 12,
        ConsoleColor::BrightMagenta => 13,
        ConsoleColor::BrightCyan => 14,
        ConsoleColor::BrightWhite => 15,
    }
}

/// The palette index of a console colour.
pub fn console_color_index(c: ConsoleColor) -> (i: usize)
    ensures
        i == spec_console_color_index(c),
        i < 16,
{
    match c {
        ConsoleColor::Black => 0,
        ConsoleColor::Red => 1,
        ConsoleColor::Green => 2,
        ConsoleColor::Yellow => 3,
        ConsoleColor::Blue => 4,
        ConsoleColor::Magenta => 5,
        ConsoleColor::Cyan => 6,
        ConsoleColor::White => 7,
        ConsoleColor::BrightBlack => 8,
        ConsoleColor::BrightRed => 9,
        ConsoleColor::BrightGreen => 10,
        ConsoleColor::BrightYellow => 11,
        ConsoleColor::BrightBlue => 12,
        ConsoleColor::BrightMagenta => 13,
        ConsoleColor::BrightCyan => 14,
        ConsoleColor::BrightWhite => 15,
    }
}

} // verus!
