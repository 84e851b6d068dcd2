//! Terminal colors: the ANSI escape code of each named color. Writing to
//! the terminal is outside work; the codes themselves are values this
//! library pins down.
use vstd::prelude::*;

verus! {

/// The named colors the client prints with.
pub enum Color {
    Red,
    Green,
    Yellow,
    Blue,
    Cyan,
    Magenta,
    Gray,
    Reset,
    BrightRed,
    BrightGreen,
    BrightYellow,
    BrightBlue,
    BrightCyan,
    BrightMagenta,
    BrightWhite,
    DeepSkyBlue,
    Turquoise,
    SeaGreen,
    Orange,
    Purple,
    Pink,
    Lime,
    Gold,
}

impl Color {
    /// The ANSI escape sequence of this color.
    pub open spec fn spec_code(&self) -> Seq<char> {
        match self {
            Color::Red => "\u{1b}[31m"@,
            Color::Green => "\u{1b}[32m"@,
            Color::Yellow => "\u{1b}[33m"@,
            Color::Blue => "\u{1b}[34m"@,
            Color::Cyan => "\u{1b}[36m"@,
            Color::Magenta => "\u{1b}[35m"@,
            Color::Gray => "\u{1b}[90m"@,
            Color::Reset => "\u{1b}[0m"@,
            Color::BrightRed => "\u{1b}[91m"@,
            Color::BrightGreen => "\u{1b}[92m"@,
            Color::BrightYellow => "\u{1b}[93m"@,
            Color::BrightBlue => "\u{1b}[94m"@,
            Color::BrightCyan => "\u{1b}[96m"@,
            Color::BrightMagenta => "\u{1b}[95m"@,
            Color::BrightWhite => "\u{1b}[97m"@,
            Color::DeepSkyBlue => "\u{1b}[38;5;39m"@,
            Color::Turquoise => "\u{1b}[38;5;45m"@,
            Color::SeaGreen => "\u{1b}[38;5;23m"@,
            Color::Orange => "\u{1b}[38;5;208m"@,
            Color::Purple => "\u{1b}[38;5;129m"@,
            Color::Pink => "\u{1b}[38;5;206m"@,
            Color::Lime => "\u{1b}[38;5;154m"@,
            Color::Gold => "\u{1b}[38;5;220m"@,
        }
    }

    /// The ANSI escape sequence of this color.
    pub fn code(&self) -> (r: &'static str)
        ensures
            r@ == self.spec_code(),
    {
        match self {
            Color::Red => "\u{1b}[31m",
            Color::Green => "\u{1b}[32m",
            Color::Yellow => "\u{1b}[33m",
            Color::Blue => "\u{1b}[34m",
            Color::Cyan => "\u{1b}[36m",
            Color::Magenta => "\u{1b}[35m",
            Color::Gray => "\u{1b}[90m",
            Color::Reset => "\u{1b}[0m",
            Color::BrightRed => "\u{1b}[91m",
            Color::BrightGreen => "\u{1b}[92m",
            Color::BrightYellow => "\u{1b}[93m",
            Color::BrightBlue => "\u{1b}[94m",
            Color::BrightCyan => "\u{1b}[96m",
            Color::BrightMagenta => "\u{1b}[95m",
            Color::BrightWhite => "\u{1b}[97m",
            Color::DeepSkyBlue => "\u{1b}[38;5;39m",
            Color::Turquoise => "\u{1b}[38;5;45m",
            Color::SeaGreen => "\u{1b}[38;5;23m",
            Color::Orange => "\u{1b}[38;5;208m",
            Color::Purple => "\u{1b}[38;5;129m",
            Color::Pink => "\u{1b}[38;5;206m",
            Color::Lime => "\u{1b}[38;5;154m",
            Color::Gold => "\u{1b}[38;5;220m",
        }
    }
}

} // verus!
