//! The failures that a render or ingestion cycle can end in.

use vstd::prelude::*;

verus! {

/// What can go wrong while ingesting points or rendering a frame.
#[derive(Debug)]
pub enum Error {
    /// The point source could not be read or parsed; carries the reason.
    Generic(String),
    /// The watched point source was removed.
    FileRemoved,
    /// The background image does not have the canvas's dimensions; carries
    /// a description of both sizes.
    ImageSizeError(String),
    /// The shared snapshot could not be locked.
    StateGuardError,
    /// The canvas or the grid is structurally invalid: a zero-sized canvas or
    /// a zero cell size.
    ConfigurationError,
}

impl Error {
    /// The text shown for this error.
    pub open spec fn spec_message(self) -> Seq<char> {
        match self {
            Error::Generic(msg) => "Error: "@ + msg@,
            Error::FileRemoved => "File was removed"@,
            Error::ImageSizeError(msg) => "Image size error, "@ + msg@,
            Error::StateGuardError => "Shared state access error"@,
            Error::ConfigurationError => "Invalid canvas or grid configuration"@,
        }
    }

    /// Whether this error ends the whole pipeline rather than one cycle.
    pub open spec fn spec_is_fatal(self) -> bool {
        self is FileRemoved || self is ConfigurationError
    }

    /// The text shown for this error.
    pub fn message(&self) -> (text: String)
        ensures
            text@ == self.spec_message(),
    {
        match self {
            Error::Generic(msg) => String::from_str("Error: ").concat(msg.as_str()),
            Error::FileRemoved => String::from_str("File was removed"),
            Error::ImageSizeError(msg) => String::from_str("Image size error, ").concat(
                msg.as_str(),
            ),
            Error::StateGuardError => String::from_str("Shared state access error"),
            Error::ConfigurationError => String::from_str("Invalid canvas or grid configuration"),
        }
    }

    /// Whether this error ends the whole pipeline rather than one cycle: a
    /// removed source and an invalid configuration do, errors confined to one
    /// ingestion or render cycle do not.
    pub fn is_fatal(&self) -> (fatal: bool)
        ensures
            fatal == self.spec_is_fatal(),
    {
        match self {
            Error::FileRemoved => true,
            Error::ConfigurationError => true,
            _ => false,
        }
    }
}


/// The character of one decimal digit.
pub open spec fn digit_char(d: nat) -> char {
    if d == 0 {
        '0'
    } else if d == 1 {
        '1'
    } else if d == 2 {
        '2'
    } else if d == 3 {
        '3'
    } else if d == 4 {
        '4'
    } else if d == 5 {
        '5'
    } else if d == 6 {
        '6'
    } else if d == 7 {
        '7'
    } else if d == 8 {
        '8'
    } else {
        '9'
    }
}

/// A number written in decimal, without sign or leading zeros.
pub open spec fn decimal_text(n: nat) -> Seq<char>
    decreases n,
{
    if n < 10 {
        seq![digit_char(n)]
    } else {
        decimal_text(n / 10).push(digit_char(n % 10))
    }
}

/// The description of a background whose size differs from the canvas's.
pub open spec fn size_mismatch_text(expected: (u32, u32), got: (u32, u32)) -> Seq<char> {
    "Background image size does not match: expected "@ + decimal_text(expected.0 as nat) + "x"@
        + decimal_text(expected.1 as nat) + ", got "@ + decimal_text(got.0 as nat) + "x"@
        + decimal_text(got.1 as nat)
}

/// The text of one decimal digit.
fn digit_text(d: u32) -> (text: &'static str)
    requires
        d < 10,
    ensures
        text@ == seq![digit_char(d as nat)],
{
    proof {
        reveal_strlit("0");
        reveal_strlit("1");
        reveal_strlit("2");
        reveal_strlit("3");
        reveal_strlit("4");
        reveal_strlit("5");
        reveal_strlit("6");
        reveal_strlit("7");
        reveal_strlit("8");
        reveal_strlit("9");
    }
    let text = if d == 0 {
        "0"
    } else if d == 1 {
        "1"
    } else if d == 2 {
        "2"
    } else if d == 3 {
        "3"
    } else if d == 4 {
        "4"
    } else if d == 5 {
        "5"
    } else if d == 6 {
        "6"
    } else if d == 7 {
        "7"
    } else if d == 8 {
        "8"
    } else {
        "9"
    };
    assert(text@ =~= seq![digit_char(d as nat)]);
    text
}

/// Appends `n` in decimal to `text`.
fn append_decimal(text: &mut String, n: u32)
    ensures
        final(text)@ == old(text)@ + decimal_text(n as nat),
    decreases n,
{
    if n >= 10 {
        append_decimal(text, n / 10);
    }
    text.append(digit_text(n % 10));
    assert(text@ =~= old(text)@ + decimal_text(n as nat));
}

/// The error for a background of size `got` where the canvas has size
/// `expected`, both as `(width, height)`.
pub fn size_mismatch(expected: (u32, u32), got: (u32, u32)) -> (err: Error)
    ensures
        err matches Error::ImageSizeError(text) && text@ == size_mismatch_text(expected, got),
{
    let mut text = String::from_str("Background image size does not match: expected ");
    append_decimal(&mut text, expected.0);
    text.append("x");
    append_decimal(&mut text, expected.1);
    text.append(", got ");
    append_decimal(&mut text, got.0);
    text.append("x");
    append_decimal(&mut text, got.1);
    Error::ImageSizeError(text)
}

} // verus!
