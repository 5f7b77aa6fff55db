//! Terminal coloring of status strings, painted by the `ansi_term` crate
//! behind exact contracts on the escape sequences it writes.

use vstd::prelude::*;

verus! {

/// `code` as a select-graphic-rendition sequence around `s`: the escape
/// introducer, the code, the final byte, the text, and the reset sequence.
pub open spec fn sgr_wrap(code: Seq<char>, s: Seq<char>) -> Seq<char> {
    seq!['\u{1b}', '['] + code + seq!['m'] + s + seq!['\u{1b}', '[', '0', 'm']
}

/// The code for a blue foreground.
pub open spec fn blue_code() -> Seq<char> {
    seq!['3', '4']
}

/// The code for a bold green foreground.
pub open spec fn green_bold_code() -> Seq<char> {
    seq!['1', ';', '3', '2']
}

/// The code for a yellow foreground.
pub open spec fn yellow_code() -> Seq<char> {
    seq!['3', '3']
}

/// The code for a red foreground.
pub open spec fn red_code() -> Seq<char> {
    seq!['3', '1']
}

/// The code for a cyan foreground.
pub open spec fn cyan_code() -> Seq<char> {
    seq!['3', '6']
}

/// Relies on `ansi_term::Colour::paint` (Blue) and the painted string's
/// Display: the text between the blue foreground sequence and the reset.
#[verifier::external_body]
fn paint_blue(s: &str) -> (r: String)
    ensures
        r@ == sgr_wrap(blue_code(), s@),
{
    ansi_term::Colour::Blue.paint(s).to_string()
}

/// Relies on `ansi_term::Style::paint` (bold green) and the painted
/// string's Display: the bold code, then the green foreground code.
#[verifier::external_body]
fn paint_green_bold(s: &str) -> (r: String)
    ensures
        r@ == sgr_wrap(green_bold_code(), s@),
{
    ansi_term::Colour::Green.bold().paint(s).to_string()
}

/// Relies on `ansi_term::Colour::paint` (Yellow) and the painted string's
/// Display.
#[verifier::external_body]
fn paint_yellow(s: &str) -> (r: String)
    ensures
        r@ == sgr_wrap(yellow_code(), s@),
{
    ansi_term::Colour::Yellow.paint(s).to_string()
}

/// Relies on `ansi_term::Colour::paint` (Red) and the painted string's
/// Display.
#[verifier::external_body]
fn paint_red(s: &str) -> (r: String)
    ensures
        r@ == sgr_wrap(red_code(), s@),
{
    ansi_term::Colour::Red.paint(s).to_string()
}

/// Relies on `ansi_term::Colour::paint` (Cyan) and the painted string's
/// Display.
#[verifier::external_body]
fn paint_cyan(s: &str) -> (r: String)
    ensures
        r@ == sgr_wrap(cyan_code(), s@),
{
    ansi_term::Colour::Cyan.paint(s).to_string()
}

/// The colorized form of a status string, decided by its first character:
/// informational blue, success bold green, redirection yellow, client and
/// server errors red, wildcard cyan, errors red; anything else unchanged.
pub open spec fn spec_colorized(status: Seq<char>) -> Seq<char> {
    if status.len() == 0 {
        status
    } else if status.first() == '1' {
        sgr_wrap(blue_code(), status)
    } else if status.first() == '2' {
        sgr_wrap(green_bold_code(), status)
    } else if status.first() == '3' {
        sgr_wrap(yellow_code(), status)
    } else if status.first() == '4' || status.first() == '5' || status.first() == 'E' {
        sgr_wrap(red_code(), status)
    } else if status.first() == 'W' {
        sgr_wrap(cyan_code(), status)
    } else {
        status
    }
}

/// Examine the first character of a status-like string and return the
/// same string painted in the matching color.
pub fn status_colorizer(status: &str) -> (r: String)
    ensures
        r@ == spec_colorized(status@),
{
    let n = status.unicode_len();
    if n == 0 {
        return String::from_str(status);
    }
    let c = status.get_char(0);
    if c == '1' {
        paint_blue(status)
    } else if c == '2' {
        paint_green_bold(status)
    } else if c == '3' {
        paint_yellow(status)
    } else if c == '4' {
        paint_red(status)
    } else if c == '5' {
        paint_red(status)
    } else if c == 'W' {
        paint_cyan(status)
    } else if c == 'E' {
        paint_red(status)
    } else {
        String::from_str(status)
    }
}

} // verus!
