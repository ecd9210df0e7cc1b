//! Terminal styling: bold text and colored text, as ANSI escape sequences.

use vstd::prelude::*;

use crate::text::decimal;

verus! {

/// The escape sequence that starts a control sequence.
pub open spec fn csi() -> Seq<char> {
    seq!['\u{1b}', '[']
}

/// The sequence that returns the terminal to its plain style.
pub open spec fn reset() -> Seq<char> {
    csi() + seq!['0', 'm']
}

/// `s` in bold.
pub open spec fn bold_text(s: Seq<char>) -> Seq<char> {
    csi() + seq!['1', 'm'] + s + reset()
}

/// `s` in the 24-bit foreground color `(r, g, b)`.
pub open spec fn rgb_text(r: u8, g: u8, b: u8, s: Seq<char>) -> Seq<char> {
    csi() + seq!['3', '8', ';', '2', ';'] + decimal(r as nat) + seq![';'] + decimal(g as nat)
        + seq![';'] + decimal(b as nat) + seq!['m'] + s + reset()
}

/// Relies on ansi_term's `Style::bold` and `Style::paint`, shown with
/// `to_string`: the bold code, the text, then the reset code.
#[verifier::external_body]
pub(crate) fn bold(s: &str) -> (r: String)
    ensures
        r@ == bold_text(s@),
{
    ansi_term::Style::new().bold().paint(s).to_string()
}

/// Relies on ansi_term's `Colour::RGB` and `Colour::paint`, shown with
/// `to_string`: the foreground code `38;2;r;g;b`, the text, then the reset code.
#[verifier::external_body]
pub(crate) fn paint_rgb(r: u8, g: u8, b: u8, s: &str) -> (res: String)
    ensures
        res@ == rgb_text(r, g, b, s@),
{
    ansi_term::Colour::RGB(r, g, b).paint(s).to_string()
}

} // verus!
