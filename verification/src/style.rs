//! The byte form of each style directive, taken from the terminal styling
//! collaborator.
//!
//! The renderer only ever asks for a directive's printable token and
//! concatenates what comes back; the exact escape sequences below are the
//! collaborator's, stated here so contracts can speak of output bytes.

use vstd::prelude::*;
use crate::event::StyleDirective;

verus! {

/// The token that clears every active style.
pub open spec fn reset_token() -> Seq<char> {
    "\u{1b}[m"@
}

/// The printable token of one style directive.
pub open spec fn token_of(d: StyleDirective) -> Seq<char> {
    match d {
        StyleDirective::Bold => "\u{1b}[1m"@,
        StyleDirective::Italic => "\u{1b}[3m"@,
        StyleDirective::NoItalic => "\u{1b}[23m"@,
        StyleDirective::FgBlue => "\u{1b}[38;5;4m"@,
        StyleDirective::FgYellow => "\u{1b}[38;5;3m"@,
        StyleDirective::FgLightBlack => "\u{1b}[38;5;8m"@,
    }
}

/// Relies on `termion::style::Reset`: its `Display` writes the fixed
/// sequence `ESC [ m`.
#[verifier::external_body]
fn termion_reset() -> (r: String)
    ensures
        r@ == reset_token(),
{
    format!("{}", termion::style::Reset)
}

/// Relies on `termion::style::Bold`: its `Display` writes the fixed
/// sequence `ESC [ 1 m`.
#[verifier::external_body]
fn termion_bold() -> (r: String)
    ensures
        r@ == token_of(StyleDirective::Bold),
{
    format!("{}", termion::style::Bold)
}

/// Relies on `termion::style::Italic`: its `Display` writes the fixed
/// sequence `ESC [ 3 m`.
#[verifier::external_body]
fn termion_italic() -> (r: String)
    ensures
        r@ == token_of(StyleDirective::Italic),
{
    format!("{}", termion::style::Italic)
}

/// Relies on `termion::style::NoItalic`: its `Display` writes the fixed
/// sequence `ESC [ 23 m`.
#[verifier::external_body]
fn termion_no_italic() -> (r: String)
    ensures
        r@ == token_of(StyleDirective::NoItalic),
{
    format!("{}", termion::style::NoItalic)
}

/// Relies on `termion::color::Blue::fg_str`: it returns the fixed
/// foreground sequence `ESC [ 38;5;4 m` whatever the environment holds.
#[verifier::external_body]
fn termion_fg_blue() -> (r: String)
    ensures
        r@ == token_of(StyleDirective::FgBlue),
{
    termion::color::Blue.fg_str().to_string()
}

/// Relies on `termion::color::Yellow::fg_str`: it returns the fixed
/// foreground sequence `ESC [ 38;5;3 m` whatever the environment holds.
#[verifier::external_body]
fn termion_fg_yellow() -> (r: String)
    ensures
        r@ == token_of(StyleDirective::FgYellow),
{
    termion::color::Yellow.fg_str().to_string()
}

/// Relies on `termion::color::LightBlack::fg_str`: it returns the fixed
/// foreground sequence `ESC [ 38;5;8 m` whatever the environment holds.
#[verifier::external_body]
fn termion_fg_light_black() -> (r: String)
    ensures
        r@ == token_of(StyleDirective::FgLightBlack),
{
    termion::color::LightBlack.fg_str().to_string()
}

/// The reset token as text.
pub fn reset_text() -> (r: String)
    ensures
        r@ == reset_token(),
{
    termion_reset()
}

/// The printable token of `d` as text.
pub fn style_text(d: StyleDirective) -> (r: String)
    ensures
        r@ == token_of(d),
{
    match d {
        StyleDirective::Bold => termion_bold(),
        StyleDirective::Italic => termion_italic(),
        StyleDirective::NoItalic => termion_no_italic(),
        StyleDirective::FgBlue => termion_fg_blue(),
        StyleDirective::FgYellow => termion_fg_yellow(),
        StyleDirective::FgLightBlack => termion_fg_light_black(),
    }
}

} // verus!
