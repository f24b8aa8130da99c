//! The calls this library makes into `colored`, `chrono`, `log` and std's formatting.
use vstd::prelude::*;

use std::fmt::Write;

use colored::{Color, Colorize};
use log::{Level, LevelFilter};

use crate::config::{filter_rank, level_rank};
use crate::render::decimal;

verus! {

/// The control sequence that ends a colour.
pub open spec fn reset_code() -> Seq<char> {
    seq!['\x1b', '[', '0', 'm']
}

/// The control sequence that starts the colour with the given parameter text.
pub open spec fn color_open(code: Seq<char>) -> Seq<char> {
    seq!['\x1b', '['] + code + seq!['m']
}

/// `out` shows `text`: either as it is, or between a colour's opening sequence and a reset.
pub open spec fn painted(out: Seq<char>, text: Seq<char>) -> bool {
    out == text || exists|code: Seq<char>|
        out == #[trigger] color_open(code) + text + reset_code()
}

/// Relies on `Colorize::color` and `ColoredString`'s `Display` (colored 3): the text comes
/// back unchanged when colouring is off, else as `ESC[<code>m` + text + `ESC[0m`. Whether
/// colouring is on depends on the environment and the terminal.
#[verifier::external_body]
pub(crate) fn paint(text: &str, color: Color) -> (r: String)
    ensures
        !text@.contains('\x1b') ==> painted(r@, text@),
{
    text.color(color).to_string()
}

/// Relies on `chrono::Local::now` and `DateTime::format`: the local time now, written by
/// the strftime `pattern`; `None` where the pattern holds a specifier chrono rejects.
/// Text without a `%` is copied as it is.
#[verifier::external_body]
pub(crate) fn local_time_text(pattern: &str) -> (r: Option<String>)
    ensures
        !pattern@.contains('%') ==> r is Some && r->0@ == pattern@,
{
    let mut out = String::new();
    match write!(out, "{}", chrono::Local::now().format(pattern)) {
        Ok(()) => Some(out),
        Err(_) => None,
    }
}

/// Relies on std's `Display` for `u64`: base ten, no sign, no leading zeros.
#[verifier::external_body]
pub(crate) fn decimal_text(n: u64) -> (r: String)
    ensures
        r@ == decimal(n as nat),
{
    format!("{}", n)
}

/// Relies on `log`'s `PartialOrd<LevelFilter> for Level`, which compares the two ranks.
#[verifier::external_body]
pub(crate) fn admits(filter: LevelFilter, level: Level) -> (r: bool)
    ensures
        r == (level_rank(level) <= filter_rank(filter)),
{
    level <= filter
}

} // verus!
