//! What the formatter can be told: scope, threshold, colours and clock pattern.
use vstd::prelude::*;

use colored::Color;
use log::{Level, LevelFilter};

verus! {

/// The severity of a record, from `log`; its five variants are visible here.
#[verifier::external_type_specification]
pub struct ExLevel(log::Level);

/// The threshold of a logger, from `log`; its six variants are visible here.
#[verifier::external_type_specification]
pub struct ExLevelFilter(log::LevelFilter);

/// A terminal colour, from `colored`; its variants are visible here.
#[verifier::external_type_specification]
pub struct ExColor(colored::Color);

/// Rank of a severity: the more verbose, the higher.
pub open spec fn level_rank(level: Level) -> nat {
    match level {
        Level::Error => 1,
        Level::Warn => 2,
        Level::Info => 3,
        Level::Debug => 4,
        Level::Trace => 5,
    }
}

/// Rank of a threshold: a record passes when its own rank is at most this.
pub open spec fn filter_rank(filter: LevelFilter) -> nat {
    match filter {
        LevelFilter::Off => 0,
        LevelFilter::Error => 1,
        LevelFilter::Warn => 2,
        LevelFilter::Info => 3,
        LevelFilter::Debug => 4,
        LevelFilter::Trace => 5,
    }
}

/// Settings of the formatter, fixed once it is built.
pub struct LoggerConfig {
    /// Restricts output to one module; `None` admits every module.
    pub module: Option<&'static str>,
    /// The most verbose severity that is still written.
    pub level: LevelFilter,
    /// Colour of the sequence number.
    pub num_color: Color,
    /// Colour of the time.
    pub timestamp_color: Color,
    /// A `chrono` strftime pattern for the wall-clock time.
    pub timestamp_format: &'static str,
    /// Colour of the file path.
    pub file_color: Color,
    /// Colour of the `:line` suffix.
    pub line_color: Color,
}

/// The colour of the time and of the line number by default.
pub open spec fn dark_blue() -> Color {
    Color::TrueColor { r: 50, g: 100, b: 150 }
}

/// The colour of the file name by default.
pub open spec fn dark_grey() -> Color {
    Color::TrueColor { r: 100, g: 100, b: 100 }
}

impl Default for LoggerConfig {
    fn default() -> (r: Self)
        ensures
            r.module is None,
            r.level == LevelFilter::Info,
            r.num_color == Color::BrightBlack,
            r.timestamp_color == dark_blue(),
            r.timestamp_format@ == "%H:%M:%S"@,
            r.file_color == dark_grey(),
            r.line_color == dark_blue(),
    {
        let dark_blue = Color::TrueColor { r: 50, g: 100, b: 150 };
        let dark_grey = Color::TrueColor { r: 100, g: 100, b: 100 };
        LoggerConfig {
            module: None,
            level: LevelFilter::Info,
            num_color: Color::BrightBlack,
            timestamp_format: "%H:%M:%S",
            file_color: dark_grey,
            line_color: dark_blue,
            timestamp_color: dark_blue,
        }
    }
}

} // verus!
