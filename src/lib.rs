//! A log-line formatter that numbers every record it renders.
pub mod config;
pub mod foreign;
pub mod logger;
pub mod render;

pub use colored::Color;
pub use config::LoggerConfig;
pub use logger::CustomStatefulLogger;
pub use render::LINE_CONTINUATION;
pub use log::{Level, LevelFilter};
