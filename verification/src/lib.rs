//! A label-scoped, filterable, colorized console logger.
//!
//! Each [`Logger`] carries a hierarchical label, a display color derived
//! deterministically from that label, an ordered set of filter rules parsed
//! once at construction, and a timestamp of its last emitted line. A log call
//! first consults the filter rules; when the label is admitted, the call
//! composes one line of colorized label, message and elapsed-time suffix and
//! writes it to standard output.

pub mod color;
pub mod filter;
pub mod logger;
pub mod text;

pub use color::ansi_256_from_hex;
pub use color::colorize;
pub use color::rgb_to_ansi256;
pub use color::scale_to_ansi;
pub use color::xterm_color_index_for_string;
pub use filter::parse_filter;
pub use filter::FilterRule;
pub use logger::LogFn;
pub use logger::Logger;
