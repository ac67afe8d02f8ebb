//! Line-oriented concatenation of byte streams with optional display
//! transformations: line numbering, visible tabs, end-of-line markers and
//! squeezing of repeated blank lines.
//!
//! `process_args` turns an argument vector into a `Config` and a list of
//! `Source`s. `print_lines` passes the bytes of one source through the
//! transformer, and `concatenate` does so for a list of sources. The
//! module `model` says what is written, and `laws` holds what is proved of
//! it for every input.

pub mod args;
pub mod ascii;
pub mod config;
pub mod counter;
pub mod laws;
pub mod lines;
pub mod model;
pub mod report;
pub mod transform;

pub use crate::args::{process_args, Invocation};
pub use crate::config::{Config, Source};
pub use crate::counter::LineCounter;
pub use crate::report::{source_diagnostic, usage_diagnostic, Failure, Outcome};
pub use crate::transform::{
    concatenate, print_line, print_lines, write_visible_tabs, TransformerState,
};
