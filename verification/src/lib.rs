//! Terminal presentation core of the zond network reconnaissance tool.

pub mod text;
pub mod cli;
pub mod net;
pub mod style;
pub mod layout;
pub mod host;
pub mod format;
pub mod insights;
pub mod netfmt;
pub mod info;
pub mod logging;
pub mod spinner;
pub mod input;
pub mod commands;
