//! A literal-pattern line search: command-line tokens are sorted into options,
//! pattern and file arguments, and each line of text is matched against the
//! pattern and cut into plain and highlighted segments.

pub mod classify;
pub mod error;
pub mod files;
pub mod options;
pub mod render;
pub mod scan;
pub mod search;
pub mod text;
