//! Strings as the system takes them: sequences of 16-bit units.

pub mod environment;
pub mod inheritance;
pub mod ordering;
pub mod quoting;
pub mod splitting;
pub mod text;
pub mod wide;
