//! Small helpers around the providers' wire formats and the terminal.

pub mod color;
pub mod serde_strint;
