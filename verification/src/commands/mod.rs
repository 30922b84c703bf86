//! The three operations on an archive: taking it, applying it, checking it.

pub mod check;
pub mod export;
pub mod import;

pub use check::CheckCommand;
pub use export::ExportCommand;
pub use import::ImportCommand;
