//! Print orchestration and paper-geometry resolution for IPP printers.
//!
//! The crate holds the decisions of a print submission: which printers a
//! discovery response describes, whether a requested medium is supported,
//! which physical size a vendor's media name stands for, how a raster is
//! made ready for that size, and what a printer's answer to a submission
//! means. Network and file access stay with the caller.

pub mod attributes;
pub mod directory;
pub mod endpoint;
pub mod error;
pub mod image;
pub mod jobs;
pub mod paper;
pub mod printer;
pub mod printer_settings;
pub mod submission;
pub mod text;
