//! Clipboard-image change detection and normalization.
//!
//! Given raw RGBA pixel data read from the system clipboard, this library
//! decides whether it is a new image (versus a repeat of the previously seen
//! one) and, if new, produces a canonical losslessly compressed,
//! transport-encoded representation together with its dimensions.

pub mod config;
pub mod dedup;
pub mod errors;
pub mod fingerprint;
pub mod normalize;
