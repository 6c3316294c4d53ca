//! Application configuration: history limits and the autostart flag.
//!
//! The host shell persists this as JSON; the library only defines the record
//! and its default values.

use vstd::prelude::*;

verus! {

/// Default cap on the number of text history entries.
pub fn default_max_text_history() -> (n: u32)
    ensures
        n == 500,
{
    500
}

/// Default cap on the number of image history entries.
pub fn default_max_image_history() -> (n: u32)
    ensures
        n == 30,
{
    30
}

/// Whether the application registers itself to start with the session by default.
pub fn default_auto_start() -> (b: bool)
    ensures
        b,
{
    true
}

/// User-visible settings of the host application.
#[derive(Debug, Clone, Copy, PartialEq, Eq, Structural)]
pub struct AppConfig {
    /// Maximum number of text history entries kept.
    pub max_text_history: u32,
    /// Maximum number of image history entries kept.
    pub max_image_history: u32,
    /// Start the application with the session.
    pub auto_start: bool,
}

impl Default for AppConfig {
    fn default() -> (c: Self)
        ensures
            c == (AppConfig { max_text_history: 500, max_image_history: 30, auto_start: true }),
    {
        AppConfig {
            max_text_history: default_max_text_history(),
            max_image_history: default_max_image_history(),
            auto_start: default_auto_start(),
        }
    }
}

} // verus!
