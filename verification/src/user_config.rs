//! The part of the user's configuration that the token counter reads.

use vstd::prelude::*;

verus! {

/// The user's settings and bookkeeping around uploads. Times are seconds since
/// the Unix epoch; zero stands for never.
#[derive(Debug)]
pub struct UserConfig {
    /// Whether the user lets the counter be uploaded.
    pub upload_enabled: bool,
    /// Tokens counted since the last successful upload.
    pub pending_upload: u64,
    /// When the last upload succeeded.
    pub last_upload_at: i64,
    /// When an upload was last attempted, with or without success.
    pub last_flush_attempt_at: i64,
}

} // verus!
