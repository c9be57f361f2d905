//! The log-line filter that hides the noise of probing upstream agents for
//! protocol extensions.

use vstd::prelude::*;

use crate::text::{seq_contains, str_contains};

verus! {

/// Filter that drops log records reporting an upstream extension failure.
///
/// Upstream agents are probed for the `session-bind@openssh.com` extension and
/// their failures are ignored, so those failures are not worth a log line.
pub struct SuppressExtensionFailure;

impl SuppressExtensionFailure {
    /// Whether a log record with this message is written.
    pub fn log_matches(message: &str) -> (r: bool)
        ensures
            r == !seq_contains(message@, "Extension failure handling message"@),
    {
        !str_contains(message, "Extension failure handling message")
    }
}

} // verus!
