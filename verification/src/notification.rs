//! Notifications sent to connected clients.
use vstd::prelude::*;

verus! {

/// A notification to clients.
#[derive(Debug, Clone, Copy, PartialEq, Eq)]
pub enum Notification {
    /// The list of tools changed.
    ToolsListChanged,
}

} // verus!
