//! The choices that a run is started with.

use vstd::prelude::*;

verus! {

/// The kind of record that a file without sections holds.
#[derive(Debug, Clone, Copy, PartialEq, Eq, Structural)]
pub enum ResourceType {
    Objective,
    Epic,
    Story,
}

/// How the run reports.
#[derive(Debug, Clone, Copy, PartialEq, Eq, Structural)]
pub enum OutputFormat {
    /// For people.
    Text,
    /// One JSON record per line.
    Json,
}

} // verus!
