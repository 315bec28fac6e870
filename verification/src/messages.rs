//! Messages between the parts of a front end that shows runs.

use vstd::prelude::*;

verus! {

/// What a front end tells one of its tasks.
#[derive(Debug, Copy, Clone, PartialEq, Eq, Structural)]
pub enum TaskMessage {
    /// Run the task.
    Run,
}

} // verus!
