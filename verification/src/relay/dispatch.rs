//! Which relay operation a request asks for.

use crate::model::{DaemonRequest, OpError};
use crate::text::str_eq;
use vstd::prelude::*;

verus! {

/// An operation of the relay.
#[derive(PartialEq, Eq, Structural, Clone, Copy, Debug)]
pub enum RelayOperation {
    /// Record a decision.
    Decide,
    /// Report what waits for an actor.
    Status,
    /// Remind an actor of what waits, or hand it to the user.
    Remind,
}

/// Which relay operation a request asks for; none where it asks for something else.
pub fn handle(request: &DaemonRequest) -> (r: Option<RelayOperation>)
    ensures
        r == if request@.op == "coordination_decide"@ {
            Some(RelayOperation::Decide)
        } else if request@.op == "coordination_relay_status"@ {
            Some(RelayOperation::Status)
        } else if request@.op == "coordination_relay_remind"@ {
            Some(RelayOperation::Remind)
        } else {
            None
        },
{
    if str_eq(request.op.as_str(), "coordination_decide") {
        Some(RelayOperation::Decide)
    } else if str_eq(request.op.as_str(), "coordination_relay_status") {
        Some(RelayOperation::Status)
    } else if str_eq(request.op.as_str(), "coordination_relay_remind") {
        Some(RelayOperation::Remind)
    } else {
        None
    }
}

/// Runs an operation under the lock of a group's relay: where the lock was not taken, it is not
/// run. `lock` says how taking the lock went.
pub fn with_relay_lock<T, F: FnOnce() -> Result<T, OpError>>(
    lock: Result<(), OpError>,
    operation: F,
) -> (r: Result<T, OpError>)
    requires
        operation.requires(()),
    ensures
        match lock {
            Ok(_) => operation.ensures((), r),
            Err(e) => r == Err::<T, OpError>(e),
        },
{
    match lock {
        Ok(_) => operation(),
        Err(e) => Err(e),
    }
}

} // verus!
