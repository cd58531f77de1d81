use vstd::prelude::*;

verus! {

/// A request for the game controller.
#[derive(Debug, Clone, Copy, PartialEq, Eq, Structural)]
pub enum GCTask {
    Substitution,
    Goalie,
}

/// Why a game-controller request could not be handed over.
#[derive(Debug, Clone, Copy, PartialEq, Eq, Structural)]
pub enum GcSendError {
    Unavailable,
}

/// Hands a request for `robot_id` to the game controller. Requests are
/// accepted without further action.
pub fn gc_sender(robot_id: u16, task: GCTask) -> (r: Result<(), GcSendError>)
    ensures
        r is Ok,
{
    Ok(())
}

} // verus!
