use vstd::prelude::*;

verus! {

/// Our team colour.
#[derive(Clone, Copy, Debug, PartialEq, Eq, Structural)]
pub enum Team {
    YELLOW,
    BLUE,
}

impl Default for Team {
    /// Yellow until the operator says otherwise.
    fn default() -> (r: Team)
        ensures
            r == Team::YELLOW,
    {
        Team::YELLOW
    }
}

/// The half of the field our goal is in.
#[derive(Clone, Copy, Debug, PartialEq, Eq, Structural)]
pub enum Site {
    PositiveX,
    NegativeX,
}

impl Default for Site {
    /// The positive x half until the operator says otherwise.
    fn default() -> (r: Site)
        ensures
            r == Site::PositiveX,
    {
        Site::PositiveX
    }
}

} // verus!
