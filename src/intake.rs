use vstd::prelude::*;

verus! {

/// Which ring slots of the intake are occupied.
#[derive(Clone, Copy, Debug, PartialEq, Eq, Structural)]
pub struct IntakeState {
    pub bottom_ring: bool,
    pub top_1_ring: bool,
    pub top_2_ring: bool,
}

/// The intake law that runs every roller at full speed to load a goal.
#[derive(Clone, Copy, Debug, PartialEq, Eq, Structural)]
pub struct LoadGoal;

impl LoadGoal {
    pub fn new() -> (r: Self)
        ensures
            r == LoadGoal,
    {
        LoadGoal
    }
}

} // verus!
