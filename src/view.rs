use vstd::prelude::*;
use vstd::view::View as _;

verus! {

/// Which quantity of a cell the render kernel colourises.
#[derive(Clone, Copy, Debug, PartialEq, Eq, Structural)]
pub enum View {
    Pressure,
    Velocity,
    Divergance,
}

impl View {
    /// The code of this view in the render uniform (0, 1 or 2).
    pub open spec fn code_spec(self) -> u32 {
        match self {
            View::Pressure => 0,
            View::Velocity => 1,
            View::Divergance => 2,
        }
    }

    /// The view that the keyboard cycle moves to: Pressure and Velocity
    /// alternate, and Divergence returns to Pressure.
    pub open spec fn next_spec(self) -> View {
        match self {
            View::Pressure => View::Velocity,
            _ => View::Pressure,
        }
    }

    /// Moves to the next view of the keyboard cycle.
    pub fn next(&mut self)
        ensures
            *final(self) == old(self).next_spec(),
    {
        *self = match *self {
            View::Pressure => View::Velocity,
            _ => View::Pressure,
        };
    }

    /// The name shown for this view.
    pub fn name(&self) -> (r: &'static str)
        ensures
            r@ == match *self {
                View::Pressure => "Pressure"@,
                View::Velocity => "Velocity"@,
                View::Divergance => "Divergence"@,
            },
    {
        match self {
            View::Pressure => "Pressure",
            View::Velocity => "Velocity",
            View::Divergance => "Divergence",
        }
    }

    /// The code of this view in the render uniform, which is also the index
    /// of its gain.
    pub fn code(&self) -> (r: u32)
        ensures
            r == self.code_spec(),
    {
        match self {
            View::Pressure => 0,
            View::Velocity => 1,
            View::Divergance => 2,
        }
    }
}

} // verus!
