use vstd::prelude::*;

verus! {

/// The vegetation of one grid cell. The enumeration is closed: a transition
/// can never produce anything outside these three states.
#[derive(Copy, Clone, Debug, PartialEq, Eq, Structural)]
pub enum VegetationState {
    Green,
    Burning,
    Empty,
}

/// An integer position on the grid. Immutable value; equality and hashing by
/// value. `i32` comfortably covers the supported extents (600 x 800 and
/// larger) without overflow.
#[derive(Copy, Clone, Debug, PartialEq, Eq, Hash, Structural)]
pub struct Coordinate {
    pub x: i32,
    pub y: i32,
}

/// The unit of simulation: a vegetation state at a fixed position. The
/// coordinate identifies the cell's place in the grid and never changes
/// independently of it.
#[derive(Copy, Clone, Debug, PartialEq, Eq, Structural)]
pub struct Cell {
    pub state: VegetationState,
    pub coordinate: Coordinate,
}

/// The error taxonomy of the automaton core.
#[derive(Copy, Clone, Debug, PartialEq, Eq, Structural)]
pub enum FireError {
    /// A requested coordinate lies outside the configured grid extent.
    OutOfBounds,
    /// Grid width or height is zero or negative, an initial generation has
    /// the wrong length, or a probability parameter lies outside [0, 1].
    InvalidConfiguration,
}

/// A probability expressed as the exact ratio `num / den`, so that the
/// stochastic draws need no floating point. Well-formed values lie in [0, 1].
#[derive(Copy, Clone, Debug, PartialEq, Eq, Structural)]
pub struct Probability {
    pub num: u32,
    pub den: u32,
}

impl Probability {
    /// The denominator is positive and the ratio lies in [0, 1].
    pub open spec fn wf(self) -> bool {
        1 <= self.den && self.num <= self.den
    }

    /// Validates a ratio; fails with `InvalidConfiguration` exactly when it
    /// does not describe a probability in [0, 1].
    pub fn new(num: u32, den: u32) -> (r: Result<Probability, FireError>)
        ensures
            r is Ok <==> (1 <= den && num <= den),
            r is Ok ==> r->Ok_0 == (Probability { num, den }) && r->Ok_0.wf(),
            r is Err ==> r->Err_0 == FireError::InvalidConfiguration,
    {
        if 1 <= den && num <= den {
            Ok(Probability { num, den })
        } else {
            Err(FireError::InvalidConfiguration)
        }
    }
}

} // verus!
