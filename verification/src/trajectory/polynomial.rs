use vstd::prelude::*;

verus! {

/// Type of trajectory interpolation polynomial.
#[derive(Debug, Clone, Copy, PartialEq, Eq, Structural)]
pub enum PolynomialType {
    /// 3rd order polynomial (specifies position and velocity boundary conditions).
    Cubic,
    /// 5th order polynomial (specifies position, velocity, and acceleration; minimum jerk).
    Quintic,
}

} // verus!
