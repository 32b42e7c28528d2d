use vstd::prelude::*;

verus! {

/// Why a borrow was refused.
#[derive(Clone, Copy, Debug, PartialEq, Eq, Structural)]
pub enum Error {
    /// The index is not below the current length.
    OutOfBounds,
    /// The borrow would alias one that is outstanding.
    Aliasing,
}

impl Error {
    /// A human-readable description of the error.
    pub fn message(&self) -> (r: &'static str)
        ensures
            *self == Error::OutOfBounds ==> r@ == "Out of bounds index"@,
            *self == Error::Aliasing ==> r@ == "Borrow would lead to illegal aliasing"@,
    {
        match self {
            Error::OutOfBounds => "Out of bounds index",
            Error::Aliasing => "Borrow would lead to illegal aliasing",
        }
    }
}

} // verus!
