use vstd::prelude::*;

verus! {

/// A value that can tell whether all of its bytes are zero.
pub trait IsZero {
    /// Every byte of the value is zero.
    spec fn all_zero(&self) -> bool;

    fn is_zero(&self) -> (r: bool)
        ensures
            r == self.all_zero(),
    ;
}

} // verus!
