//! Small value types shared by the decoders.

use vstd::prelude::*;

verus! {

/// A pair of values, one for the left channel and one for the right.
#[derive(Clone, Copy, Debug, Default)]
pub struct Stereo<T> {
    pub l: T,
    pub r: T,
}

impl<T> Stereo<T> {
    /// A pair with the given left and right values.
    pub fn new(l: T, r: T) -> (s: Self)
        ensures
            s.l == l,
            s.r == r,
    {
        Stereo { l, r }
    }
}

} // verus!
