//! The smallest possible entity: one raw value cell and one derived field
//! computed by mapping it, useful as the minimal exercise of the
//! cell-then-derive pattern.

use vstd::prelude::*;

verus! {

/// An entity with one raw cell `a` and one derived field `a_squared`.
pub struct MyStruct {
    pub a: u64,
}

impl MyStruct {
    /// A fresh entity with the given raw value.
    pub fn new(a: u64) -> (s: MyStruct)
        ensures
            s.a == a,
    {
        MyStruct { a }
    }

    /// Current value of the raw cell.
    pub fn a(&self) -> (r: u64)
        ensures
            r == self.a,
    {
        self.a
    }

    /// The derived field: the square of the current raw value, recomputed
    /// from the cell on every observation.
    pub fn a_squared(&self) -> (r: u128)
        ensures
            r as int == self.a * self.a,
    {
        proof {
            assert((self.a as int) * (self.a as int)
                < 0x1_0000_0000_0000_0000_0000_0000_0000_0000) by (nonlinear_arith)
                requires
                    0 <= self.a < 0x1_0000_0000_0000_0000,
            ;
        }
        (self.a as u128) * (self.a as u128)
    }
}

} // verus!
