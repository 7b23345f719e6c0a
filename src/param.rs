use vstd::prelude::*;

verus! {

/// A rational ray parameter `num / den`, used for the bounds of a trace;
/// well formed when `den > 0`.
#[derive(Clone, Copy, Debug, PartialEq, Eq, Structural)]
pub struct Param {
    pub num: i32,
    pub den: i32,
}

impl Param {
    pub open spec fn wf(self) -> bool {
        self.den > 0
    }

    /// The parameter `num / den`.
    pub fn new(num: i32, den: i32) -> (p: Param)
        requires
            den > 0,
        ensures
            p.num == num,
            p.den == den,
            p.wf(),
    {
        Param { num, den }
    }
}

} // verus!
