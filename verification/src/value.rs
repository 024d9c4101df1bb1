//! The tagged integer slot that the machine's stack holds.

use vstd::prelude::*;

verus! {

/// The tag of a slot that carries no variable name.
pub const ANONYMOUS: char = ' ';

/// One slot of the stack: an amount, and the name of the variable it is bound
/// to (`ANONYMOUS` for a value that was just loaded or computed).
#[derive(Debug, Clone, Copy, PartialEq, Eq, Structural)]
pub struct Data {
    pub var: char,
    pub val: isize,
}

/// Whether `n` can be held in a slot.
pub open spec fn fits(n: int) -> bool {
    isize::MIN <= n <= isize::MAX
}

/// Integer division that rounds towards zero.
pub open spec fn quotient(dividend: int, divisor: int) -> int
    recommends
        divisor != 0,
{
    if dividend >= 0 && divisor > 0 {
        dividend / divisor
    } else if dividend < 0 && divisor < 0 {
        (-dividend) / (-divisor)
    } else if dividend < 0 {
        -((-dividend) / divisor)
    } else {
        -(dividend / (-divisor))
    }
}

impl Data {
    /// An anonymous slot holding `val`.
    pub fn anonymous(val: isize) -> (r: Data)
        ensures
            r == (Data { var: ANONYMOUS, val }),
    {
        Data { var: ANONYMOUS, val }
    }
}

impl core::ops::Add for Data {
    type Output = Data;

    /// The sum of two slots, anonymous.
    fn add(self, rhs: Data) -> (r: Data) {
        Data { var: ANONYMOUS, val: self.val + rhs.val }
    }
}

impl vstd::std_specs::ops::AddSpecImpl for Data {
    open spec fn obeys_add_spec() -> bool {
        true
    }

    open spec fn add_req(self, rhs: Data) -> bool {
        fits(self.val + rhs.val)
    }

    open spec fn add_spec(self, rhs: Data) -> Data {
        Data { var: ANONYMOUS, val: (self.val + rhs.val) as isize }
    }
}

impl core::ops::Mul for Data {
    type Output = Data;

    /// The product of two slots, anonymous.
    fn mul(self, rhs: Data) -> (r: Data) {
        Data { var: ANONYMOUS, val: self.val * rhs.val }
    }
}

impl vstd::std_specs::ops::MulSpecImpl for Data {
    open spec fn obeys_mul_spec() -> bool {
        true
    }

    open spec fn mul_req(self, rhs: Data) -> bool {
        fits(self.val * rhs.val)
    }

    open spec fn mul_spec(self, rhs: Data) -> Data {
        Data { var: ANONYMOUS, val: (self.val * rhs.val) as isize }
    }
}

impl core::ops::Sub for Data {
    type Output = Data;

    /// `self` less `rhs`, anonymous.
    fn sub(self, rhs: Data) -> (r: Data) {
        Data { var: ANONYMOUS, val: self.val - rhs.val }
    }
}

impl vstd::std_specs::ops::SubSpecImpl for Data {
    open spec fn obeys_sub_spec() -> bool {
        true
    }

    open spec fn sub_req(self, rhs: Data) -> bool {
        fits(self.val - rhs.val)
    }

    open spec fn sub_spec(self, rhs: Data) -> Data {
        Data { var: ANONYMOUS, val: (self.val - rhs.val) as isize }
    }
}

impl core::ops::Div for Data {
    type Output = Data;

    /// `self` divided by `rhs`, rounded towards zero, anonymous.
    fn div(self, rhs: Data) -> (r: Data) {
        Data { var: ANONYMOUS, val: self.val.checked_div(rhs.val).unwrap() }
    }
}

impl vstd::std_specs::ops::DivSpecImpl for Data {
    open spec fn obeys_div_spec() -> bool {
        true
    }

    open spec fn div_req(self, rhs: Data) -> bool {
        rhs.val != 0 && fits(quotient(self.val as int, rhs.val as int))
    }

    open spec fn div_spec(self, rhs: Data) -> Data {
        Data { var: ANONYMOUS, val: (quotient(self.val as int, rhs.val as int)) as isize }
    }
}

} // verus!
