use vstd::prelude::*;

verus! {

/// An exact rational number `num / den`; well formed when `den > 0`.
pub struct Frac {
    pub num: int,
    pub den: int,
}

impl Frac {
    pub open spec fn wf(self) -> bool {
        self.den > 0
    }

    /// `1 - self`, over the same denominator.
    pub open spec fn complement(self) -> int {
        self.den - self.num
    }

    /// The product `self * other`.
    pub open spec fn times(self, other: Frac) -> Frac {
        Frac { num: self.num * other.num, den: self.den * other.den }
    }

    /// `self + other * (1 - self)`: the point reached from `self` after the
    /// fraction `other` of the remaining way to one.
    pub open spec fn advance(self, other: Frac) -> Frac {
        Frac {
            num: self.num * other.den + other.num * self.complement(),
            den: self.den * other.den,
        }
    }
}

/// A curve parameter `num / den`, with `den > 0`.
#[derive(Debug, Clone, Copy)]
pub struct Ratio {
    pub num: i64,
    pub den: i64,
}

impl View for Ratio {
    type V = Frac;

    open spec fn view(&self) -> Frac {
        Frac { num: self.num as int, den: self.den as int }
    }
}

impl Ratio {
    pub open spec fn wf(self) -> bool {
        self.den > 0
    }

    /// The parameter `num / den`.
    pub fn new(num: i64, den: i64) -> (r: Ratio)
        requires
            den > 0,
        ensures
            r@ == (Frac { num: num as int, den: den as int }),
            r.wf(),
    {
        Ratio { num, den }
    }
}

} // verus!
