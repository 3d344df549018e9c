//! Rounding of sizes to a multiple.

use vstd::prelude::*;

verus! {

/// The largest multiple of `multiple` that is not above `n`.
pub open spec fn round_down(n: int, multiple: int) -> int {
    (n / multiple) * multiple
}

/// The smallest multiple of `multiple` that is not below `n`.
pub open spec fn round_up(n: int, multiple: int) -> int {
    if n % multiple == 0 {
        n
    } else {
        (n / multiple + 1) * multiple
    }
}

/// Rounding to a multiple, for the integer types that sizes are counted in.
pub trait Round: Copy {
    /// The number that the value stands for.
    spec fn amount(self) -> int;

    /// Whether the type can hold `n`.
    spec fn holds(n: int) -> bool;

    /// Rounds up to a multiple of `multiple`.
    fn up(self, multiple: Self) -> (r: Self)
        requires
            multiple.amount() > 0,
            Self::holds(round_up(self.amount(), multiple.amount())),
        ensures
            r.amount() == round_up(self.amount(), multiple.amount()),
    ;

    /// Rounds down to a multiple of `multiple`.
    fn down(self, multiple: Self) -> (r: Self)
        requires
            multiple.amount() > 0,
        ensures
            r.amount() == round_down(self.amount(), multiple.amount()),
    ;
}

impl Round for usize {
    open spec fn amount(self) -> int {
        self as int
    }

    open spec fn holds(n: int) -> bool {
        0 <= n <= usize::MAX
    }

    fn up(self, multiple: Self) -> (r: Self) {
        let quotient: usize = self / multiple;
        let rest: usize = self % multiple;
        proof {
            lemma_division(self as int, multiple as int);
        }
        if rest == 0 {
            self
        } else {
            (quotient + 1) * multiple
        }
    }

    fn down(self, multiple: Self) -> (r: Self) {
        let quotient: usize = self / multiple;
        proof {
            lemma_division(self as int, multiple as int);
        }
        quotient * multiple
    }
}

/// A number is its quotient times the divisor plus its remainder, and both
/// parts stay within the number.
pub proof fn lemma_division(n: int, d: int)
    requires
        0 <= n,
        0 < d,
    ensures
        n == (n / d) * d + n % d,
        0 <= n % d < d,
        0 <= (n / d) * d <= n,
        0 <= n / d,
        (n / d + 1) * d == (n / d) * d + d,
{
    vstd::arithmetic::div_mod::lemma_fundamental_div_mod(n, d);
    vstd::arithmetic::div_mod::lemma_mod_bound(n, d);
    vstd::arithmetic::div_mod::lemma_div_pos_is_pos(n, d);
    assert((n / d) * d == d * (n / d)) by (nonlinear_arith);
    assert((n / d + 1) * d == (n / d) * d + d) by (nonlinear_arith);
}

} // verus!
