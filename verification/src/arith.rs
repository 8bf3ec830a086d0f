//! The arithmetic that the engine asks of its host.

use vstd::prelude::*;

verus! {

/// Single-precision arithmetic on encoded numbers.
///
/// The engine decides which numbers are combined and where results go; the
/// host computes. Every method takes and returns IEEE-754 binary32 bit
/// patterns and is expected to round as the format prescribes. Nothing is
/// assumed of the results: the engine's contracts say which results of
/// which operations end up where, and hold for every implementation.
pub trait Arithmetic {
    /// `a + b`.
    fn sum(&self, a: u32, b: u32) -> u32;

    /// `a - b`.
    fn difference(&self, a: u32, b: u32) -> u32;

    /// `a * b`.
    fn product(&self, a: u32, b: u32) -> u32;

    /// `a / b`.
    fn quotient(&self, a: u32, b: u32) -> u32;

    /// The square root of `a`.
    fn square_root(&self, a: u32) -> u32;

    /// The angle of the vector `(x, y)` against the positive x axis.
    fn angle(&self, y: u32, x: u32) -> u32;

    /// The cosine of the angle `a`.
    fn cosine(&self, a: u32) -> u32;

    /// The sine of the angle `a`.
    fn sine(&self, a: u32) -> u32;

    /// The number nearest to the whole number `n`.
    fn whole(&self, n: u32) -> u32;
}

/// Whether `r` is what `math` gives for `a + b`.
#[verifier::inline]
pub open spec fn is_sum<A: Arithmetic>(math: &A, a: u32, b: u32, r: u32) -> bool {
    call_ensures(A::sum, (math, a, b), r)
}

/// Whether `r` is what `math` gives for `a - b`.
#[verifier::inline]
pub open spec fn is_difference<A: Arithmetic>(math: &A, a: u32, b: u32, r: u32) -> bool {
    call_ensures(A::difference, (math, a, b), r)
}

/// Whether `r` is what `math` gives for `a * b`.
#[verifier::inline]
pub open spec fn is_product<A: Arithmetic>(math: &A, a: u32, b: u32, r: u32) -> bool {
    call_ensures(A::product, (math, a, b), r)
}

/// Whether `r` is what `math` gives for `a / b`.
#[verifier::inline]
pub open spec fn is_quotient<A: Arithmetic>(math: &A, a: u32, b: u32, r: u32) -> bool {
    call_ensures(A::quotient, (math, a, b), r)
}

/// Whether `r` is what `math` gives for the square root of `a`.
#[verifier::inline]
pub open spec fn is_square_root<A: Arithmetic>(math: &A, a: u32, r: u32) -> bool {
    call_ensures(A::square_root, (math, a), r)
}

/// Whether `r` is what `math` gives for the angle of `(x, y)`.
#[verifier::inline]
pub open spec fn is_angle<A: Arithmetic>(math: &A, y: u32, x: u32, r: u32) -> bool {
    call_ensures(A::angle, (math, y, x), r)
}

/// Whether `r` is what `math` gives for the cosine of `a`.
#[verifier::inline]
pub open spec fn is_cosine<A: Arithmetic>(math: &A, a: u32, r: u32) -> bool {
    call_ensures(A::cosine, (math, a), r)
}

/// Whether `r` is what `math` gives for the sine of `a`.
#[verifier::inline]
pub open spec fn is_sine<A: Arithmetic>(math: &A, a: u32, r: u32) -> bool {
    call_ensures(A::sine, (math, a), r)
}

/// Whether `r` is what `math` gives for the whole number `n`.
#[verifier::inline]
pub open spec fn is_whole<A: Arithmetic>(math: &A, n: u32, r: u32) -> bool {
    call_ensures(A::whole, (math, n), r)
}

} // verus!
