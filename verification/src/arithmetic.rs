//! The arithmetic of the number type a field is evaluated in.
//!
//! The library computes with scalars that it cannot look into. Whoever
//! evaluates a field brings the operations, and every contract of the library
//! says which operations were applied to what, in which order.

use vstd::prelude::*;

verus! {

/// The operations on scalars that the library needs. Every operation accepts
/// every input. The library assumes nothing of what an operation returns: its
/// contracts speak of the returned values as such.
pub trait Arithmetic<S> {
    /// The scalar zero.
    fn zero(&self) -> S;

    /// The scalar of a whole number.
    fn from_count(&self, count: u32) -> S;

    /// The sum of two scalars.
    fn add(&self, a: S, b: S) -> S;

    /// The first scalar less the second.
    fn subtract(&self, a: S, b: S) -> S;

    /// The product of two scalars.
    fn multiply(&self, a: S, b: S) -> S;

    /// The first scalar over the second.
    fn divide(&self, a: S, b: S) -> S;

    /// The square of a scalar.
    fn square(&self, a: S) -> S;

    /// The square root of a scalar.
    fn root(&self, a: S) -> S;

    /// The angle of the vector with the components `x` and `y`.
    fn arctangent(&self, y: S, x: S) -> S;

    /// Whether the first scalar is less than the second.
    fn less(&self, a: S, b: S) -> bool;

    /// Whether the first scalar is at least the second.
    fn at_least(&self, a: S, b: S) -> bool;

    /// Whether the first scalar is at most the second.
    fn at_most(&self, a: S, b: S) -> bool;
}

/// `r` is what the arithmetic may give as zero.
pub open spec fn zero_is<S, A: Arithmetic<S>>(arithmetic: A, r: S) -> bool {
    call_ensures(A::zero, (&arithmetic,), r)
}

/// `r` is what the arithmetic may give as the scalar of `count`.
pub open spec fn counts<S, A: Arithmetic<S>>(arithmetic: A, count: u32, r: S) -> bool {
    call_ensures(A::from_count, (&arithmetic, count), r)
}

/// `r` is what the arithmetic may give as `a` plus `b`.
pub open spec fn adds<S, A: Arithmetic<S>>(arithmetic: A, a: S, b: S, r: S) -> bool {
    call_ensures(A::add, (&arithmetic, a, b), r)
}

/// `r` is what the arithmetic may give as `a` less `b`.
pub open spec fn subtracts<S, A: Arithmetic<S>>(arithmetic: A, a: S, b: S, r: S) -> bool {
    call_ensures(A::subtract, (&arithmetic, a, b), r)
}

/// `r` is what the arithmetic may give as `a` times `b`.
pub open spec fn multiplies<S, A: Arithmetic<S>>(arithmetic: A, a: S, b: S, r: S) -> bool {
    call_ensures(A::multiply, (&arithmetic, a, b), r)
}

/// `r` is what the arithmetic may give as `a` over `b`.
pub open spec fn divides<S, A: Arithmetic<S>>(arithmetic: A, a: S, b: S, r: S) -> bool {
    call_ensures(A::divide, (&arithmetic, a, b), r)
}

/// `r` is what the arithmetic may give as the square of `a`.
pub open spec fn squares<S, A: Arithmetic<S>>(arithmetic: A, a: S, r: S) -> bool {
    call_ensures(A::square, (&arithmetic, a), r)
}

/// `r` is what the arithmetic may give as the square root of `a`.
pub open spec fn roots<S, A: Arithmetic<S>>(arithmetic: A, a: S, r: S) -> bool {
    call_ensures(A::root, (&arithmetic, a), r)
}

/// `r` is what the arithmetic may give as the angle of the vector with the
/// components `x` and `y`.
pub open spec fn angles<S, A: Arithmetic<S>>(arithmetic: A, y: S, x: S, r: S) -> bool {
    call_ensures(A::arctangent, (&arithmetic, y, x), r)
}

/// `r` is what the arithmetic may answer to whether `a` is less than `b`.
pub open spec fn tells_less<S, A: Arithmetic<S>>(arithmetic: A, a: S, b: S, r: bool) -> bool {
    call_ensures(A::less, (&arithmetic, a, b), r)
}

/// `r` is what the arithmetic may answer to whether `a` is at least `b`.
pub open spec fn tells_at_least<S, A: Arithmetic<S>>(arithmetic: A, a: S, b: S, r: bool) -> bool {
    call_ensures(A::at_least, (&arithmetic, a, b), r)
}

/// `r` is what the arithmetic may answer to whether `a` is at most `b`.
pub open spec fn tells_at_most<S, A: Arithmetic<S>>(arithmetic: A, a: S, b: S, r: bool) -> bool {
    call_ensures(A::at_most, (&arithmetic, a, b), r)
}

/// Zero, sum and product are `zero`, `plus` and `times`, and nothing else.
pub open spec fn computes<S, A: Arithmetic<S>>(
    arithmetic: A,
    zero: S,
    plus: spec_fn(S, S) -> S,
    times: spec_fn(S, S) -> S,
) -> bool {
    &&& forall|r: S| #[trigger] zero_is(arithmetic, r) ==> r == zero
    &&& forall|a: S, b: S, r: S| #[trigger] adds(arithmetic, a, b, r) ==> r == plus(a, b)
    &&& forall|a: S, b: S, r: S| #[trigger] multiplies(arithmetic, a, b, r) ==> r == times(a, b)
}

/// Square and square root are `squared` and `rooted`, and nothing else.
pub open spec fn extracts<S, A: Arithmetic<S>>(
    arithmetic: A,
    squared: spec_fn(S) -> S,
    rooted: spec_fn(S) -> S,
) -> bool {
    &&& forall|a: S, r: S| #[trigger] squares(arithmetic, a, r) ==> r == squared(a)
    &&& forall|a: S, r: S| #[trigger] roots(arithmetic, a, r) ==> r == rooted(a)
}

/// Quotients are `over`, and nothing else.
pub open spec fn shares<S, A: Arithmetic<S>>(arithmetic: A, over: spec_fn(S, S) -> S) -> bool {
    forall|a: S, b: S, r: S| #[trigger] divides(arithmetic, a, b, r) ==> r == over(a, b)
}

/// The comparison decides `less`, and `less` is a strict order: nothing is
/// less than itself, and what is less than something less than a third is
/// less than the third.
pub open spec fn ordered_by<S, A: Arithmetic<S>>(
    arithmetic: A,
    less: spec_fn(S, S) -> bool,
) -> bool {
    &&& forall|a: S, b: S, r: bool| #[trigger] tells_less(arithmetic, a, b, r) ==> r == less(a, b)
    &&& forall|a: S| !#[trigger] less(a, a)
    &&& forall|a: S, b: S, c: S| #[trigger] less(a, b) && #[trigger] less(b, c) ==> less(a, c)
}

/// `r` is a length of the vector with the components `along_x` and
/// `along_y`: a root of a sum of a square of each.
pub open spec fn measures<S, A: Arithmetic<S>>(
    arithmetic: A,
    along_x: S,
    along_y: S,
    r: S,
) -> bool {
    exists|x_squared: S, y_squared: S, sum: S|
        squares(arithmetic, along_x, x_squared) && squares(arithmetic, along_y, y_squared)
            && #[trigger] adds(arithmetic, x_squared, y_squared, sum) && roots(arithmetic, sum, r)
}

/// The length of the vector with the components `along_x` and `along_y`.
pub fn length<S, A: Arithmetic<S>>(arithmetic: &A, along_x: S, along_y: S) -> (r: S)
    ensures
        measures(*arithmetic, along_x, along_y, r),
{
    let x_squared = arithmetic.square(along_x);
    let y_squared = arithmetic.square(along_y);
    let sum = arithmetic.add(x_squared, y_squared);
    assert(adds(*arithmetic, x_squared, y_squared, sum));
    arithmetic.root(sum)
}

} // verus!
