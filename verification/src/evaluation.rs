//! The value of an axis at a point: the left-to-right fold of its terms.

use crate::arithmetic::{adds, length, measures, multiplies, zero_is, Arithmetic};
use crate::gradient_field::{Gradient, Term};
use crate::operation::GradientOperation;
use vstd::prelude::*;

verus! {

/// Every basis function of the list accepts the point `(x, y)`.
pub open spec fn defined_at<S, F: Fn(S, S) -> S>(terms: Seq<Term<F>>, x: S, y: S) -> bool {
    forall|i: int| 0 <= i < terms.len() ==> (#[trigger] terms[i]).function.requires((x, y))
}

/// `result` is what joining `value` to `so_far` under `operation` may give:
/// their sum under `Add`, their product under `Multiply`.
pub open spec fn joins<S, A: Arithmetic<S>>(
    arithmetic: A,
    operation: GradientOperation,
    so_far: S,
    value: S,
    result: S,
) -> bool {
    match operation {
        GradientOperation::Add => adds(arithmetic, so_far, value, result),
        GradientOperation::Multiply => multiplies(arithmetic, so_far, value, result),
    }
}

/// `values` and `partials` record one run of the fold over `terms` at
/// `(x, y)`: `values[i]` is what the basis function of term `i` returned, the
/// first partial result is the first value, and each later partial result
/// joins the value of its term to the partial result before it, under the
/// operator of that term.
pub open spec fn is_run<S, F: Fn(S, S) -> S, A: Arithmetic<S>>(
    terms: Seq<Term<F>>,
    x: S,
    y: S,
    arithmetic: A,
    values: Seq<S>,
    partials: Seq<S>,
) -> bool {
    &&& values.len() == terms.len()
    &&& partials.len() == terms.len()
    &&& forall|i: int|
        0 <= i < terms.len() ==> terms[i].function.ensures((x, y), #[trigger] values[i])
    &&& terms.len() > 0 ==> partials[0] == values[0]
    &&& forall|i: int|
        1 <= i < terms.len() ==> joins(
            arithmetic,
            terms[i].operation,
            partials[i - 1],
            values[i],
            #[trigger] partials[i],
        )
}

/// `result` is a value of the list of terms at `(x, y)`: zero for the empty
/// list, else the last partial result of a run of the fold.
pub open spec fn folds_to<S, F: Fn(S, S) -> S, A: Arithmetic<S>>(
    terms: Seq<Term<F>>,
    x: S,
    y: S,
    arithmetic: A,
    result: S,
) -> bool {
    if terms.len() == 0 {
        zero_is(arithmetic, result)
    } else {
        exists|values: Seq<S>, partials: Seq<S>|
            #[trigger] is_run(terms, x, y, arithmetic, values, partials) && partials.last()
                == result
    }
}

/// Folds a list of terms at `(x, y)`, strictly left to right.
fn evaluate<S: Copy, F: Fn(S, S) -> S, A: Arithmetic<S>>(
    terms: &Vec<Term<F>>,
    x: S,
    y: S,
    arithmetic: &A,
) -> (result: S)
    requires
        defined_at(terms@, x, y),
    ensures
        folds_to(terms@, x, y, *arithmetic, result),
{
    if terms.len() == 0 {
        return arithmetic.zero();
    }
    let mut result: S = (terms[0].function)(x, y);
    let ghost mut values: Seq<S> = seq![result];
    let ghost mut partials: Seq<S> = seq![result];
    let mut i: usize = 1;
    while i < terms.len()
        invariant
            1 <= i <= terms.len(),
            defined_at(terms@, x, y),
            is_run(terms@.take(i as int), x, y, *arithmetic, values, partials),
            partials.last() == result,
        decreases terms.len() - i,
    {
        let value = (terms[i].function)(x, y);
        let ghost so_far = result;
        result =
        match terms[i].operation {
            GradientOperation::Add => arithmetic.add(result, value),
            GradientOperation::Multiply => arithmetic.multiply(result, value),
        };
        proof {
            let shorter = terms@.take(i as int);
            let longer = terms@.take(i as int + 1);
            let old_values = values;
            let old_partials = partials;
            values = values.push(value);
            partials = partials.push(result);
            assert forall|j: int| 0 <= j < longer.len() implies longer[j].function.ensures(
                (x, y),
                #[trigger] values[j],
            ) by {
                if j < i {
                    assert(longer[j] == shorter[j]);
                    assert(values[j] == old_values[j]);
                }
            }
            assert forall|j: int| 1 <= j < longer.len() implies joins(
                *arithmetic,
                longer[j].operation,
                partials[j - 1],
                values[j],
                #[trigger] partials[j],
            ) by {
                if j < i {
                    assert(longer[j] == shorter[j]);
                    assert(partials[j] == old_partials[j]);
                    assert(partials[j - 1] == old_partials[j - 1]);
                    assert(values[j] == old_values[j]);
                } else {
                    assert(partials[j - 1] == so_far);
                }
            }
        }
        i += 1;
    }
    assert(terms@.take(terms.len() as int) =~= terms@);
    result
}

impl<F> Gradient<F> {
    /// `result` is a magnitude of the field at `(x, y)`: a length of the
    /// vector made of a value of the x component and a value of the y
    /// component.
    pub open spec fn has_magnitude<S, A: Arithmetic<S>>(
        &self,
        x: S,
        y: S,
        arithmetic: A,
        result: S,
    ) -> bool where F: Fn(S, S) -> S {
        exists|along_x: S, along_y: S|
            folds_to(self.x_functions@, x, y, arithmetic, along_x) && folds_to(
                self.y_functions@,
                x,
                y,
                arithmetic,
                along_y,
            ) && #[trigger] measures(arithmetic, along_x, along_y, result)
    }

    /// The x component of the field at `(x, y)`: the fold of the terms of the
    /// x axis, and zero where there are none.
    pub fn x<S: Copy, A: Arithmetic<S>>(&self, x: S, y: S, arithmetic: &A) -> (result: S) where
        F: Fn(S, S) -> S,

        requires
            defined_at(self.x_functions@, x, y),
        ensures
            folds_to(self.x_functions@, x, y, *arithmetic, result),
            self.x_functions@.len() == 0 ==> zero_is(*arithmetic, result),
    {
        evaluate(&self.x_functions, x, y, arithmetic)
    }

    /// The y component of the field at `(x, y)`: the fold of the terms of the
    /// y axis, and zero where there are none.
    pub fn y<S: Copy, A: Arithmetic<S>>(&self, x: S, y: S, arithmetic: &A) -> (result: S) where
        F: Fn(S, S) -> S,

        requires
            defined_at(self.y_functions@, x, y),
        ensures
            folds_to(self.y_functions@, x, y, *arithmetic, result),
            self.y_functions@.len() == 0 ==> zero_is(*arithmetic, result),
    {
        evaluate(&self.y_functions, x, y, arithmetic)
    }

    /// The magnitude of the field at `(x, y)`: the length of the vector of
    /// its two components.
    pub fn magnitude<S: Copy, A: Arithmetic<S>>(&self, x: S, y: S, arithmetic: &A) -> (result:
        S) where F: Fn(S, S) -> S
        requires
            defined_at(self.x_functions@, x, y),
            defined_at(self.y_functions@, x, y),
        ensures
            self.has_magnitude(x, y, *arithmetic, result),
    {
        let along_x = self.x(x, y, arithmetic);
        let along_y = self.y(x, y, arithmetic);
        length(arithmetic, along_x, along_y)
    }
}

} // verus!
