//! The fold as a function: what evaluation returns when the arithmetic and
//! the basis functions are deterministic.

use crate::arithmetic::{computes, extracts, measures, zero_is, Arithmetic};
use crate::evaluation::{folds_to, is_run, joins};
use crate::formula::{empty_text, opening, product_sign, rendered, sum_sign};
use crate::gradient_field::{holds, is_first, lemma_without_at, without, Gradient, Term};
use crate::operation::GradientOperation;
use vstd::prelude::*;

verus! {

/// The operators of a list of terms, in order.
pub open spec fn operations_of<F>(terms: Seq<Term<F>>) -> Seq<GradientOperation> {
    Seq::new(terms.len(), |i: int| terms[i].operation)
}

/// The left-to-right fold of `values` under `operations`: `zero` for no
/// value, the first value alone, and otherwise the fold of all but the last
/// value joined with the last value by the last operator. The first operator
/// joins nothing and is not read.
pub open spec fn fold_value<S>(
    operations: Seq<GradientOperation>,
    values: Seq<S>,
    zero: S,
    plus: spec_fn(S, S) -> S,
    times: spec_fn(S, S) -> S,
) -> S
    decreases values.len(),
{
    if values.len() == 0 {
        zero
    } else if values.len() == 1 {
        values[0]
    } else {
        let so_far = fold_value(operations.drop_last(), values.drop_last(), zero, plus, times);
        match operations.last() {
            GradientOperation::Add => plus(so_far, values.last()),
            GradientOperation::Multiply => times(so_far, values.last()),
        }
    }
}

/// `values[i]` is the one value that the basis function of term `i` returns
/// at `(x, y)`.
pub open spec fn valued<S, F: Fn(S, S) -> S>(
    terms: Seq<Term<F>>,
    x: S,
    y: S,
    values: Seq<S>,
) -> bool {
    &&& values.len() == terms.len()
    &&& forall|i: int, v: S|
        0 <= i < terms.len() && #[trigger] terms[i].function.ensures((x, y), v) ==> v == values[i]
}

/// In a run of the fold under deterministic arithmetic, every partial result
/// is the fold of the values up to its place.
proof fn lemma_run_follows_fold<S, F: Fn(S, S) -> S, A: Arithmetic<S>>(
    terms: Seq<Term<F>>,
    x: S,
    y: S,
    arithmetic: A,
    zero: S,
    plus: spec_fn(S, S) -> S,
    times: spec_fn(S, S) -> S,
    values: Seq<S>,
    partials: Seq<S>,
    n: int,
)
    requires
        computes(arithmetic, zero, plus, times),
        is_run(terms, x, y, arithmetic, values, partials),
        1 <= n <= terms.len(),
    ensures
        partials[n - 1] == fold_value(
            operations_of(terms).take(n),
            values.take(n),
            zero,
            plus,
            times,
        ),
    decreases n,
{
    let operations = operations_of(terms);
    if n == 1 {
        assert(values.take(1)[0] == values[0]);
    } else {
        lemma_run_follows_fold(terms, x, y, arithmetic, zero, plus, times, values, partials, n - 1);
        assert(operations.take(n).drop_last() =~= operations.take(n - 1));
        assert(values.take(n).drop_last() =~= values.take(n - 1));
        assert(operations.take(n).last() == terms[n - 1].operation);
        assert(values.take(n).last() == values[n - 1]);
        assert(joins(arithmetic, terms[n - 1].operation, partials[n - 2], values[n - 1], partials[n
            - 1]));
    }
}

/// Where each basis function has one value at the point and the arithmetic
/// computes `zero`, `plus` and `times`, evaluation returns the left-to-right
/// fold of those values, and nothing else.
pub proof fn lemma_evaluation_is_the_fold<S, F: Fn(S, S) -> S, A: Arithmetic<S>>(
    terms: Seq<Term<F>>,
    x: S,
    y: S,
    arithmetic: A,
    zero: S,
    plus: spec_fn(S, S) -> S,
    times: spec_fn(S, S) -> S,
    values: Seq<S>,
    result: S,
)
    requires
        computes(arithmetic, zero, plus, times),
        valued(terms, x, y, values),
        folds_to(terms, x, y, arithmetic, result),
    ensures
        result == fold_value(operations_of(terms), values, zero, plus, times),
{
    if terms.len() > 0 {
        let (seen, partials) = choose|seen: Seq<S>, partials: Seq<S>|
            #[trigger] is_run(terms, x, y, arithmetic, seen, partials) && partials.last()
                == result;
        assert forall|i: int| 0 <= i < terms.len() implies seen[i] == values[i] by {
            assert(terms[i].function.ensures((x, y), seen[i]));
        }
        assert(seen =~= values);
        lemma_run_follows_fold(
            terms,
            x,
            y,
            arithmetic,
            zero,
            plus,
            times,
            values,
            partials,
            terms.len() as int,
        );
        assert(operations_of(terms).take(terms.len() as int) =~= operations_of(terms));
        assert(values.take(terms.len() as int) =~= values);
    }
}

/// An axis without terms has the value zero at every point.
pub proof fn lemma_empty_axis_is_zero<S, F: Fn(S, S) -> S, A: Arithmetic<S>>(
    x: S,
    y: S,
    arithmetic: A,
    result: S,
)
    ensures
        folds_to(Seq::<Term<F>>::empty(), x, y, arithmetic, result) <==> zero_is(
            arithmetic,
            result,
        ),
{
}

/// The fold knows no precedence: of three terms of which the second is added
/// and the third multiplied, the third multiplies the whole sum of the first
/// two.
pub proof fn lemma_product_takes_whole_sum<S>(
    first: GradientOperation,
    a: S,
    b: S,
    c: S,
    zero: S,
    plus: spec_fn(S, S) -> S,
    times: spec_fn(S, S) -> S,
)
    ensures
        fold_value(
            seq![first, GradientOperation::Add, GradientOperation::Multiply],
            seq![a, b, c],
            zero,
            plus,
            times,
        ) == times(plus(a, b), c),
{
    let operations = seq![first, GradientOperation::Add, GradientOperation::Multiply];
    let values = seq![a, b, c];
    assert(operations.drop_last() =~= seq![first, GradientOperation::Add]);
    assert(values.drop_last() =~= seq![a, b]);
    assert(seq![first, GradientOperation::Add].drop_last() =~= seq![first]);
    assert(seq![a, b].drop_last() =~= seq![a]);
    assert(fold_value(seq![first], seq![a], zero, plus, times) == a);
    assert(fold_value(seq![first, GradientOperation::Add], seq![a, b], zero, plus, times) == plus(
        a,
        b,
    ));
}

/// Two products in a row chain from the left.
pub proof fn lemma_products_chain_from_the_left<S>(
    first: GradientOperation,
    a: S,
    b: S,
    c: S,
    zero: S,
    plus: spec_fn(S, S) -> S,
    times: spec_fn(S, S) -> S,
)
    ensures
        fold_value(
            seq![first, GradientOperation::Multiply, GradientOperation::Multiply],
            seq![a, b, c],
            zero,
            plus,
            times,
        ) == times(times(a, b), c),
{
    let operations = seq![first, GradientOperation::Multiply, GradientOperation::Multiply];
    let values = seq![a, b, c];
    assert(operations.drop_last() =~= seq![first, GradientOperation::Multiply]);
    assert(values.drop_last() =~= seq![a, b]);
    assert(seq![first, GradientOperation::Multiply].drop_last() =~= seq![first]);
    assert(seq![a, b].drop_last() =~= seq![a]);
    assert(fold_value(seq![first], seq![a], zero, plus, times) == a);
    assert(fold_value(seq![first, GradientOperation::Multiply], seq![a, b], zero, plus, times)
        == times(a, b));
}

/// Adding a term whose identifier is new and removing it at once gives back
/// the list as it was, and with it every value and the formula.
pub proof fn lemma_add_then_remove_restores<S, F: Fn(S, S) -> S, A: Arithmetic<S>>(
    terms: Seq<Term<F>>,
    term: Term<F>,
    x: S,
    y: S,
    arithmetic: A,
)
    requires
        !holds(terms, term.id),
    ensures
        without(terms.push(term), term.id) == terms,
        rendered(without(terms.push(term), term.id)) == rendered(terms),
        forall|result: S|
            folds_to(without(terms.push(term), term.id), x, y, arithmetic, result) == folds_to(
                terms,
                x,
                y,
                arithmetic,
                result,
            ),
{
    let longer = terms.push(term);
    let p = terms.len() as int;
    assert(is_first(longer, term.id, p)) by {
        assert forall|j: int| 0 <= j < p implies #[trigger] longer[j].id != term.id by {
            assert(longer[j] == terms[j]);
            assert(terms[j].id != term.id);
        }
    }
    lemma_without_at(longer, term.id, p);
    assert(longer.remove(p) =~= terms);
}

/// Removing an identifier that no term carries changes nothing.
pub proof fn lemma_remove_absent_changes_nothing<F>(terms: Seq<Term<F>>, id: u32)
    requires
        !holds(terms, id),
    ensures
        without(terms, id) == terms,
{
}

/// Where each basis function has one value at the point and the arithmetic
/// computes `zero`, `plus`, `times`, `squared` and `rooted`, the magnitude is
/// the root of the sum of the squares of the two folds, and nothing else.
pub proof fn lemma_magnitude_is_the_norm<S, F: Fn(S, S) -> S, A: Arithmetic<S>>(
    gradient: Gradient<F>,
    x: S,
    y: S,
    arithmetic: A,
    zero: S,
    plus: spec_fn(S, S) -> S,
    times: spec_fn(S, S) -> S,
    squared: spec_fn(S) -> S,
    rooted: spec_fn(S) -> S,
    x_values: Seq<S>,
    y_values: Seq<S>,
    result: S,
)
    requires
        computes(arithmetic, zero, plus, times),
        extracts(arithmetic, squared, rooted),
        valued(gradient.x_functions@, x, y, x_values),
        valued(gradient.y_functions@, x, y, y_values),
        gradient.has_magnitude(x, y, arithmetic, result),
    ensures
        result == rooted(
            plus(
                squared(
                    fold_value(operations_of(gradient.x_functions@), x_values, zero, plus, times),
                ),
                squared(
                    fold_value(operations_of(gradient.y_functions@), y_values, zero, plus, times),
                ),
            ),
        ),
{
    let (along_x, along_y) = choose|along_x: S, along_y: S|
        folds_to(gradient.x_functions@, x, y, arithmetic, along_x) && folds_to(
            gradient.y_functions@,
            x,
            y,
            arithmetic,
            along_y,
        ) && #[trigger] measures(arithmetic, along_x, along_y, result);
    lemma_evaluation_is_the_fold(
        gradient.x_functions@,
        x,
        y,
        arithmetic,
        zero,
        plus,
        times,
        x_values,
        along_x,
    );
    lemma_evaluation_is_the_fold(
        gradient.y_functions@,
        x,
        y,
        arithmetic,
        zero,
        plus,
        times,
        y_values,
        along_y,
    );
}

/// Under arithmetic in which a root is never below zero, and the root of a
/// sum of two squares is zero for the squares of zero alone, the magnitude is
/// never below zero, and is zero exactly where both components of the field
/// are.
pub proof fn lemma_magnitude_vanishes_with_both_components<S, F: Fn(S, S) -> S, A: Arithmetic<S>>(
    gradient: Gradient<F>,
    x: S,
    y: S,
    arithmetic: A,
    zero: S,
    plus: spec_fn(S, S) -> S,
    times: spec_fn(S, S) -> S,
    squared: spec_fn(S) -> S,
    rooted: spec_fn(S) -> S,
    less: spec_fn(S, S) -> bool,
    x_values: Seq<S>,
    y_values: Seq<S>,
    result: S,
)
    requires
        computes(arithmetic, zero, plus, times),
        extracts(arithmetic, squared, rooted),
        forall|a: S| !less(#[trigger] rooted(a), zero),
        forall|a: S, b: S|
            rooted(#[trigger] plus(squared(a), squared(b))) == zero <==> a == zero && b == zero,
        valued(gradient.x_functions@, x, y, x_values),
        valued(gradient.y_functions@, x, y, y_values),
        gradient.has_magnitude(x, y, arithmetic, result),
    ensures
        !less(result, zero),
        result == zero <==> fold_value(
            operations_of(gradient.x_functions@),
            x_values,
            zero,
            plus,
            times,
        ) == zero && fold_value(operations_of(gradient.y_functions@), y_values, zero, plus, times)
            == zero,
{
    lemma_magnitude_is_the_norm(
        gradient,
        x,
        y,
        arithmetic,
        zero,
        plus,
        times,
        squared,
        rooted,
        x_values,
        y_values,
        result,
    );
}

/// The formulas of a list of terms, in order.
pub open spec fn labels_of<F>(terms: Seq<Term<F>>) -> Seq<Seq<char>> {
    Seq::new(terms.len(), |i: int| terms[i].label@)
}

/// The sum of two formulas.
pub open spec fn sum_text() -> spec_fn(Seq<char>, Seq<char>) -> Seq<char> {
    |so_far: Seq<char>, label: Seq<char>| so_far + sum_sign() + label
}

/// The product of a formula, taken as a whole, and a factor.
pub open spec fn product_text() -> spec_fn(Seq<char>, Seq<char>) -> Seq<char> {
    |so_far: Seq<char>, label: Seq<char>| opening() + so_far + product_sign() + label
}

/// The formula of an axis is built by the fold that gives its value: it is
/// the fold of the labels, under the operators of the terms, where a sum
/// writes a plus sign between its operands and a product puts all that stands
/// before it in parentheses.
pub proof fn lemma_formula_is_the_fold_of_labels<F>(terms: Seq<Term<F>>)
    ensures
        rendered(terms) == fold_value(
            operations_of(terms),
            labels_of(terms),
            empty_text(),
            sum_text(),
            product_text(),
        ),
    decreases terms.len(),
{
    if terms.len() >= 2 {
        lemma_formula_is_the_fold_of_labels(terms.drop_last());
        assert(operations_of(terms).drop_last() =~= operations_of(terms.drop_last()));
        assert(labels_of(terms).drop_last() =~= labels_of(terms.drop_last()));
    }
}

/// A term multiplied onto one term: the first stands in parentheses.
pub proof fn lemma_text_of_product<F>(a: Term<F>, b: Term<F>)
    requires
        b.operation == GradientOperation::Multiply,
    ensures
        rendered(seq![a, b]) == opening() + a.label@ + product_sign() + b.label@,
{
    assert(seq![a, b].drop_last() =~= seq![a]);
    assert(seq![a, b].last() == b);
    assert(rendered(seq![a]) == a.label@);
}

/// A term multiplied onto a sum of two: the whole sum stands in parentheses.
pub proof fn lemma_text_of_product_of_sum<F>(a: Term<F>, b: Term<F>, c: Term<F>)
    requires
        b.operation == GradientOperation::Add,
        c.operation == GradientOperation::Multiply,
    ensures
        rendered(seq![a, b, c]) == opening() + (a.label@ + sum_sign() + b.label@) + product_sign()
            + c.label@,
{
    assert(seq![a, b, c].drop_last() =~= seq![a, b]);
    assert(seq![a, b, c].last() == c);
    assert(seq![a, b].drop_last() =~= seq![a]);
    assert(seq![a, b].last() == b);
    assert(rendered(seq![a]) == a.label@);
    assert(rendered(seq![a, b]) == a.label@ + sum_sign() + b.label@);
}

} // verus!
