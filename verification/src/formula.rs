//! The formula of an axis as the player reads it.

use crate::gradient_field::{Gradient, Term};
use crate::operation::GradientOperation;
use vstd::prelude::*;

verus! {

/// What an axis without terms is shown as.
pub open spec fn empty_text() -> Seq<char> {
    seq!['0']
}

/// What stands between a running formula and a term added to it.
pub open spec fn sum_sign() -> Seq<char> {
    seq![' ', '+', ' ']
}

/// What opens a running formula that is multiplied as a whole.
pub open spec fn opening() -> Seq<char> {
    seq!['(']
}

/// What closes a running formula that is multiplied as a whole, up to the
/// factor.
pub open spec fn product_sign() -> Seq<char> {
    seq![')', ' ', '*', ' ']
}

/// The formula of a list of terms, built in the order of the fold: the first
/// label stands alone, an added term follows the formula so far, and a
/// multiplied term follows the formula so far in parentheses.
pub open spec fn rendered<F>(terms: Seq<Term<F>>) -> Seq<char>
    decreases terms.len(),
{
    if terms.len() == 0 {
        empty_text()
    } else if terms.len() == 1 {
        terms[0].label@
    } else {
        let so_far = rendered(terms.drop_last());
        let last = terms.last();
        match last.operation {
            GradientOperation::Add => so_far + sum_sign() + last.label@,
            GradientOperation::Multiply => opening() + so_far + product_sign() + last.label@,
        }
    }
}

/// Builds the formula of a list of terms.
fn render<F>(terms: &Vec<Term<F>>) -> (text: String)
    ensures
        text@ == rendered(terms@),
{
    if terms.len() == 0 {
        proof {
            reveal_strlit("0");
            assert("0"@ =~= empty_text());
        }
        return String::from_str("0");
    }
    let mut text = terms[0].label.clone();
    assert(terms@.take(1) =~= seq![terms@[0]]);
    let mut i: usize = 1;
    while i < terms.len()
        invariant
            1 <= i <= terms.len(),
            text@ == rendered(terms@.take(i as int)),
        decreases terms.len() - i,
    {
        let ghost so_far = text@;
        proof {
            let next = terms@.take(i as int + 1);
            assert(next.drop_last() =~= terms@.take(i as int));
            assert(next.last() == terms@[i as int]);
            reveal_strlit(" + ");
            reveal_strlit("(");
            reveal_strlit(") * ");
            assert(" + "@ =~= sum_sign());
            assert("("@ =~= opening());
            assert(") * "@ =~= product_sign());
        }
        match terms[i].operation {
            GradientOperation::Add => {
                text.append(" + ");
                text.append(terms[i].label.as_str());
            },
            GradientOperation::Multiply => {
                let mut wrapped = String::from_str("(");
                wrapped.append(text.as_str());
                wrapped.append(") * ");
                wrapped.append(terms[i].label.as_str());
                text = wrapped;
            },
        }
        i += 1;
    }
    assert(terms@.take(terms.len() as int) =~= terms@);
    text
}

impl<F> Gradient<F> {
    /// The formula of the x component.
    pub fn x_text(&self) -> (text: String)
        ensures
            text@ == rendered(self.x_functions@),
    {
        render(&self.x_functions)
    }

    /// The formula of the y component.
    pub fn y_text(&self) -> (text: String)
        ensures
            text@ == rendered(self.y_functions@),
    {
        render(&self.y_functions)
    }
}

} // verus!
