//! The field under composition: two ordered lists of terms, one per axis.

use crate::operation::GradientOperation;
use vstd::prelude::*;

verus! {

/// A basis function placed in an axis: its identifier within the level's
/// catalogue, the operator that joins it to the terms before it, the function
/// itself and the formula it is shown as.
pub struct Term<F> {
    pub id: u32,
    pub operation: GradientOperation,
    pub function: F,
    pub label: String,
}

/// Some term of the list carries `id`.
pub open spec fn holds<F>(terms: Seq<Term<F>>, id: u32) -> bool {
    exists|p: int| 0 <= p < terms.len() && #[trigger] terms[p].id == id
}

/// `p` is the place of the earliest term that carries `id`.
pub open spec fn is_first<F>(terms: Seq<Term<F>>, id: u32, p: int) -> bool {
    &&& 0 <= p < terms.len()
    &&& terms[p].id == id
    &&& forall|j: int| 0 <= j < p ==> #[trigger] terms[j].id != id
}

/// The place of the earliest term that carries `id`, where there is one.
pub open spec fn first_place<F>(terms: Seq<Term<F>>, id: u32) -> int {
    choose|p: int| is_first(terms, id, p)
}

/// The list with the earliest term that carries `id` taken out, the others
/// keeping their order; the list itself where no term carries `id`.
pub open spec fn without<F>(terms: Seq<Term<F>>, id: u32) -> Seq<Term<F>> {
    if holds(terms, id) {
        terms.remove(first_place(terms, id))
    } else {
        terms
    }
}

/// No identifier occurs twice.
pub open spec fn distinct_ids<F>(terms: Seq<Term<F>>) -> bool {
    forall|i: int, j: int|
        0 <= i < j < terms.len() ==> (#[trigger] terms[i]).id != (#[trigger] terms[j]).id
}

/// Two places that are both the earliest for `id` are one place.
pub proof fn lemma_first_is_unique<F>(terms: Seq<Term<F>>, id: u32, p: int, q: int)
    requires
        is_first(terms, id, p),
        is_first(terms, id, q),
    ensures
        p == q,
{
    if p < q {
        assert(terms[p].id != id);
    } else if q < p {
        assert(terms[q].id != id);
    }
}

/// Taking out the earliest term at a known place.
pub proof fn lemma_without_at<F>(terms: Seq<Term<F>>, id: u32, p: int)
    requires
        is_first(terms, id, p),
    ensures
        holds(terms, id),
        without(terms, id) == terms.remove(p),
{
    assert(terms[p].id == id);
    lemma_first_is_unique(terms, id, p, first_place(terms, id));
}

/// The position of `id` in the list: the earliest place that carries it.
fn position<F>(terms: &Vec<Term<F>>, id: u32) -> (place: Option<usize>)
    ensures
        match place {
            Some(p) => is_first(terms@, id, p as int),
            None => !holds(terms@, id),
        },
{
    let mut i: usize = 0;
    while i < terms.len()
        invariant
            i <= terms.len(),
            forall|j: int| 0 <= j < i ==> #[trigger] terms@[j].id != id,
        decreases terms.len() - i,
    {
        if terms[i].id == id {
            return Some(i);
        }
        i += 1;
    }
    None
}

/// Takes the earliest term that carries `id` out of the list.
fn take_out<F>(terms: &mut Vec<Term<F>>, id: u32)
    ensures
        final(terms)@ == without(old(terms)@, id),
        distinct_ids(old(terms)@) ==> distinct_ids(final(terms)@),
{
    match position(terms, id) {
        Some(p) => {
            proof {
                lemma_without_at(terms@, id, p as int);
            }
            let ghost before = terms@;
            terms.remove(p);
            assert(distinct_ids(before) ==> distinct_ids(terms@)) by {
                if distinct_ids(before) {
                    assert forall|i: int, j: int| 0 <= i < j < terms@.len() implies (
                    #[trigger] terms@[i]).id != (#[trigger] terms@[j]).id by {
                        let a = if i < p { i } else { i + 1 };
                        let b = if j < p { j } else { j + 1 };
                        assert(terms@[i] == before[a]);
                        assert(terms@[j] == before[b]);
                    }
                }
            }
        },
        None => {},
    }
}

/// The composition state of one level session.
pub struct Gradient<F> {
    /// The terms of the x component, in the order they were added.
    pub x_functions: Vec<Term<F>>,
    /// The terms of the y component, in the order they were added.
    pub y_functions: Vec<Term<F>>,
}

impl<F> Gradient<F> {
    /// Within an axis no identifier occurs twice.
    pub open spec fn well_formed(&self) -> bool {
        &&& distinct_ids(self.x_functions@)
        &&& distinct_ids(self.y_functions@)
    }

    /// The field with no terms on either axis.
    pub fn new() -> (gradient: Self)
        ensures
            gradient.x_functions@ == Seq::<Term<F>>::empty(),
            gradient.y_functions@ == Seq::<Term<F>>::empty(),
            gradient.well_formed(),
    {
        Gradient { x_functions: Vec::new(), y_functions: Vec::new() }
    }

    /// Whether the x axis has a term with this identifier.
    pub fn has_x_function(&self, function_id: u32) -> (active: bool)
        ensures
            active == holds(self.x_functions@, function_id),
    {
        position(&self.x_functions, function_id).is_some()
    }

    /// Whether the y axis has a term with this identifier.
    pub fn has_y_function(&self, function_id: u32) -> (active: bool)
        ensures
            active == holds(self.y_functions@, function_id),
    {
        position(&self.y_functions, function_id).is_some()
    }

    /// Appends a term to the end of the x axis, which must not hold a term with
    /// this identifier yet.
    pub fn add_x_function(
        &mut self,
        function_id: u32,
        operation: GradientOperation,
        function: F,
        function_string: String,
    )
        requires
            !holds(old(self).x_functions@, function_id),
        ensures
            final(self).x_functions@ == old(self).x_functions@.push(
                (Term { id: function_id, operation, function, label: function_string }),
            ),
            final(self).y_functions@ == old(self).y_functions@,
            old(self).well_formed() ==> final(self).well_formed(),
    {
        let ghost before = self.x_functions@;
        let term = Term { id: function_id, operation, function, label: function_string };
        self.x_functions.push(term);
        proof {
            lemma_push_keeps_distinct(before, self.x_functions@.last());
        }
    }

    /// Appends a term to the end of the y axis, which must not hold a term with
    /// this identifier yet.
    pub fn add_y_function(
        &mut self,
        function_id: u32,
        operation: GradientOperation,
        function: F,
        function_string: String,
    )
        requires
            !holds(old(self).y_functions@, function_id),
        ensures
            final(self).y_functions@ == old(self).y_functions@.push(
                (Term { id: function_id, operation, function, label: function_string }),
            ),
            final(self).x_functions@ == old(self).x_functions@,
            old(self).well_formed() ==> final(self).well_formed(),
    {
        let ghost before = self.y_functions@;
        let term = Term { id: function_id, operation, function, label: function_string };
        self.y_functions.push(term);
        proof {
            lemma_push_keeps_distinct(before, self.y_functions@.last());
        }
    }

    /// Removes the term with this identifier from the x axis; the other terms
    /// keep their order. Without such a term nothing changes.
    pub fn remove_x_function(&mut self, function_id: u32)
        ensures
            final(self).x_functions@ == without(old(self).x_functions@, function_id),
            !holds(old(self).x_functions@, function_id) ==> final(self).x_functions@ == old(
                self,
            ).x_functions@,
            forall|p: int|
                is_first(old(self).x_functions@, function_id, p) ==> final(self).x_functions@
                    == old(self).x_functions@.remove(p),
            final(self).y_functions@ == old(self).y_functions@,
            old(self).well_formed() ==> final(self).well_formed(),
            old(self).well_formed() ==> !holds(final(self).x_functions@, function_id),
    {
        proof {
            lemma_without_drops_id(self.x_functions@, function_id);
            assert forall|p: int| is_first(self.x_functions@, function_id, p) implies without(
                self.x_functions@,
                function_id,
            ) == self.x_functions@.remove(p) by {
                lemma_without_at(self.x_functions@, function_id, p);
            }
        }
        take_out(&mut self.x_functions, function_id);
    }

    /// Removes the term with this identifier from the y axis; the other terms
    /// keep their order. Without such a term nothing changes.
    pub fn remove_y_function(&mut self, function_id: u32)
        ensures
            final(self).y_functions@ == without(old(self).y_functions@, function_id),
            !holds(old(self).y_functions@, function_id) ==> final(self).y_functions@ == old(
                self,
            ).y_functions@,
            forall|p: int|
                is_first(old(self).y_functions@, function_id, p) ==> final(self).y_functions@
                    == old(self).y_functions@.remove(p),
            final(self).x_functions@ == old(self).x_functions@,
            old(self).well_formed() ==> final(self).well_formed(),
            old(self).well_formed() ==> !holds(final(self).y_functions@, function_id),
    {
        proof {
            lemma_without_drops_id(self.y_functions@, function_id);
            assert forall|p: int| is_first(self.y_functions@, function_id, p) implies without(
                self.y_functions@,
                function_id,
            ) == self.y_functions@.remove(p) by {
                lemma_without_at(self.y_functions@, function_id, p);
            }
        }
        take_out(&mut self.y_functions, function_id);
    }

    /// Empties both axes.
    pub fn clear_field(&mut self)
        ensures
            final(self).x_functions@ == Seq::<Term<F>>::empty(),
            final(self).y_functions@ == Seq::<Term<F>>::empty(),
            final(self).well_formed(),
    {
        self.x_functions.clear();
        self.y_functions.clear();
    }
}

/// A list without repeated identifiers stays so when a term with a new
/// identifier is appended.
pub proof fn lemma_push_keeps_distinct<F>(terms: Seq<Term<F>>, term: Term<F>)
    requires
        !holds(terms, term.id),
    ensures
        distinct_ids(terms) ==> distinct_ids(terms.push(term)),
{
    if distinct_ids(terms) {
        let longer = terms.push(term);
        assert forall|i: int, j: int| 0 <= i < j < longer.len() implies (
        #[trigger] longer[i]).id != (#[trigger] longer[j]).id by {
            if j == terms.len() {
                assert(terms[i].id != term.id);
            } else {
                assert(longer[i] == terms[i]);
                assert(longer[j] == terms[j]);
            }
        }
    }
}

/// In a list without repeated identifiers, taking a term out leaves no term
/// with its identifier.
pub proof fn lemma_without_drops_id<F>(terms: Seq<Term<F>>, id: u32)
    ensures
        distinct_ids(terms) ==> !holds(without(terms, id), id),
{
    if distinct_ids(terms) && holds(terms, id) {
        let p = choose|p: int| 0 <= p < terms.len() && #[trigger] terms[p].id == id;
        assert(is_first(terms, id, p)) by {
            assert forall|j: int| 0 <= j < p implies #[trigger] terms[j].id != id by {
                assert(terms[j].id != terms[p].id);
            }
        }
        lemma_without_at(terms, id, p);
        let rest = terms.remove(p);
        assert forall|q: int| 0 <= q < rest.len() implies #[trigger] rest[q].id != id by {
            let a = if q < p { q } else { q + 1 };
            assert(rest[q] == terms[a]);
            if a < p {
                assert(terms[a].id != terms[p].id);
            } else {
                assert(terms[p].id != terms[a].id);
            }
        }
    }
}

} // verus!
