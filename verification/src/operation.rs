//! The operators that join a term to the terms before it.

use vstd::prelude::*;

verus! {

/// How a term combines with the accumulated value of all terms before it.
#[derive(Clone, Copy, Debug, PartialEq, Eq, Structural)]
pub enum GradientOperation {
    Add,
    Multiply,
}

impl GradientOperation {
    /// The operator a session starts with.
    pub fn new() -> (operation: Self)
        ensures
            operation == GradientOperation::Add,
    {
        GradientOperation::Add
    }

    /// The other operator.
    pub open spec fn flipped(self) -> GradientOperation {
        match self {
            GradientOperation::Add => GradientOperation::Multiply,
            GradientOperation::Multiply => GradientOperation::Add,
        }
    }

    /// The word shown for this operator.
    pub open spec fn name(self) -> Seq<char> {
        match self {
            GradientOperation::Add => seq!['A', 'd', 'd'],
            GradientOperation::Multiply => seq!['M', 'u', 'l', 't', 'i', 'p', 'l', 'y'],
        }
    }

    /// The word shown for this operator.
    pub fn label(&self) -> (text: String)
        ensures
            text@ == self.name(),
    {
        match self {
            GradientOperation::Add => {
                proof {
                    reveal_strlit("Add");
                    assert("Add"@ =~= GradientOperation::Add.name());
                }
                String::from_str("Add")
            },
            GradientOperation::Multiply => {
                proof {
                    reveal_strlit("Multiply");
                    assert("Multiply"@ =~= GradientOperation::Multiply.name());
                }
                String::from_str("Multiply")
            },
        }
    }
}

/// The operator that the next added term will carry, as session state.
#[derive(Clone, Copy, Debug, PartialEq, Eq, Hash, Structural)]
pub enum GradientOperationState {
    Add,
    Multiply,
}

impl GradientOperationState {
    /// The operator this state stands for.
    pub open spec fn operation_spec(self) -> GradientOperation {
        match self {
            GradientOperationState::Add => GradientOperation::Add,
            GradientOperationState::Multiply => GradientOperation::Multiply,
        }
    }

    /// The operator this state stands for.
    pub fn operation(&self) -> (operation: GradientOperation)
        ensures
            operation == self.operation_spec(),
    {
        match self {
            GradientOperationState::Add => GradientOperation::Add,
            GradientOperationState::Multiply => GradientOperation::Multiply,
        }
    }
}

} // verus!
