//! Composition and evaluation of a two-dimensional velocity field, and the
//! rules of the puzzle game played on it.
//!
//! A field has two axes. Each axis is an ordered list of terms, a term being a
//! basis function of a level's catalogue bound to the operator that combines it
//! with everything before it. The list is folded strictly left to right, both
//! into a value at a point and into the formula shown to the player. An arrow
//! field samples the result on a grid and sizes every arrow relative to the
//! strongest.
//!
//! The number type is a parameter of the library. It stores and hands on
//! scalars and basis functions without looking into them, and computes
//! through an [`Arithmetic`] that the caller brings. Its contracts say which
//! operations were applied to what, in which order; the theorems beside them
//! say what follows where the arithmetic is exact.

pub mod arithmetic;
pub mod arrows;
pub mod captions;
pub mod evaluation;
pub mod fold;
pub mod formula;
pub mod gradient_field;
pub mod level;
pub mod operation;
pub mod sampler;
pub mod ui;

pub use arithmetic::{length, Arithmetic};
pub use arrows::arrow_numbers;
pub use captions::{decimal_text, level_title};
pub use gradient_field::{Gradient, Term};
pub use level::{
    full_gas, gas_update, level_update, within, GameState, GasCan, GasCanPlacement, Level, Player,
    Simulating,
};
pub use operation::{GradientOperation, GradientOperationState};
pub use sampler::{
    arrow_angle, arrow_hue, coordinate, gradient_arrows, update_gradient_arrows, visible_width,
    GradientArrow, Sampling,
};
pub use ui::{
    function_component_interaction_handling, grad_component_button_system, new_level_text_system,
    operation_state_button_handling, reset_grad_button, simulating_button_check,
    simulating_button_system, ButtonColor, ButtonLook, ButtonXY, FunctionComponent, GradButtonLook,
    GradComponentButton, Interaction, NewLevelLook, NewLevelText, OperationButton,
    SimulatingButton, TextColor,
};
