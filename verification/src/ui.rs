//! What the controls do: for each kind of button, how a pointer interaction
//! changes the session and how the button is to look afterwards.

use crate::arithmetic::{
    adds, counts, subtracts, tells_at_least, tells_at_most, zero_is, Arithmetic,
};
use crate::captions::{decimal, level_title, title_prefix};
use crate::gradient_field::{holds, without, Gradient, Term};
use crate::level::{Level, Simulating};
use crate::operation::{GradientOperation, GradientOperationState};
use vstd::prelude::*;

verus! {

/// What the pointer does to a button.
#[derive(Clone, Copy, Debug, PartialEq, Eq, Structural)]
pub enum Interaction {
    Clicked,
    Hovered,
    /// The pointer is elsewhere.
    Idle,
}

/// The axis a button belongs to.
#[derive(Clone, Copy, Debug, PartialEq, Eq, Structural)]
pub enum ButtonXY {
    X,
    Y,
}

/// A button that puts a basis function of the level into the field or takes
/// it out again.
#[derive(Clone, Copy, Debug, PartialEq, Eq, Structural)]
pub struct GradComponentButton {
    /// The identifier of the basis function within its axis.
    pub id: u32,
    pub xy: ButtonXY,
    /// Whether the basis function is in the field.
    pub used: bool,
}

/// The button that starts and stops the simulation.
#[derive(Clone, Copy, Debug, PartialEq, Eq, Structural)]
pub struct SimulatingButton {
    pub toggled: bool,
}

/// The button that chooses the operator of the terms added next.
#[derive(Clone, Copy, Debug, PartialEq, Eq, Structural)]
pub struct OperationButton {
    pub operation: GradientOperation,
}

/// The background of a button.
#[derive(Clone, Copy, Debug, PartialEq, Eq, Structural)]
pub enum ButtonColor {
    Normal,
    Hovered,
    Pressed,
    HoveredPressed,
    SimOff,
    SimOn,
    SimOffHover,
    SimOnHover,
}

/// The colour of the text on a button.
#[derive(Clone, Copy, Debug, PartialEq, Eq, Structural)]
pub enum TextColor {
    Normal,
    Pressed,
}

/// How a button is to look: its background, and its text where that changes.
pub struct ButtonLook {
    pub color: ButtonColor,
    pub text: Option<String>,
}

/// How a basis function button is to look: its background, and the colour of
/// its text and the text itself where they change.
pub struct GradButtonLook {
    pub color: ButtonColor,
    pub text_color: Option<TextColor>,
    pub label: Option<String>,
}

/// The text of the simulation button while the player stands still.
pub open spec fn simulate_text() -> Seq<char> {
    seq!['S', 'i', 'm', 'u', 'l', 'a', 't', 'e']
}

/// The text of the simulation button while the player moves.
pub open spec fn stop_text() -> Seq<char> {
    seq!['S', 't', 'o', 'p']
}

/// The terms of one axis of the field.
pub open spec fn terms_of<F>(gradient: Gradient<F>, xy: ButtonXY) -> Seq<Term<F>> {
    match xy {
        ButtonXY::X => gradient.x_functions@,
        ButtonXY::Y => gradient.y_functions@,
    }
}

/// The basis functions a level offers for one axis.
pub open spec fn catalogue<S, F>(level: Level<S, F>, xy: ButtonXY) -> Seq<(String, F)> {
    match xy {
        ButtonXY::X => level.x_functions@,
        ButtonXY::Y => level.y_functions@,
    }
}

/// The formula of a basis function of the level, where the level has it.
pub open spec fn label_of<S, F>(level: Level<S, F>, xy: ButtonXY, id: u32) -> Option<String> {
    if id < catalogue(level, xy).len() {
        Some(catalogue(level, xy)[id as int].0)
    } else {
        None
    }
}

/// The term that a button adds to the field: the basis function the level
/// has under the button's identifier, under the operator in force.
pub open spec fn term_of<S, F>(
    level: Level<S, F>,
    xy: ButtonXY,
    id: u32,
    operation: GradientOperation,
) -> Term<F> {
    Term {
        id,
        operation,
        function: catalogue(level, xy)[id as int].1,
        label: catalogue(level, xy)[id as int].0,
    }
}

/// The look of a basis function button at rest.
pub open spec fn resting_look(used: bool, label: Option<String>) -> GradButtonLook {
    if used {
        GradButtonLook {
            color: ButtonColor::Pressed,
            text_color: Some(TextColor::Pressed),
            label,
        }
    } else {
        GradButtonLook { color: ButtonColor::Normal, text_color: Some(TextColor::Normal), label }
    }
}

/// The look of the simulation button at rest.
pub open spec fn simulating_look(simulating: Simulating, look: ButtonLook) -> bool {
    match simulating {
        Simulating::Simulating => look.color == ButtonColor::SimOn && look.text.is_some()
            && look.text.unwrap()@ == stop_text(),
        Simulating::NotSimulating => look.color == ButtonColor::SimOff && look.text.is_some()
            && look.text.unwrap()@ == simulate_text(),
    }
}

impl SimulatingButton {
    /// The button of a session in which the player stands still.
    pub fn new() -> (button: Self)
        ensures
            !button.toggled,
    {
        Self { toggled: false }
    }
}

impl<S, F> Level<S, F> {
    /// The formula of the basis function with this identifier, where the level
    /// has one.
    pub fn label(&self, xy: ButtonXY, id: u32) -> (label: Option<String>)
        ensures
            label == label_of(*self, xy, id),
    {
        match xy {
            ButtonXY::X => {
                if (id as usize) < self.x_functions.len() {
                    Some(self.x_functions[id as usize].0.clone())
                } else {
                    None
                }
            },
            ButtonXY::Y => {
                if (id as usize) < self.y_functions.len() {
                    Some(self.y_functions[id as usize].0.clone())
                } else {
                    None
                }
            },
        }
    }
}

/// The look of the simulation button at rest, in the given state.
fn simulation_look(simulating: Simulating) -> (look: ButtonLook)
    ensures
        simulating_look(simulating, look),
{
    match simulating {
        Simulating::Simulating => {
            proof {
                reveal_strlit("Stop");
                assert("Stop"@ =~= stop_text());
            }
            ButtonLook { color: ButtonColor::SimOn, text: Some(String::from_str("Stop")) }
        },
        Simulating::NotSimulating => {
            proof {
                reveal_strlit("Simulate");
                assert("Simulate"@ =~= simulate_text());
            }
            ButtonLook { color: ButtonColor::SimOff, text: Some(String::from_str("Simulate")) }
        },
    }
}

/// The simulation button under the pointer. A click starts the simulation
/// where the player stands still and stops it where the player moves; the
/// button then shows what the next click does. Under a hovering pointer only
/// the background changes. In every case the button ends up toggled exactly
/// while the player moves.
pub fn simulating_button_system(
    interaction: Interaction,
    button: &mut SimulatingButton,
    simulating: &mut Simulating,
) -> (look: ButtonLook)
    ensures
        *final(simulating) == match interaction {
            Interaction::Clicked => match *old(simulating) {
                Simulating::Simulating => Simulating::NotSimulating,
                Simulating::NotSimulating => Simulating::Simulating,
            },
            _ => *old(simulating),
        },
        final(button).toggled == (*final(simulating) == Simulating::Simulating),
        match interaction {
            Interaction::Hovered => look.text.is_none() && look.color == match *old(simulating) {
                Simulating::Simulating => ButtonColor::SimOnHover,
                Simulating::NotSimulating => ButtonColor::SimOffHover,
            },
            _ => simulating_look(*final(simulating), look),
        },
{
    match interaction {
        Interaction::Clicked => {
            *simulating =
            match *simulating {
                Simulating::Simulating => Simulating::NotSimulating,
                Simulating::NotSimulating => Simulating::Simulating,
            };
        },
        _ => {},
    }
    button.toggled =
    match *simulating {
        Simulating::Simulating => true,
        Simulating::NotSimulating => false,
    };
    match interaction {
        Interaction::Hovered => ButtonLook {
            color: if button.toggled {
                ButtonColor::SimOnHover
            } else {
                ButtonColor::SimOffHover
            },
            text: None,
        },
        _ => simulation_look(*simulating),
    }
}

/// Brings the simulation button in line with the state of the session.
/// Returns the look to give it where it was out of line.
pub fn simulating_button_check(button: &mut SimulatingButton, simulating: Simulating) -> (look:
    Option<ButtonLook>)
    ensures
        final(button).toggled == (simulating == Simulating::Simulating),
        look.is_some() == (old(button).toggled != final(button).toggled),
        look.is_some() ==> simulating_look(simulating, look.unwrap()),
{
    let moving = match simulating {
        Simulating::Simulating => true,
        Simulating::NotSimulating => false,
    };
    if button.toggled != moving {
        button.toggled = moving;
        Some(simulation_look(simulating))
    } else {
        None
    }
}

/// The operator button under the pointer. A click changes to the other
/// operator, on the button and in the session, and the button shows the new
/// one. Otherwise only the background changes.
pub fn operation_state_button_handling(
    interaction: Interaction,
    button: &mut OperationButton,
    operation_state: &mut GradientOperationState,
) -> (look: ButtonLook)
    ensures
        match interaction {
            Interaction::Clicked => {
                &&& final(button).operation == old(button).operation.flipped()
                &&& final(operation_state).operation_spec() == final(button).operation
                &&& look.color == ButtonColor::Pressed
                &&& look.text.is_some()
                &&& look.text.unwrap()@ == final(button).operation.name()
            },
            Interaction::Hovered => {
                &&& *final(button) == *old(button)
                &&& *final(operation_state) == *old(operation_state)
                &&& look.color == ButtonColor::Hovered
                &&& look.text.is_none()
            },
            Interaction::Idle => {
                &&& *final(button) == *old(button)
                &&& *final(operation_state) == *old(operation_state)
                &&& look.color == ButtonColor::Normal
                &&& look.text.is_none()
            },
        },
{
    match interaction {
        Interaction::Clicked => {
            match button.operation {
                GradientOperation::Add => {
                    button.operation = GradientOperation::Multiply;
                    *operation_state = GradientOperationState::Multiply;
                },
                GradientOperation::Multiply => {
                    button.operation = GradientOperation::Add;
                    *operation_state = GradientOperationState::Add;
                },
            }
            ButtonLook { color: ButtonColor::Pressed, text: Some(button.operation.label()) }
        },
        Interaction::Hovered => ButtonLook { color: ButtonColor::Hovered, text: None },
        Interaction::Idle => ButtonLook { color: ButtonColor::Normal, text: None },
    }
}

/// The field after a click on a basis function button. A used button takes
/// its term out. An unused button whose basis function the level has puts it
/// in at the end, under the operator in force, unless the axis holds a term
/// with that identifier already. Otherwise the field stays as it is.
pub open spec fn clicked_terms<S, F>(
    terms: Seq<Term<F>>,
    button: GradComponentButton,
    level: Level<S, F>,
    operation: GradientOperation,
) -> Seq<Term<F>> {
    if button.used {
        without(terms, button.id)
    } else if button.id < catalogue(level, button.xy).len() && !holds(terms, button.id) {
        terms.push(term_of(level, button.xy, button.id, operation))
    } else {
        terms
    }
}

/// Whether a basis function button is used after a click: an unused button
/// becomes used where the level has its basis function, and a used one unused.
pub open spec fn clicked_used<S, F>(button: GradComponentButton, level: Level<S, F>) -> bool {
    !button.used && button.id < catalogue(level, button.xy).len()
}

/// A basis function button under the pointer.
///
/// A click stops the simulation and toggles the button's basis function in
/// the field, and the button takes the look of its new state. Under a
/// hovering pointer only the background changes. Left alone, the button shows
/// the formula that the level has for it, in the look of its state.
pub fn grad_component_button_system<S, F: Copy>(
    interaction: Interaction,
    button: &mut GradComponentButton,
    gradient: &mut Gradient<F>,
    level: &Level<S, F>,
    simulating: &mut Simulating,
    operation_state: GradientOperationState,
) -> (look: GradButtonLook)
    ensures
        final(button).id == old(button).id,
        final(button).xy == old(button).xy,
        old(gradient).well_formed() ==> final(gradient).well_formed(),
        match interaction {
            Interaction::Clicked => {
                &&& *final(simulating) == Simulating::NotSimulating
                &&& terms_of(*final(gradient), old(button).xy) == clicked_terms(
                    terms_of(*old(gradient), old(button).xy),
                    *old(button),
                    *level,
                    operation_state.operation_spec(),
                )
                &&& final(button).used == clicked_used(*old(button), *level)
                &&& look == resting_look(final(button).used, None)
            },
            Interaction::Hovered => {
                &&& *final(simulating) == *old(simulating)
                &&& *final(gradient) == *old(gradient)
                &&& final(button).used == old(button).used
                &&& look == (GradButtonLook {
                    color: if old(button).used {
                        ButtonColor::HoveredPressed
                    } else {
                        ButtonColor::Hovered
                    },
                    text_color: None,
                    label: None,
                })
            },
            Interaction::Idle => {
                &&& *final(simulating) == *old(simulating)
                &&& *final(gradient) == *old(gradient)
                &&& final(button).used == old(button).used
                &&& look == resting_look(
                    old(button).used,
                    label_of(*level, old(button).xy, old(button).id),
                )
            },
        },
        match old(button).xy {
            ButtonXY::X => final(gradient).y_functions@ == old(gradient).y_functions@,
            ButtonXY::Y => final(gradient).x_functions@ == old(gradient).x_functions@,
        },
{
    match interaction {
        Interaction::Clicked => {
            *simulating = Simulating::NotSimulating;
            if button.used {
                match button.xy {
                    ButtonXY::X => gradient.remove_x_function(button.id),
                    ButtonXY::Y => gradient.remove_y_function(button.id),
                }
                button.used = false;
            } else {
                let operation = operation_state.operation();
                let place = button.id as usize;
                match button.xy {
                    ButtonXY::X => {
                        if place < level.x_functions.len() {
                            if !gradient.has_x_function(button.id) {
                                gradient.add_x_function(
                                    button.id,
                                    operation,
                                    level.x_functions[place].1,
                                    level.x_functions[place].0.clone(),
                                );
                            }
                            button.used = true;
                        }
                    },
                    ButtonXY::Y => {
                        if place < level.y_functions.len() {
                            if !gradient.has_y_function(button.id) {
                                gradient.add_y_function(
                                    button.id,
                                    operation,
                                    level.y_functions[place].1,
                                    level.y_functions[place].0.clone(),
                                );
                            }
                            button.used = true;
                        }
                    },
                }
            }
            rest(button.used, None)
        },
        Interaction::Hovered => GradButtonLook {
            color: if button.used {
                ButtonColor::HoveredPressed
            } else {
                ButtonColor::Hovered
            },
            text_color: None,
            label: None,
        },
        Interaction::Idle => rest(button.used, level.label(button.xy, button.id)),
    }
}

/// The look of a basis function button at rest.
fn rest(used: bool, label: Option<String>) -> (look: GradButtonLook)
    ensures
        look == resting_look(used, label),
{
    if used {
        GradButtonLook {
            color: ButtonColor::Pressed,
            text_color: Some(TextColor::Pressed),
            label,
        }
    } else {
        GradButtonLook { color: ButtonColor::Normal, text_color: Some(TextColor::Normal), label }
    }
}

/// A basis function button at the start of a level: unused, at rest, with the
/// formula that the level has for it.
pub fn reset_grad_button<S, F>(button: &mut GradComponentButton, level: &Level<S, F>) -> (look:
    GradButtonLook)
    ensures
        final(button).id == old(button).id,
        final(button).xy == old(button).xy,
        !final(button).used,
        look == resting_look(false, label_of(*level, old(button).xy, old(button).id)),
{
    button.used = false;
    rest(false, level.label(button.xy, button.id))
}

/// A place on the panel where a basis function of a level may be shown.
pub struct FunctionComponent {
    /// The identifier of the basis function within its axis.
    pub id: u32,
    pub xy: ButtonXY,
    /// The formula shown.
    pub text: String,
    /// Whether the level being played has a basis function for this place.
    pub visible: bool,
}

/// The background of a place for a basis function under the pointer: pressed
/// while clicked, lighter under a hovering pointer, and plain otherwise.
pub fn function_component_interaction_handling(interaction: Interaction) -> (color: ButtonColor)
    ensures
        color == match interaction {
            Interaction::Clicked => ButtonColor::Pressed,
            Interaction::Hovered => ButtonColor::Hovered,
            Interaction::Idle => ButtonColor::Normal,
        },
{
    match interaction {
        Interaction::Clicked => ButtonColor::Pressed,
        Interaction::Hovered => ButtonColor::Hovered,
        Interaction::Idle => ButtonColor::Normal,
    }
}

/// The text that announces a new level: how opaque it is, whether it is
/// fading in or out, and the number it announces.
pub struct NewLevelText<S> {
    pub alpha: S,
    pub fade_in: bool,
    pub fade_out: bool,
    pub level: u32,
}

/// How the announcement is to look: the opacity to draw it with, and its text
/// where that changes.
pub struct NewLevelLook<S> {
    pub alpha: S,
    pub text: Option<String>,
}

impl<S> NewLevelText<S> {
    /// An announcement that cannot be seen and does not fade.
    pub fn new<A: Arithmetic<S>>(arithmetic: &A) -> (text_info: Self)
        ensures
            zero_is(*arithmetic, text_info.alpha),
            !text_info.fade_in,
            !text_info.fade_out,
            text_info.level == 0,
    {
        Self { alpha: arithmetic.zero(), fade_in: false, fade_out: false, level: 0 }
    }

    /// Starts to announce a level.
    pub fn announce(&mut self, level: u32)
        ensures
            final(self).alpha == old(self).alpha,
            final(self).fade_in,
            !final(self).fade_out,
            final(self).level == level,
    {
        self.fade_in = true;
        self.fade_out = false;
        self.level = level;
    }
}

/// What a step of an announcement that fades in may give: it grows more
/// opaque by `step`, is drawn so under its title, and turns to fading out
/// once its opacity is at least one.
pub open spec fn fades_in<S, A: Arithmetic<S>>(
    before: NewLevelText<S>,
    after: NewLevelText<S>,
    arithmetic: A,
    step: S,
    look: NewLevelLook<S>,
) -> bool {
    &&& adds(arithmetic, before.alpha, step, after.alpha)
    &&& look.alpha == after.alpha
    &&& look.text.is_some()
    &&& look.text.unwrap()@ == title_prefix() + decimal(before.level as nat)
    &&& exists|one: S, opaque: bool|
        counts(arithmetic, 1, one) && #[trigger] tells_at_least(
            arithmetic,
            after.alpha,
            one,
            opaque,
        ) && after.fade_in == !opaque
    &&& after.fade_out == (before.fade_out || !after.fade_in)
}

/// What a step of an announcement that fades out may give: it grows less
/// opaque by `step` and is drawn so; once its opacity is at most zero it
/// stops fading, loses its text and is held at zero.
pub open spec fn fades_out<S, A: Arithmetic<S>>(
    before: NewLevelText<S>,
    after: NewLevelText<S>,
    arithmetic: A,
    step: S,
    look: NewLevelLook<S>,
) -> bool {
    &&& subtracts(arithmetic, before.alpha, step, look.alpha)
    &&& !after.fade_in
    &&& exists|zero: S, clear: bool|
        zero_is(arithmetic, zero) && #[trigger] tells_at_most(arithmetic, look.alpha, zero, clear)
            && after.fade_out == !clear && (clear ==> after.alpha == zero)
    &&& if after.fade_out {
        after.alpha == look.alpha && look.text.is_none()
    } else {
        look.text.is_some() && look.text.unwrap()@ == Seq::<char>::empty()
    }
}

/// One step of the announcement of a new level, by `step` in opacity. An
/// announcement that fades in does so whether or not it also fades out. One
/// that does not fade stays as it is, and nothing is to be drawn.
pub fn new_level_text_system<S: Copy, A: Arithmetic<S>>(
    text_info: &mut NewLevelText<S>,
    arithmetic: &A,
    step: S,
) -> (look: Option<NewLevelLook<S>>)
    ensures
        final(text_info).level == old(text_info).level,
        look.is_some() == (old(text_info).fade_in || old(text_info).fade_out),
        old(text_info).fade_in ==> fades_in(
            *old(text_info),
            *final(text_info),
            *arithmetic,
            step,
            look.unwrap(),
        ),
        !old(text_info).fade_in && old(text_info).fade_out ==> fades_out(
            *old(text_info),
            *final(text_info),
            *arithmetic,
            step,
            look.unwrap(),
        ),
        look.is_none() ==> *final(text_info) == *old(text_info),
{
    if text_info.fade_in {
        text_info.alpha = arithmetic.add(text_info.alpha, step);
        let one = arithmetic.from_count(1);
        let opaque = arithmetic.at_least(text_info.alpha, one);
        assert(counts(*arithmetic, 1, one) && tells_at_least(
            *arithmetic,
            text_info.alpha,
            one,
            opaque,
        ));
        if opaque {
            text_info.fade_in = false;
            text_info.fade_out = true;
        }
        Some(NewLevelLook { alpha: text_info.alpha, text: Some(level_title(text_info.level)) })
    } else if text_info.fade_out {
        text_info.alpha = arithmetic.subtract(text_info.alpha, step);
        let alpha = text_info.alpha;
        let zero = arithmetic.zero();
        let clear = arithmetic.at_most(alpha, zero);
        assert(zero_is(*arithmetic, zero) && tells_at_most(*arithmetic, alpha, zero, clear));
        if clear {
            text_info.fade_out = false;
            text_info.alpha = zero;
            Some(NewLevelLook { alpha, text: Some(String::new()) })
        } else {
            Some(NewLevelLook { alpha, text: None })
        }
    } else {
        None
    }
}

} // verus!
