use the_game_of_gradients::{
    function_component_interaction_handling, grad_component_button_system, new_level_text_system, operation_state_button_handling,
    reset_grad_button, simulating_button_check, simulating_button_system, Arithmetic, ButtonColor,
    ButtonXY, GradComponentButton, Gradient, GradientOperation, GradientOperationState,
    Interaction, Level, NewLevelText, OperationButton, Simulating, SimulatingButton, TextColor,
};

type Basis = fn(f32, f32) -> f32;

fn level() -> Level<f32, Basis> {
    Level {
        level_number: 0,
        start_location: (-15., -15.),
        end_location: (0., 0.),
        x_functions: vec![
            ("x^2".to_string(), (|x, _y| x.powf(2.)) as Basis),
            ("1".to_string(), |_x, _y| 1.),
            ("-1".to_string(), |_x, _y| -1.),
            ("y".to_string(), |_x, y| y),
        ],
        y_functions: vec![("-100".to_string(), (|_x, _y| -100.) as Basis), ("x".to_string(), |x, _y| x)],
        gas_locations: Vec::new(),
        tick_time: 0.012,
    }
}

struct Reals;

impl Arithmetic<f32> for Reals {
    fn zero(&self) -> f32 {
        0.
    }

    fn from_count(&self, count: u32) -> f32 {
        count as f32
    }

    fn add(&self, a: f32, b: f32) -> f32 {
        a + b
    }

    fn subtract(&self, a: f32, b: f32) -> f32 {
        a - b
    }

    fn multiply(&self, a: f32, b: f32) -> f32 {
        a * b
    }

    fn divide(&self, a: f32, b: f32) -> f32 {
        a / b
    }

    fn square(&self, a: f32) -> f32 {
        a.powf(2.)
    }

    fn root(&self, a: f32) -> f32 {
        a.sqrt()
    }

    fn arctangent(&self, y: f32, x: f32) -> f32 {
        y.atan2(x)
    }

    fn less(&self, a: f32, b: f32) -> bool {
        a < b
    }

    fn at_least(&self, a: f32, b: f32) -> bool {
        a >= b
    }

    fn at_most(&self, a: f32, b: f32) -> bool {
        a <= b
    }
}

#[test]
fn simulating_button_starts_untoggled() {
    assert!(!SimulatingButton::new().toggled);
}

#[test]
fn click_starts_the_simulation() {
    let mut button = SimulatingButton::new();
    let mut simulating = Simulating::NotSimulating;
    let look = simulating_button_system(Interaction::Clicked, &mut button, &mut simulating);
    assert_eq!(simulating, Simulating::Simulating);
    assert!(button.toggled);
    assert_eq!(look.color, ButtonColor::SimOn);
    assert_eq!(look.text, Some("Stop".to_string()));
}

#[test]
fn click_stops_the_simulation() {
    let mut button = SimulatingButton { toggled: true };
    let mut simulating = Simulating::Simulating;
    let look = simulating_button_system(Interaction::Clicked, &mut button, &mut simulating);
    assert_eq!(simulating, Simulating::NotSimulating);
    assert!(!button.toggled);
    assert_eq!(look.color, ButtonColor::SimOff);
    assert_eq!(look.text, Some("Simulate".to_string()));
}

#[test]
fn click_goes_by_the_session_not_the_button() {
    let mut button = SimulatingButton { toggled: true };
    let mut simulating = Simulating::NotSimulating;
    let look = simulating_button_system(Interaction::Clicked, &mut button, &mut simulating);
    assert_eq!(simulating, Simulating::Simulating);
    assert!(button.toggled);
    assert_eq!(look.color, ButtonColor::SimOn);
}

#[test]
fn hovering_over_the_simulating_button() {
    let mut button = SimulatingButton { toggled: true };
    let mut simulating = Simulating::NotSimulating;
    let look = simulating_button_system(Interaction::Hovered, &mut button, &mut simulating);
    assert_eq!(simulating, Simulating::NotSimulating);
    assert!(!button.toggled);
    assert_eq!(look.color, ButtonColor::SimOffHover);
    assert_eq!(look.text, None);
    simulating = Simulating::Simulating;
    let look = simulating_button_system(Interaction::Hovered, &mut button, &mut simulating);
    assert_eq!(simulating, Simulating::Simulating);
    assert!(button.toggled);
    assert_eq!(look.color, ButtonColor::SimOnHover);
    assert_eq!(look.text, None);
}

#[test]
fn simulating_button_left_alone() {
    let mut button = SimulatingButton::new();
    let mut simulating = Simulating::Simulating;
    let look = simulating_button_system(Interaction::Idle, &mut button, &mut simulating);
    assert_eq!(simulating, Simulating::Simulating);
    assert!(button.toggled);
    assert_eq!(look.color, ButtonColor::SimOn);
    assert_eq!(look.text, Some("Stop".to_string()));
    simulating = Simulating::NotSimulating;
    let look = simulating_button_system(Interaction::Idle, &mut button, &mut simulating);
    assert!(!button.toggled);
    assert_eq!(look.color, ButtonColor::SimOff);
    assert_eq!(look.text, Some("Simulate".to_string()));
}

#[test]
fn check_brings_the_button_in_line() {
    let mut button = SimulatingButton { toggled: true };
    let look = simulating_button_check(&mut button, Simulating::NotSimulating).unwrap();
    assert!(!button.toggled);
    assert_eq!(look.color, ButtonColor::SimOff);
    assert_eq!(look.text, Some("Simulate".to_string()));
    let look = simulating_button_check(&mut button, Simulating::Simulating).unwrap();
    assert!(button.toggled);
    assert_eq!(look.color, ButtonColor::SimOn);
    assert_eq!(look.text, Some("Stop".to_string()));
}

#[test]
fn check_leaves_a_button_in_line_alone() {
    let mut button = SimulatingButton { toggled: true };
    assert!(simulating_button_check(&mut button, Simulating::Simulating).is_none());
    assert!(button.toggled);
    let mut button = SimulatingButton { toggled: false };
    assert!(simulating_button_check(&mut button, Simulating::NotSimulating).is_none());
    assert!(!button.toggled);
}

#[test]
fn click_changes_the_operator() {
    let mut button = OperationButton { operation: GradientOperation::new() };
    let mut state = GradientOperationState::Add;
    let look = operation_state_button_handling(Interaction::Clicked, &mut button, &mut state);
    assert_eq!(button.operation, GradientOperation::Multiply);
    assert_eq!(state, GradientOperationState::Multiply);
    assert_eq!(look.color, ButtonColor::Pressed);
    assert_eq!(look.text, Some("Multiply".to_string()));
    let look = operation_state_button_handling(Interaction::Clicked, &mut button, &mut state);
    assert_eq!(button.operation, GradientOperation::Add);
    assert_eq!(state, GradientOperationState::Add);
    assert_eq!(look.color, ButtonColor::Pressed);
    assert_eq!(look.text, Some("Add".to_string()));
}

#[test]
fn operator_button_under_a_resting_pointer() {
    let mut button = OperationButton { operation: GradientOperation::Multiply };
    let mut state = GradientOperationState::Multiply;
    let look = operation_state_button_handling(Interaction::Hovered, &mut button, &mut state);
    assert_eq!(look.color, ButtonColor::Hovered);
    assert_eq!(look.text, None);
    let look = operation_state_button_handling(Interaction::Idle, &mut button, &mut state);
    assert_eq!(look.color, ButtonColor::Normal);
    assert_eq!(look.text, None);
    assert_eq!(button.operation, GradientOperation::Multiply);
    assert_eq!(state, GradientOperationState::Multiply);
}

#[test]
fn click_on_an_unused_button_adds_its_term() {
    let level = level();
    let mut gradient: Gradient<Basis> = Gradient::new();
    let mut simulating = Simulating::Simulating;
    let mut button = GradComponentButton { id: 0, xy: ButtonXY::X, used: false };
    let look = grad_component_button_system(
        Interaction::Clicked,
        &mut button,
        &mut gradient,
        &level,
        &mut simulating,
        GradientOperationState::Add,
    );
    assert_eq!(simulating, Simulating::NotSimulating);
    assert!(button.used);
    assert_eq!(look.color, ButtonColor::Pressed);
    assert_eq!(look.text_color, Some(TextColor::Pressed));
    assert_eq!(look.label, None);
    assert_eq!(gradient.x_functions.len(), 1);
    assert_eq!(gradient.x_functions[0].id, 0);
    assert_eq!(gradient.x_functions[0].operation, GradientOperation::Add);
    assert_eq!(gradient.x_functions[0].label, "x^2");
    assert!(gradient.y_functions.is_empty());
    assert_eq!(gradient.x(3., 0., &Reals), 9.0);
}

#[test]
fn clicked_terms_carry_the_operator_in_force() {
    let level = level();
    let mut gradient: Gradient<Basis> = Gradient::new();
    let mut simulating = Simulating::NotSimulating;
    let mut first = GradComponentButton { id: 1, xy: ButtonXY::Y, used: false };
    let mut second = GradComponentButton { id: 0, xy: ButtonXY::Y, used: false };
    grad_component_button_system(
        Interaction::Clicked,
        &mut first,
        &mut gradient,
        &level,
        &mut simulating,
        GradientOperationState::Add,
    );
    grad_component_button_system(
        Interaction::Clicked,
        &mut second,
        &mut gradient,
        &level,
        &mut simulating,
        GradientOperationState::Multiply,
    );
    assert!(gradient.x_functions.is_empty());
    assert_eq!(gradient.y_text(), "(x) * -100");
    assert_eq!(gradient.y(2., 9., &Reals), -200.0);
    assert_eq!(gradient.y_functions[1].operation, GradientOperation::Multiply);
}

#[test]
fn click_on_a_used_button_removes_its_term() {
    let level = level();
    let mut gradient: Gradient<Basis> = Gradient::new();
    gradient.add_x_function(3, GradientOperation::Add, |_x, y| y, "y".to_string());
    gradient.add_x_function(1, GradientOperation::Add, |_x, _y| 1., "1".to_string());
    let mut simulating = Simulating::Simulating;
    let mut button = GradComponentButton { id: 3, xy: ButtonXY::X, used: true };
    let look = grad_component_button_system(
        Interaction::Clicked,
        &mut button,
        &mut gradient,
        &level,
        &mut simulating,
        GradientOperationState::Multiply,
    );
    assert_eq!(simulating, Simulating::NotSimulating);
    assert!(!button.used);
    assert_eq!(look.color, ButtonColor::Normal);
    assert_eq!(look.text_color, Some(TextColor::Normal));
    assert_eq!(gradient.x_text(), "1");
}

#[test]
fn click_never_adds_a_term_twice() {
    let level = level();
    let mut gradient: Gradient<Basis> = Gradient::new();
    gradient.add_x_function(1, GradientOperation::Add, |_x, _y| 1., "1".to_string());
    let mut simulating = Simulating::NotSimulating;
    let mut button = GradComponentButton { id: 1, xy: ButtonXY::X, used: false };
    let look = grad_component_button_system(
        Interaction::Clicked,
        &mut button,
        &mut gradient,
        &level,
        &mut simulating,
        GradientOperationState::Add,
    );
    assert!(button.used);
    assert_eq!(look.color, ButtonColor::Pressed);
    assert_eq!(gradient.x_functions.len(), 1);
    assert_eq!(gradient.x_text(), "1");
}

#[test]
fn click_on_a_button_the_level_lacks_adds_nothing() {
    let level = level();
    let mut gradient: Gradient<Basis> = Gradient::new();
    let mut simulating = Simulating::Simulating;
    let mut button = GradComponentButton { id: 2, xy: ButtonXY::Y, used: false };
    let look = grad_component_button_system(
        Interaction::Clicked,
        &mut button,
        &mut gradient,
        &level,
        &mut simulating,
        GradientOperationState::Add,
    );
    assert_eq!(simulating, Simulating::NotSimulating);
    assert!(!button.used);
    assert_eq!(look.color, ButtonColor::Normal);
    assert_eq!(look.text_color, Some(TextColor::Normal));
    assert!(gradient.x_functions.is_empty());
    assert!(gradient.y_functions.is_empty());
}

#[test]
fn hovering_over_a_function_button() {
    let level = level();
    let mut gradient: Gradient<Basis> = Gradient::new();
    let mut simulating = Simulating::Simulating;
    let mut button = GradComponentButton { id: 0, xy: ButtonXY::X, used: false };
    let look = grad_component_button_system(
        Interaction::Hovered,
        &mut button,
        &mut gradient,
        &level,
        &mut simulating,
        GradientOperationState::Add,
    );
    assert_eq!(look.color, ButtonColor::Hovered);
    assert_eq!(look.text_color, None);
    assert_eq!(look.label, None);
    button.used = true;
    let look = grad_component_button_system(
        Interaction::Hovered,
        &mut button,
        &mut gradient,
        &level,
        &mut simulating,
        GradientOperationState::Add,
    );
    assert_eq!(look.color, ButtonColor::HoveredPressed);
    assert_eq!(simulating, Simulating::Simulating);
    assert!(gradient.x_functions.is_empty());
    assert!(button.used);
}

#[test]
fn function_button_left_alone_shows_its_formula() {
    let level = level();
    let mut gradient: Gradient<Basis> = Gradient::new();
    let mut simulating = Simulating::Simulating;
    let mut button = GradComponentButton { id: 1, xy: ButtonXY::Y, used: false };
    let look = grad_component_button_system(
        Interaction::Idle,
        &mut button,
        &mut gradient,
        &level,
        &mut simulating,
        GradientOperationState::Add,
    );
    assert_eq!(look.label, Some("x".to_string()));
    assert_eq!(look.color, ButtonColor::Normal);
    assert_eq!(look.text_color, Some(TextColor::Normal));
    let mut button = GradComponentButton { id: 2, xy: ButtonXY::X, used: true };
    let look = grad_component_button_system(
        Interaction::Idle,
        &mut button,
        &mut gradient,
        &level,
        &mut simulating,
        GradientOperationState::Add,
    );
    assert_eq!(look.label, Some("-1".to_string()));
    assert_eq!(look.color, ButtonColor::Pressed);
    assert_eq!(look.text_color, Some(TextColor::Pressed));
    assert_eq!(simulating, Simulating::Simulating);
    assert!(gradient.x_functions.is_empty());
}

#[test]
fn function_button_beyond_the_level_has_no_formula() {
    let level = level();
    let mut gradient: Gradient<Basis> = Gradient::new();
    let mut simulating = Simulating::NotSimulating;
    let mut button = GradComponentButton { id: 4, xy: ButtonXY::X, used: false };
    let look = grad_component_button_system(
        Interaction::Idle,
        &mut button,
        &mut gradient,
        &level,
        &mut simulating,
        GradientOperationState::Add,
    );
    assert_eq!(look.label, None);
    assert_eq!(level.label(ButtonXY::X, 3), Some("y".to_string()));
    assert_eq!(level.label(ButtonXY::X, 4), None);
    assert_eq!(level.label(ButtonXY::Y, 2), None);
}

#[test]
fn reset_leaves_a_button_unused_with_its_new_formula() {
    let level = level();
    let mut button = GradComponentButton { id: 2, xy: ButtonXY::X, used: true };
    let look = reset_grad_button(&mut button, &level);
    assert_eq!(button, GradComponentButton { id: 2, xy: ButtonXY::X, used: false });
    assert_eq!(look.color, ButtonColor::Normal);
    assert_eq!(look.text_color, Some(TextColor::Normal));
    assert_eq!(look.label, Some("-1".to_string()));
}

#[test]
fn announcement_starts_out_of_sight() {
    let text = NewLevelText::new(&Reals);
    assert_eq!(text.alpha, 0.0);
    assert!(!text.fade_in);
    assert!(!text.fade_out);
    assert_eq!(text.level, 0);
}

#[test]
fn announcement_at_rest_does_nothing() {
    let mut text = NewLevelText::new(&Reals);
    assert!(new_level_text_system(&mut text, &Reals, 0.25).is_none());
    assert_eq!(text.alpha, 0.0);
}

#[test]
fn announcement_fades_in_then_out() {
    let mut text = NewLevelText::new(&Reals);
    text.announce(3);
    for expected in [0.25f32, 0.5, 0.75] {
        let look = new_level_text_system(&mut text, &Reals, 0.25).unwrap();
        assert_eq!(look.alpha, expected);
        assert_eq!(look.text, Some("Level 3".to_string()));
        assert!(text.fade_in);
        assert!(!text.fade_out);
        assert_eq!(text.alpha, expected);
    }
    let look = new_level_text_system(&mut text, &Reals, 0.25).unwrap();
    assert_eq!(look.alpha, 1.0);
    assert_eq!(look.text, Some("Level 3".to_string()));
    assert!(!text.fade_in);
    assert!(text.fade_out);
    for expected in [0.75f32, 0.5, 0.25] {
        let look = new_level_text_system(&mut text, &Reals, 0.25).unwrap();
        assert_eq!(look.alpha, expected);
        assert_eq!(look.text, None);
        assert!(text.fade_out);
        assert_eq!(text.alpha, expected);
    }
    let look = new_level_text_system(&mut text, &Reals, 0.25).unwrap();
    assert_eq!(look.alpha, 0.0);
    assert_eq!(look.text, Some(String::new()));
    assert!(!text.fade_in);
    assert!(!text.fade_out);
    assert_eq!(text.alpha, 0.0);
    assert!(new_level_text_system(&mut text, &Reals, 0.25).is_none());
}

#[test]
fn announcement_is_drawn_below_clear_but_held_at_clear() {
    let mut text = NewLevelText { alpha: 0.1f32, fade_in: false, fade_out: true, level: 1 };
    let look = new_level_text_system(&mut text, &Reals, 0.25).unwrap();
    assert_eq!(look.alpha, 0.1f32 - 0.25);
    assert_eq!(text.alpha, 0.0);
    assert!(!text.fade_out);
}

#[test]
fn panel_place_under_the_pointer() {
    assert_eq!(function_component_interaction_handling(Interaction::Clicked), ButtonColor::Pressed);
    assert_eq!(function_component_interaction_handling(Interaction::Hovered), ButtonColor::Hovered);
    assert_eq!(function_component_interaction_handling(Interaction::Idle), ButtonColor::Normal);
}
