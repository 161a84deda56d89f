use the_game_of_gradients::{
    decimal_text, level_title, GameState, Gradient, GradientOperation, Level,
};

type Basis = fn(f32, f32) -> f32;

fn level(gas_locations: Vec<(f32, f32)>) -> Level<f32, Basis> {
    Level {
        level_number: 0,
        start_location: (0., 0.),
        end_location: (1., 1.),
        x_functions: Vec::new(),
        y_functions: Vec::new(),
        gas_locations,
        tick_time: 0.001,
    }
}

#[test]
fn decimal_of_single_digits() {
    for (n, text) in
        [(0, "0"), (1, "1"), (2, "2"), (3, "3"), (4, "4"), (5, "5"), (6, "6"), (7, "7"), (8, "8"), (9, "9")]
    {
        assert_eq!(decimal_text(n), text);
    }
}

#[test]
fn decimal_of_longer_numbers() {
    assert_eq!(decimal_text(10), "10");
    assert_eq!(decimal_text(11), "11");
    assert_eq!(decimal_text(100), "100");
    assert_eq!(decimal_text(1009), "1009");
    assert_eq!(decimal_text(4294967295), "4294967295");
    assert_eq!(decimal_text(u64::MAX), "18446744073709551615");
}

#[test]
fn decimal_agrees_with_formatting() {
    for n in (0..5000u64).chain([u32::MAX as u64 - 1, 1 << 40, u64::MAX - 1]) {
        assert_eq!(decimal_text(n), format!("{}", n));
    }
}

#[test]
fn title_of_a_level() {
    assert_eq!(level_title(0), "Level 0");
    assert_eq!(level_title(7), "Level 7");
    assert_eq!(level_title(12), "Level 12");
}

#[test]
fn level_line_counts_from_one() {
    let mut state: GameState<f32, Basis> =
        GameState::new((0..12).map(|_| level(Vec::new())).collect());
    assert_eq!(state.level_text(), "Level: 1");
    state.current_level = 9;
    assert_eq!(state.level_text(), "Level: 10");
    state.current_level = 11;
    assert_eq!(state.level_text(), "Level: 12");
}

#[test]
fn gas_line_counts_collected_of_all() {
    let mut state: GameState<f32, Basis> =
        GameState::new(vec![level(vec![(0., 0.), (1., 1.), (2., 2.)])]);
    state.gas_collected = vec![0, 0, 0];
    assert_eq!(state.gas_collected_text(), Some("Gas Collected: 0/3".to_string()));
    state.gas_collected = vec![1, 0, 1];
    assert_eq!(state.gas_collected_text(), Some("Gas Collected: 2/3".to_string()));
    state.gas_collected = vec![1, 1, 1];
    assert_eq!(state.gas_collected_text(), Some("Gas Collected: 3/3".to_string()));
}

#[test]
fn gas_line_is_absent_without_cans() {
    let state: GameState<f32, Basis> = GameState::new(vec![level(Vec::new())]);
    assert_eq!(state.gas_collected_text(), None);
}

#[test]
fn gas_line_with_many_cans() {
    let cans: Vec<(f32, f32)> = (0..12).map(|i| (i as f32, 0.)).collect();
    let mut state: GameState<f32, Basis> = GameState::new(vec![level(cans)]);
    state.gas_collected = vec![1; 12];
    state.gas_collected[3] = 0;
    assert_eq!(state.gas_collected_text(), Some("Gas Collected: 11/12".to_string()));
}

#[test]
fn equation_lines() {
    let mut gradient: Gradient<Basis> = Gradient::new();
    assert_eq!(gradient.x_equation(), "x = 0");
    assert_eq!(gradient.y_equation(), "y = 0");
    gradient.add_x_function(0, GradientOperation::Add, |x, _y| x, "x".to_string());
    gradient.add_x_function(1, GradientOperation::Multiply, |_x, _y| 2., "2".to_string());
    gradient.add_y_function(3, GradientOperation::Add, |_x, y| y, "y".to_string());
    gradient.add_y_function(1, GradientOperation::Add, |_x, _y| 1., "1".to_string());
    assert_eq!(gradient.x_equation(), "x = (x) * 2");
    assert_eq!(gradient.y_equation(), "y = y + 1");
}
