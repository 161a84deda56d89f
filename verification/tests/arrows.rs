use std::f32::consts::PI;
use the_game_of_gradients::{
    arrow_angle, arrow_hue, arrow_numbers, coordinate, gradient_arrows, length,
    update_gradient_arrows, visible_width, Arithmetic, Gradient, GradientArrow, GradientOperation,
    Sampling,
};

type Basis = fn(f32, f32) -> f32;

struct Reals;

impl Arithmetic<f32> for Reals {
    fn zero(&self) -> f32 {
        0.
    }

    fn from_count(&self, count: u32) -> f32 {
        count as f32
    }

    fn add(&self, a: f32, b: f32) -> f32 {
        a + b
    }

    fn subtract(&self, a: f32, b: f32) -> f32 {
        a - b
    }

    fn multiply(&self, a: f32, b: f32) -> f32 {
        a * b
    }

    fn divide(&self, a: f32, b: f32) -> f32 {
        a / b
    }

    fn square(&self, a: f32) -> f32 {
        a.powf(2.)
    }

    fn root(&self, a: f32) -> f32 {
        a.sqrt()
    }

    fn arctangent(&self, y: f32, x: f32) -> f32 {
        y.atan2(x)
    }

    fn less(&self, a: f32, b: f32) -> bool {
        a < b
    }

    fn at_least(&self, a: f32, b: f32) -> bool {
        a >= b
    }

    fn at_most(&self, a: f32, b: f32) -> bool {
        a <= b
    }
}

fn sampling(
    columns: u32,
    rows: u32,
    width: f32,
    height: f32,
    base_scale: f32,
    expected_max_scale: f32,
) -> Sampling<f32> {
    Sampling {
        columns,
        rows,
        width,
        height,
        base_scale,
        expected_max_scale,
        full_turn: 360.,
        glyph_turn: 0.25 * PI,
    }
}

fn arrows(columns: u32, rows: u32) -> Vec<GradientArrow<f32>> {
    arrow_numbers(columns, rows)
        .into_iter()
        .map(|(x_number, y_number)| GradientArrow {
            x: 0.,
            y: 0.,
            scale: 0.01,
            x_number,
            y_number,
            angle: 0.,
        })
        .collect()
}

#[test]
fn grid_lists_columns_then_rows() {
    assert_eq!(arrow_numbers(2, 3), vec![(0, 0), (0, 1), (0, 2), (1, 0), (1, 1), (1, 2)]);
}

#[test]
fn grid_of_the_usual_size() {
    let numbers = arrow_numbers(11, 11);
    assert_eq!(numbers.len(), 121);
    for i in 0..11u32 {
        for j in 0..11u32 {
            assert_eq!(numbers[(i * 11 + j) as usize], (i, j));
        }
    }
}

#[test]
fn grid_without_columns_or_rows_is_empty() {
    assert!(arrow_numbers(0, 5).is_empty());
    assert!(arrow_numbers(5, 0).is_empty());
    assert_eq!(arrow_numbers(1, 1), vec![(0, 0)]);
}

#[test]
fn arrows_stand_on_the_edges_and_between() {
    let gradient: Gradient<Basis> = Gradient::new();
    let mut arrows = arrows(3, 5);
    update_gradient_arrows(&mut arrows, &gradient, &Reals, &sampling(3, 5, 4., 20., 0.5, 8.));
    let xs = [-2.0f32, 0., 2.];
    let ys = [-10.0f32, -5., 0., 5., 10.];
    for (k, arrow) in arrows.iter().enumerate() {
        assert_eq!(arrow.x_number as usize, k / 5);
        assert_eq!(arrow.y_number as usize, k % 5);
        assert_eq!(arrow.x, xs[k / 5]);
        assert_eq!(arrow.y, ys[k % 5]);
    }
}

#[test]
fn strongest_arrow_is_drawn_at_the_target() {
    let mut gradient: Gradient<Basis> = Gradient::new();
    gradient.add_x_function(0, GradientOperation::Add, |x, _y| x, "x".to_string());
    let mut arrows = arrows(3, 1);
    arrows[1].x_number = 2;
    arrows[2].x_number = 1;
    let hues = update_gradient_arrows(
        &mut arrows,
        &gradient,
        &Reals,
        &sampling(4, 2, 6., 20., 0.5, 8.),
    );
    // columns at -3, -1, 1, 3; the arrows stand in columns 0, 2 and 1
    assert_eq!(arrows[0].x, -3.);
    assert_eq!(arrows[1].x, 1.);
    assert_eq!(arrows[2].x, -1.);
    assert_eq!(arrows[0].y, -10.);
    // raw sizes 1.5, 0.5, 0.5; the greatest is 1.5; the target is 4
    assert_eq!(arrows[0].scale, 4.0);
    assert_eq!(arrows[1].scale, (4.0f32 / 1.5) * 0.5);
    assert_eq!(arrows[2].scale, (4.0f32 / 1.5) * 0.5);
    assert_eq!(hues[0], 360.);
    assert_eq!(hues[1], (4.0f32 / 1.5) * 0.5 / 4. * 360.);
    assert_eq!(arrows[0].angle, 0.0f32.atan2(-3.) - 0.25 * PI);
    assert_eq!(arrows[1].angle, -0.25 * PI);
    for arrow in &arrows {
        assert!(arrow.scale <= 4.0);
    }
}

#[test]
fn weak_field_is_held_to_the_base_size() {
    let mut gradient: Gradient<Basis> = Gradient::new();
    gradient.add_y_function(0, GradientOperation::Add, |_x, _y| 0.5, "1/2".to_string());
    let mut arrows = arrows(2, 2);
    let hues = update_gradient_arrows(
        &mut arrows,
        &gradient,
        &Reals,
        &sampling(2, 2, 2., 2., 0.5, 8.),
    );
    // raw sizes 0.25, below the base size 0.5, which stays the greatest
    for (arrow, hue) in arrows.iter().zip(hues) {
        assert_eq!(arrow.scale, (4.0 / 0.5) * 0.25);
        assert_eq!(hue, 180.);
        assert_eq!(arrow.angle, 0.5f32.atan2(0.) - 0.25 * PI);
    }
}

#[test]
fn empty_field_gives_arrows_of_no_size() {
    let gradient: Gradient<Basis> = Gradient::new();
    let mut arrows = arrows(11, 11);
    let hues = update_gradient_arrows(
        &mut arrows,
        &gradient,
        &Reals,
        &sampling(11, 11, 35.5, 20., 0.001, 10.),
    );
    assert_eq!(hues.len(), 121);
    for (arrow, hue) in arrows.iter().zip(hues) {
        assert_eq!(arrow.scale, 0.0);
        assert_eq!(hue, 0.0);
        assert_eq!(arrow.angle, -0.25 * PI);
    }
    assert_eq!(arrows[0].x, -35.5 / 2.);
    assert_eq!(arrows[120].x, 10. * 35.5 / 10. - 35.5 / 2.);
    assert_eq!(arrows[120].y, 10.);
}

#[test]
fn all_sizes_share_one_ratio() {
    let mut gradient: Gradient<Basis> = Gradient::new();
    gradient.add_x_function(0, GradientOperation::Add, |x, _y| x.powf(2.), "x^2".to_string());
    gradient.add_y_function(1, GradientOperation::Add, |_x, y| y, "y".to_string());
    gradient.add_y_function(0, GradientOperation::Multiply, |x, _y| x, "x".to_string());
    let sampling = sampling(11, 11, 30., 20., 0.001, 10.);
    let mut arrows = arrows(11, 11);
    let hues = update_gradient_arrows(&mut arrows, &gradient, &Reals, &sampling);
    let raw = |arrow: &GradientArrow<f32>| 0.001 * gradient.magnitude(arrow.x, arrow.y, &Reals);
    let mut greatest = 0.001f32;
    for arrow in &arrows {
        if greatest < raw(arrow) {
            greatest = raw(arrow);
        }
    }
    let ratio = (10. * 0.001) / greatest;
    for (arrow, hue) in arrows.iter().zip(hues) {
        assert_eq!(arrow.scale, ratio * raw(arrow));
        assert_eq!(hue, arrow.scale / (0.001 * 10.) * 360.);
        assert_eq!(
            arrow.angle,
            gradient.y(arrow.x, arrow.y, &Reals).atan2(gradient.x(arrow.x, arrow.y, &Reals))
                - 0.25 * PI
        );
        assert!(arrow.scale <= ratio * greatest);
    }
    assert!(arrows.iter().any(|arrow| raw(arrow) == greatest));
}

#[test]
fn coordinate_of_an_arrow() {
    assert_eq!(coordinate(&Reals, 0, 11, 20.), -10.);
    assert_eq!(coordinate(&Reals, 5, 11, 20.), 0.);
    assert_eq!(coordinate(&Reals, 10, 11, 20.), 10.);
    assert_eq!(coordinate(&Reals, 3, 11, 35.), 3. * 35. / 10. - 35. / 2.);
    assert_eq!(coordinate(&Reals, 1, 3, 8.), 0.);
}

#[test]
fn angle_of_an_arrow() {
    assert_eq!(arrow_angle(&Reals, 1., 1., 0.25 * PI), 0.);
    assert_eq!(arrow_angle(&Reals, 0., 1., 0.25 * PI), -0.25 * PI);
    assert_eq!(arrow_angle(&Reals, 1., 0., 0.25 * PI), 0.5 * PI - 0.25 * PI);
    assert_eq!(arrow_angle(&Reals, 0., -1., 0.5 * PI), PI - 0.5 * PI);
}

#[test]
fn hue_of_an_arrow() {
    assert_eq!(arrow_hue(&Reals, 0., 4., 360.), 0.);
    assert_eq!(arrow_hue(&Reals, 1., 4., 360.), 90.);
    assert_eq!(arrow_hue(&Reals, 4., 4., 360.), 360.);
    assert_eq!(arrow_hue(&Reals, 0.003, 0.001 * 10., 360.), 0.003 / (0.001 * 10.) * 360.);
}

#[test]
fn length_of_a_vector() {
    assert_eq!(length(&Reals, 3., 4.), 5.);
    assert_eq!(length(&Reals, 0., 0.), 0.);
    assert_eq!(length(&Reals, -1., 4.), 17.0f32.sqrt());
}

#[test]
fn fresh_arrows_fill_the_grid() {
    let arrows = gradient_arrows(&Reals, &sampling(11, 11, 0., 20., 0.001, 10.));
    assert_eq!(arrows.len(), 121);
    for (k, arrow) in arrows.iter().enumerate() {
        assert_eq!(
            *arrow,
            GradientArrow {
                x: 0.,
                y: 0.,
                scale: 0.001 * 10.,
                x_number: (k / 11) as u32,
                y_number: (k % 11) as u32,
                angle: 0.,
            }
        );
    }
    let arrows = gradient_arrows(&Reals, &sampling(2, 3, 0., 20., 0.5, 10.));
    let numbers: Vec<(u32, u32)> = arrows.iter().map(|a| (a.x_number, a.y_number)).collect();
    assert_eq!(numbers, vec![(0, 0), (0, 1), (0, 2), (1, 0), (1, 1), (1, 2)]);
    assert_eq!(arrows[0].scale, 5.);
}

#[test]
fn width_of_the_visible_area() {
    assert_eq!(visible_width(&Reals, 1280., 720., 20.), 1280. / (720. / 20.));
    assert_eq!(visible_width(&Reals, 800., 400., 20.), 40.);
    assert_eq!(visible_width(&Reals, 400., 400., 20.), 20.);
}

#[test]
fn refreshed_fresh_arrows() {
    let mut gradient: Gradient<Basis> = Gradient::new();
    gradient.add_x_function(0, GradientOperation::Add, |_x, _y| 1., "1".to_string());
    let sampling = sampling(11, 11, 40., 20., 0.001, 10.);
    let mut arrows = gradient_arrows(&Reals, &sampling);
    let hues = update_gradient_arrows(&mut arrows, &gradient, &Reals, &sampling);
    // every raw size is the base size, which is also the greatest
    for (k, (arrow, hue)) in arrows.iter().zip(hues).enumerate() {
        assert_eq!(arrow.scale, (10. * 0.001) / 0.001 * 0.001);
        assert_eq!(hue, arrow.scale / (0.001 * 10.) * 360.);
        assert_eq!(arrow.angle, -0.25 * PI);
        assert_eq!(arrow.x, (k / 11) as f32 * 40. / 10. - 20.);
        assert_eq!(arrow.y, (k % 11) as f32 * 20. / 10. - 10.);
    }
}
