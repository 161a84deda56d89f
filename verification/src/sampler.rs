//! The arrow field: the field sampled on a grid, each arrow turned along the
//! field and sized by its strength relative to the strongest arrow.

use crate::arithmetic::{
    angles, counts, divides, multiplies, ordered_by, shares, subtracts, tells_less, zero_is,
    Arithmetic,
};
use crate::arrows::{arrow_numbers, grid};
use crate::evaluation::{defined_at, folds_to};
use crate::gradient_field::Gradient;
use vstd::prelude::*;

verus! {

/// An arrow of the sample grid: its column and row, the point it stands at,
/// and the size and angle it is drawn with.
#[derive(Debug, PartialEq)]
pub struct GradientArrow<S> {
    pub x: S,
    pub y: S,
    pub scale: S,
    pub x_number: u32,
    pub y_number: u32,
    pub angle: S,
}

/// What sampling needs beside the field and its arithmetic: the grid and the
/// visible area, the sizes that arrows are held to, and the angle and the hue
/// of the drawing.
pub struct Sampling<S> {
    /// The number of arrows along x.
    pub columns: u32,
    /// The number of arrows along y.
    pub rows: u32,
    /// The extent of the visible area along x.
    pub width: S,
    /// The extent of the visible area along y.
    pub height: S,
    /// The size of an arrow where the field has magnitude one; also the least
    /// size that counts as the strongest.
    pub base_scale: S,
    /// How many times the base size the strongest arrow is drawn at.
    pub expected_max_scale: S,
    /// The hue of the strongest arrow.
    pub full_turn: S,
    /// The angle by which the picture of an arrow is turned as it is.
    pub glyph_turn: S,
}

/// `result` is a width of the visible area in the units of the field, for a
/// window of `pixels_wide` by `pixels_high` that shows `height` units from
/// top to bottom: the width in pixels over the pixels per unit, which are the
/// height in pixels over the height in units.
pub open spec fn widens<S, A: Arithmetic<S>>(
    arithmetic: A,
    pixels_wide: S,
    pixels_high: S,
    height: S,
    result: S,
) -> bool {
    exists|pixels_per_unit: S| #[trigger]
        divides(arithmetic, pixels_high, height, pixels_per_unit) && divides(
            arithmetic,
            pixels_wide,
            pixels_per_unit,
            result,
        )
}

/// The width of the visible area in the units of the field, for a window of
/// `pixels_wide` by `pixels_high` that shows `height` units from top to
/// bottom.
pub fn visible_width<S: Copy, A: Arithmetic<S>>(
    arithmetic: &A,
    pixels_wide: S,
    pixels_high: S,
    height: S,
) -> (result: S)
    ensures
        widens(*arithmetic, pixels_wide, pixels_high, height, result),
{
    let pixels_per_unit = arithmetic.divide(pixels_high, height);
    assert(divides(*arithmetic, pixels_high, height, pixels_per_unit));
    arithmetic.divide(pixels_wide, pixels_per_unit)
}

/// The steps from the number of an arrow to its coordinate.
pub struct Placing<S> {
    /// The number of the arrow, as a scalar.
    pub number: S,
    /// The number times the extent.
    pub span: S,
    /// The number of arrows, as a scalar.
    pub count: S,
    /// The scalar one.
    pub one: S,
    /// The number of gaps between arrows: one less than there are arrows.
    pub gaps: S,
    /// The distance of the arrow from the first: the span over the gaps.
    pub offset: S,
    /// The scalar two.
    pub two: S,
    /// Half the extent.
    pub half: S,
}

/// `steps` lead from arrow `number` of `count` along an axis of extent
/// `extent` to the coordinate `result`: the number times the extent, over one
/// less than the count, less half the extent.
pub open spec fn is_placing<S, A: Arithmetic<S>>(
    arithmetic: A,
    number: u32,
    count: u32,
    extent: S,
    steps: Placing<S>,
    result: S,
) -> bool {
    &&& counts(arithmetic, number, steps.number)
    &&& multiplies(arithmetic, steps.number, extent, steps.span)
    &&& counts(arithmetic, count, steps.count)
    &&& counts(arithmetic, 1, steps.one)
    &&& subtracts(arithmetic, steps.count, steps.one, steps.gaps)
    &&& divides(arithmetic, steps.span, steps.gaps, steps.offset)
    &&& counts(arithmetic, 2, steps.two)
    &&& divides(arithmetic, extent, steps.two, steps.half)
    &&& subtracts(arithmetic, steps.offset, steps.half, result)
}

/// `result` is a coordinate of arrow `number` of `count` along an axis of
/// extent `extent`.
pub open spec fn places<S, A: Arithmetic<S>>(
    arithmetic: A,
    number: u32,
    count: u32,
    extent: S,
    result: S,
) -> bool {
    exists|steps: Placing<S>| #[trigger]
        is_placing(arithmetic, number, count, extent, steps, result)
}

/// `result` is an angle to draw an arrow at where the field has the
/// components `along_x` and `along_y`: the angle of that vector less the
/// angle by which the picture is turned as it is.
pub open spec fn turns<S, A: Arithmetic<S>>(
    arithmetic: A,
    along_y: S,
    along_x: S,
    glyph_turn: S,
    result: S,
) -> bool {
    exists|angle: S| #[trigger]
        angles(arithmetic, along_y, along_x, angle) && subtracts(
            arithmetic,
            angle,
            glyph_turn,
            result,
        )
}

/// `result` is a hue of an arrow drawn at the size `scale`, where `full` is
/// the size shown in the hue `full_turn`: the size over the full size, times
/// the full hue.
pub open spec fn tints<S, A: Arithmetic<S>>(
    arithmetic: A,
    scale: S,
    full: S,
    full_turn: S,
    result: S,
) -> bool {
    exists|fraction: S| #[trigger]
        divides(arithmetic, scale, full, fraction) && multiplies(
            arithmetic,
            fraction,
            full_turn,
            result,
        )
}

/// The coordinate of arrow `number` of `count` along an axis of extent
/// `extent`. The first arrow and the last stand on the edges.
pub fn coordinate<S: Copy, A: Arithmetic<S>>(
    arithmetic: &A,
    number: u32,
    count: u32,
    extent: S,
) -> (result: S)
    ensures
        places(*arithmetic, number, count, extent, result),
{
    let as_scalar = arithmetic.from_count(number);
    let span = arithmetic.multiply(as_scalar, extent);
    let arrows = arithmetic.from_count(count);
    let one = arithmetic.from_count(1);
    let gaps = arithmetic.subtract(arrows, one);
    let offset = arithmetic.divide(span, gaps);
    let two = arithmetic.from_count(2);
    let half = arithmetic.divide(extent, two);
    let result = arithmetic.subtract(offset, half);
    assert(is_placing(
        *arithmetic,
        number,
        count,
        extent,
        (Placing { number: as_scalar, span, count: arrows, one, gaps, offset, two, half }),
        result,
    ));
    result
}

/// The angle to draw an arrow at where the field has the components
/// `along_x` and `along_y`.
pub fn arrow_angle<S: Copy, A: Arithmetic<S>>(
    arithmetic: &A,
    along_y: S,
    along_x: S,
    glyph_turn: S,
) -> (result: S)
    ensures
        turns(*arithmetic, along_y, along_x, glyph_turn, result),
{
    let angle = arithmetic.arctangent(along_y, along_x);
    assert(angles(*arithmetic, along_y, along_x, angle));
    arithmetic.subtract(angle, glyph_turn)
}

/// The hue of an arrow drawn at the size `scale`, where `full` is the size
/// shown in the hue `full_turn`.
pub fn arrow_hue<S: Copy, A: Arithmetic<S>>(
    arithmetic: &A,
    scale: S,
    full: S,
    full_turn: S,
) -> (result: S)
    ensures
        tints(*arithmetic, scale, full, full_turn, result),
{
    let fraction = arithmetic.divide(scale, full);
    assert(divides(*arithmetic, scale, full, fraction));
    arithmetic.multiply(fraction, full_turn)
}

/// `arrow` is an arrow as it is before the first pass: in the given column
/// and row, at the origin and unturned, ten times the base size.
pub open spec fn is_fresh<S, A: Arithmetic<S>>(
    arithmetic: A,
    base_scale: S,
    number: (u32, u32),
    arrow: GradientArrow<S>,
) -> bool {
    &&& arrow.x_number == number.0
    &&& arrow.y_number == number.1
    &&& zero_is(arithmetic, arrow.x)
    &&& zero_is(arithmetic, arrow.y)
    &&& zero_is(arithmetic, arrow.angle)
    &&& exists|ten: S| #[trigger]
        counts(arithmetic, 10, ten) && multiplies(arithmetic, base_scale, ten, arrow.scale)
}

/// The arrows of the sample grid as they are before the first pass, column
/// after column and, within a column, row after row.
pub fn gradient_arrows<S: Copy, A: Arithmetic<S>>(
    arithmetic: &A,
    sampling: &Sampling<S>,
) -> (arrows: Vec<GradientArrow<S>>)
    ensures
        arrows@.len() == sampling.columns * sampling.rows,
        forall|k: int|
            0 <= k < arrows@.len() ==> is_fresh(
                *arithmetic,
                sampling.base_scale,
                grid(sampling.columns as nat, sampling.rows as nat)[k],
                #[trigger] arrows@[k],
            ),
{
    let numbers = arrow_numbers(sampling.columns, sampling.rows);
    let mut arrows: Vec<GradientArrow<S>> = Vec::new();
    let mut k: usize = 0;
    while k < numbers.len()
        invariant
            k <= numbers.len(),
            arrows@.len() == k,
            numbers@ == grid(sampling.columns as nat, sampling.rows as nat),
            forall|j: int|
                0 <= j < k ==> is_fresh(
                    *arithmetic,
                    sampling.base_scale,
                    numbers@[j],
                    #[trigger] arrows@[j],
                ),
        decreases numbers.len() - k,
    {
        let (x_number, y_number) = numbers[k];
        let ten = arithmetic.from_count(10);
        assert(counts(*arithmetic, 10, ten));
        let arrow = GradientArrow {
            x: arithmetic.zero(),
            y: arithmetic.zero(),
            scale: arithmetic.multiply(sampling.base_scale, ten),
            x_number,
            y_number,
            angle: arithmetic.zero(),
        };
        assert(is_fresh(*arithmetic, sampling.base_scale, numbers@[k as int], arrow));
        let ghost earlier = arrows@;
        arrows.push(arrow);
        assert forall|j: int| 0 <= j < k + 1 implies is_fresh(
            *arithmetic,
            sampling.base_scale,
            numbers@[j],
            #[trigger] arrows@[j],
        ) by {
            if j < k {
                assert(arrows@[j] == earlier[j]);
            }
        }
        k += 1;
    }
    arrows
}

/// The record of one pass over the arrows.
pub struct Pass<S> {
    /// The magnitude of the field at each arrow.
    pub magnitudes: Seq<S>,
    /// The size of each arrow before sizes are held to the strongest.
    pub raws: Seq<S>,
    /// The greatest size seen before each arrow, and at the end after all.
    pub peaks: Seq<S>,
    /// The size the strongest arrow is drawn at.
    pub target: S,
    /// What every size is multiplied by.
    pub ratio: S,
    /// The size that is shown in the full hue.
    pub full: S,
    /// The x component of the field at each arrow.
    pub along_x: Seq<S>,
    /// The y component of the field at each arrow.
    pub along_y: Seq<S>,
}

/// The greatest size after one more arrow: the size of that arrow where it
/// exceeds the greatest so far, else the greatest so far.
pub open spec fn peak_step<S, A: Arithmetic<S>>(arithmetic: A, peak: S, raw: S, next: S) -> bool {
    ||| tells_less(arithmetic, peak, raw, true) && next == raw
    ||| tells_less(arithmetic, peak, raw, false) && next == peak
}

/// Arrow `i` stands where the grid puts it and has the size of the field
/// there, before sizes are held to the strongest; `pass` records the
/// magnitude, the size and the greatest size so far.
pub open spec fn measured<S, F: Fn(S, S) -> S, A: Arithmetic<S>>(
    before: GradientArrow<S>,
    after: GradientArrow<S>,
    gradient: Gradient<F>,
    arithmetic: A,
    sampling: Sampling<S>,
    pass: Pass<S>,
    i: int,
) -> bool {
    &&& after.x_number == before.x_number
    &&& after.y_number == before.y_number
    &&& places(arithmetic, before.x_number, sampling.columns, sampling.width, after.x)
    &&& places(arithmetic, before.y_number, sampling.rows, sampling.height, after.y)
    &&& gradient.has_magnitude(after.x, after.y, arithmetic, pass.magnitudes[i])
    &&& multiplies(arithmetic, sampling.base_scale, pass.magnitudes[i], pass.raws[i])
    &&& peak_step(arithmetic, pass.peaks[i], pass.raws[i], pass.peaks[i + 1])
}

/// Arrow `i` is drawn at its size times the ratio of the pass, turned along
/// the field, in the hue `hue`.
pub open spec fn drawn<S, F: Fn(S, S) -> S, A: Arithmetic<S>>(
    after: GradientArrow<S>,
    hue: S,
    gradient: Gradient<F>,
    arithmetic: A,
    sampling: Sampling<S>,
    pass: Pass<S>,
    i: int,
) -> bool {
    &&& multiplies(arithmetic, pass.ratio, pass.raws[i], after.scale)
    &&& folds_to(gradient.y_functions@, after.x, after.y, arithmetic, pass.along_y[i])
    &&& folds_to(gradient.x_functions@, after.x, after.y, arithmetic, pass.along_x[i])
    &&& turns(arithmetic, pass.along_y[i], pass.along_x[i], sampling.glyph_turn, after.angle)
    &&& tints(arithmetic, after.scale, pass.full, sampling.full_turn, hue)
}

/// `pass` records a pass that took the arrows from `before` to `after` and
/// gave them the hues `hues`.
///
/// The greatest size starts at the base size. The target is the expected
/// greatest scale times the base size, the ratio is the target divided by the
/// greatest size after all arrows, and the full size is the base size times
/// the expected greatest scale. Every arrow is measured and then drawn.
pub open spec fn is_pass<S, F: Fn(S, S) -> S, A: Arithmetic<S>>(
    before: Seq<GradientArrow<S>>,
    after: Seq<GradientArrow<S>>,
    hues: Seq<S>,
    gradient: Gradient<F>,
    arithmetic: A,
    sampling: Sampling<S>,
    pass: Pass<S>,
) -> bool {
    let n = before.len();
    &&& after.len() == n
    &&& hues.len() == n
    &&& pass.magnitudes.len() == n
    &&& pass.raws.len() == n
    &&& pass.peaks.len() == n + 1
    &&& pass.along_x.len() == n
    &&& pass.along_y.len() == n
    &&& pass.peaks[0] == sampling.base_scale
    &&& multiplies(arithmetic, sampling.expected_max_scale, sampling.base_scale, pass.target)
    &&& divides(arithmetic, pass.target, pass.peaks[n as int], pass.ratio)
    &&& multiplies(arithmetic, sampling.base_scale, sampling.expected_max_scale, pass.full)
    &&& forall|i: int|
        0 <= i < n ==> #[trigger] measured(
            before[i],
            after[i],
            gradient,
            arithmetic,
            sampling,
            pass,
            i,
        )
    &&& forall|i: int|
        0 <= i < n ==> #[trigger] drawn(after[i], hues[i], gradient, arithmetic, sampling, pass, i)
}

/// `after` and `hues` are what a pass over the arrows `before` may give.
pub open spec fn sampled<S, F: Fn(S, S) -> S, A: Arithmetic<S>>(
    before: Seq<GradientArrow<S>>,
    after: Seq<GradientArrow<S>>,
    hues: Seq<S>,
    gradient: Gradient<F>,
    arithmetic: A,
    sampling: Sampling<S>,
) -> bool {
    exists|pass: Pass<S>| #[trigger]
        is_pass(before, after, hues, gradient, arithmetic, sampling, pass)
}

impl<F> Gradient<F> {
    /// Every basis function of the field accepts every point.
    pub open spec fn defined_everywhere<S>(&self) -> bool where F: Fn(S, S) -> S {
        forall|x: S, y: S|
            #![trigger defined_at(self.x_functions@, x, y)]
            #![trigger defined_at(self.y_functions@, x, y)]
            defined_at(self.x_functions@, x, y) && defined_at(self.y_functions@, x, y)
    }
}

/// Refreshes the arrows from the field, in two passes.
///
/// The first pass puts every arrow at its place on the grid, sizes it by the
/// magnitude of the field there, and finds the greatest size, which is at
/// least the base size. The second pass multiplies every size by the same
/// ratio, the one that takes the greatest size to the target, and turns every
/// arrow along the field. Returns the hue of each arrow.
pub fn update_gradient_arrows<S: Copy, F: Fn(S, S) -> S, A: Arithmetic<S>>(
    arrows: &mut Vec<GradientArrow<S>>,
    gradient: &Gradient<F>,
    arithmetic: &A,
    sampling: &Sampling<S>,
) -> (hues: Vec<S>)
    requires
        gradient.defined_everywhere::<S>(),
    ensures
        sampled(old(arrows)@, final(arrows)@, hues@, *gradient, *arithmetic, *sampling),
{
    let ghost before = arrows@;
    let n = arrows.len();
    let mut peak = sampling.base_scale;
    let ghost mut pass = Pass {
        magnitudes: Seq::<S>::empty(),
        raws: Seq::<S>::empty(),
        peaks: seq![peak],
        target: peak,
        ratio: peak,
        full: peak,
        along_x: Seq::<S>::empty(),
        along_y: Seq::<S>::empty(),
    };
    let mut i: usize = 0;
    while i < n
        invariant
            i <= n,
            n == before.len(),
            arrows@.len() == n,
            gradient.defined_everywhere::<S>(),
            pass.magnitudes.len() == i,
            pass.raws.len() == i,
            pass.peaks.len() == i + 1,
            pass.peaks[0] == sampling.base_scale,
            pass.peaks[i as int] == peak,
            pass.along_x.len() == 0,
            pass.along_y.len() == 0,
            forall|j: int|
                0 <= j < i ==> #[trigger] measured(
                    before[j],
                    arrows@[j],
                    *gradient,
                    *arithmetic,
                    *sampling,
                    pass,
                    j,
                ),
            forall|j: int| 0 <= j < i ==> (#[trigger] arrows@[j]).scale == pass.raws[j],
            forall|j: int| i <= j < n ==> #[trigger] arrows@[j] == before[j],
        decreases n - i,
    {
        let x_number = arrows[i].x_number;
        let y_number = arrows[i].y_number;
        let angle = arrows[i].angle;
        let x = coordinate(arithmetic, x_number, sampling.columns, sampling.width);
        let y = coordinate(arithmetic, y_number, sampling.rows, sampling.height);
        assert(defined_at(gradient.x_functions@, x, y) && defined_at(gradient.y_functions@, x, y));
        let magnitude = gradient.magnitude(x, y, arithmetic);
        let scale = arithmetic.multiply(sampling.base_scale, magnitude);
        let ghost earlier = pass;
        let ghost earlier_arrows = arrows@;
        let ghost peak_before = peak;
        if arithmetic.less(peak, scale) {
            peak = scale;
        }
        arrows.set(i, GradientArrow { x, y, scale, x_number, y_number, angle });
        proof {
            pass =
            Pass {
                magnitudes: earlier.magnitudes.push(magnitude),
                raws: earlier.raws.push(scale),
                peaks: earlier.peaks.push(peak),
                ..earlier
            };
            assert(peak_step(*arithmetic, peak_before, scale, peak));
            assert forall|j: int| 0 <= j < i + 1 implies #[trigger] measured(
                before[j],
                arrows@[j],
                *gradient,
                *arithmetic,
                *sampling,
                pass,
                j,
            ) by {
                if j < i {
                    assert(measured(
                        before[j],
                        earlier_arrows[j],
                        *gradient,
                        *arithmetic,
                        *sampling,
                        earlier,
                        j,
                    ));
                    assert(arrows@[j] == earlier_arrows[j]);
                    assert(pass.magnitudes[j] == earlier.magnitudes[j]);
                    assert(pass.raws[j] == earlier.raws[j]);
                    assert(pass.peaks[j] == earlier.peaks[j]);
                    assert(pass.peaks[j + 1] == earlier.peaks[j + 1]);
                } else {
                    assert(earlier_arrows[j] == before[j]);
                    assert(pass.peaks[j] == peak_before);
                }
            }
            assert forall|j: int| 0 <= j < i + 1 implies (#[trigger] arrows@[j]).scale
                == pass.raws[j] by {
                if j < i {
                    assert(arrows@[j] == earlier_arrows[j]);
                }
            }
            assert forall|j: int| i + 1 <= j < n implies #[trigger] arrows@[j] == before[j] by {
                assert(arrows@[j] == earlier_arrows[j]);
            }
        }
        i += 1;
    }
    let target = arithmetic.multiply(sampling.expected_max_scale, sampling.base_scale);
    let ratio = arithmetic.divide(target, peak);
    let full = arithmetic.multiply(sampling.base_scale, sampling.expected_max_scale);
    let ghost measured_arrows = arrows@;
    proof {
        let earlier = pass;
        pass = Pass { target, ratio, full, ..earlier };
        assert forall|j: int| 0 <= j < n implies #[trigger] measured(
            before[j],
            arrows@[j],
            *gradient,
            *arithmetic,
            *sampling,
            pass,
            j,
        ) by {
            assert(measured(before[j], arrows@[j], *gradient, *arithmetic, *sampling, earlier, j));
        }
    }
    let mut hues: Vec<S> = Vec::new();
    let mut i: usize = 0;
    while i < n
        invariant
            i <= n,
            n == before.len(),
            arrows@.len() == n,
            measured_arrows.len() == n,
            hues@.len() == i,
            gradient.defined_everywhere::<S>(),
            pass.magnitudes.len() == n,
            pass.raws.len() == n,
            pass.peaks.len() == n + 1,
            pass.peaks[0] == sampling.base_scale,
            pass.peaks[n as int] == peak,
            pass.target == target,
            pass.ratio == ratio,
            pass.full == full,
            pass.along_x.len() == i,
            pass.along_y.len() == i,
            forall|j: int|
                0 <= j < n ==> #[trigger] measured(
                    before[j],
                    measured_arrows[j],
                    *gradient,
                    *arithmetic,
                    *sampling,
                    pass,
                    j,
                ),
            forall|j: int| 0 <= j < n ==> (#[trigger] measured_arrows[j]).scale == pass.raws[j],
            forall|j: int|
                0 <= j < n ==> {
                    &&& (#[trigger] arrows@[j]).x == measured_arrows[j].x
                    &&& arrows@[j].y == measured_arrows[j].y
                    &&& arrows@[j].x_number == measured_arrows[j].x_number
                    &&& arrows@[j].y_number == measured_arrows[j].y_number
                },
            forall|j: int| i <= j < n ==> #[trigger] arrows@[j] == measured_arrows[j],
            forall|j: int|
                0 <= j < i ==> #[trigger] drawn(
                    arrows@[j],
                    hues@[j],
                    *gradient,
                    *arithmetic,
                    *sampling,
                    pass,
                    j,
                ),
        decreases n - i,
    {
        let x_number = arrows[i].x_number;
        let y_number = arrows[i].y_number;
        let x = arrows[i].x;
        let y = arrows[i].y;
        let raw = arrows[i].scale;
        let scale = arithmetic.multiply(ratio, raw);
        assert(defined_at(gradient.x_functions@, x, y) && defined_at(gradient.y_functions@, x, y));
        let along_y = gradient.y(x, y, arithmetic);
        let along_x = gradient.x(x, y, arithmetic);
        let angle = arrow_angle(arithmetic, along_y, along_x, sampling.glyph_turn);
        let hue = arrow_hue(arithmetic, scale, full, sampling.full_turn);
        let ghost earlier = pass;
        let ghost earlier_arrows = arrows@;
        let ghost earlier_hues = hues@;
        arrows.set(i, GradientArrow { x, y, scale, x_number, y_number, angle });
        hues.push(hue);
        proof {
            pass =
            Pass {
                along_x: earlier.along_x.push(along_x),
                along_y: earlier.along_y.push(along_y),
                ..earlier
            };
            assert(earlier_arrows[i as int] == measured_arrows[i as int]);
            assert forall|j: int| 0 <= j < n implies #[trigger] measured(
                before[j],
                measured_arrows[j],
                *gradient,
                *arithmetic,
                *sampling,
                pass,
                j,
            ) by {
                assert(measured(
                    before[j],
                    measured_arrows[j],
                    *gradient,
                    *arithmetic,
                    *sampling,
                    earlier,
                    j,
                ));
            }
            assert forall|j: int| 0 <= j < i + 1 implies #[trigger] drawn(
                arrows@[j],
                hues@[j],
                *gradient,
                *arithmetic,
                *sampling,
                pass,
                j,
            ) by {
                if j < i {
                    assert(drawn(
                        earlier_arrows[j],
                        earlier_hues[j],
                        *gradient,
                        *arithmetic,
                        *sampling,
                        earlier,
                        j,
                    ));
                    assert(arrows@[j] == earlier_arrows[j]);
                    assert(hues@[j] == earlier_hues[j]);
                    assert(pass.along_x[j] == earlier.along_x[j]);
                    assert(pass.along_y[j] == earlier.along_y[j]);
                } else {
                    assert(measured_arrows[j].scale == pass.raws[j]);
                }
            }
            assert forall|j: int| 0 <= j < n implies {
                &&& (#[trigger] arrows@[j]).x == measured_arrows[j].x
                &&& arrows@[j].y == measured_arrows[j].y
                &&& arrows@[j].x_number == measured_arrows[j].x_number
                &&& arrows@[j].y_number == measured_arrows[j].y_number
            } by {
                if j != i {
                    assert(arrows@[j] == earlier_arrows[j]);
                }
            }
            assert forall|j: int| i + 1 <= j < n implies #[trigger] arrows@[j]
                == measured_arrows[j] by {
                assert(arrows@[j] == earlier_arrows[j]);
            }
        }
        i += 1;
    }
    proof {
        assert forall|j: int| 0 <= j < n implies #[trigger] measured(
            before[j],
            arrows@[j],
            *gradient,
            *arithmetic,
            *sampling,
            pass,
            j,
        ) by {
            assert(measured(
                before[j],
                measured_arrows[j],
                *gradient,
                *arithmetic,
                *sampling,
                pass,
                j,
            ));
            assert(arrows@[j].x == measured_arrows[j].x);
        }
        assert(is_pass(before, arrows@, hues@, *gradient, *arithmetic, *sampling, pass));
    }
    hues
}

/// After the first `m` arrows the greatest size is the base size or the size
/// of one of them, and neither the base size nor any of their sizes is
/// greater.
proof fn lemma_peak_so_far<S, A: Arithmetic<S>>(
    arithmetic: A,
    less: spec_fn(S, S) -> bool,
    base: S,
    raws: Seq<S>,
    peaks: Seq<S>,
    m: int,
)
    requires
        ordered_by(arithmetic, less),
        peaks.len() == raws.len() + 1,
        peaks[0] == base,
        forall|i: int|
            0 <= i < raws.len() ==> peak_step(
                arithmetic,
                peaks[i],
                raws[i],
                #[trigger] peaks[i + 1],
            ),
        0 <= m <= raws.len(),
    ensures
        !less(peaks[m], base),
        forall|i: int| 0 <= i < m ==> !less(peaks[m], #[trigger] raws[i]),
        peaks[m] == base || exists|i: int| 0 <= i < m && peaks[m] == #[trigger] raws[i],
    decreases m,
{
    if m > 0 {
        lemma_peak_so_far(arithmetic, less, base, raws, peaks, m - 1);
        let last = m - 1;
        assert(peak_step(arithmetic, peaks[last], raws[last], peaks[last + 1]));
        if tells_less(arithmetic, peaks[last], raws[last], true) && peaks[m] == raws[last] {
            assert(less(peaks[last], raws[last]));
            assert forall|i: int| 0 <= i < m implies !less(peaks[m], #[trigger] raws[i]) by {
                if i < last && less(raws[last], raws[i]) {
                    assert(less(peaks[last], raws[i]));
                }
            }
            if less(raws[last], base) {
                assert(less(peaks[last], base));
            }
        } else {
            assert(!less(peaks[last], raws[last]));
            assert(peaks[m] == peaks[last]);
            if peaks[last] != base {
                let i = choose|i: int| 0 <= i < last && peaks[last] == #[trigger] raws[i];
                assert(0 <= i < m && peaks[m] == raws[i]);
            }
        }
    }
}

/// Where the order is strict, the greatest size of a pass is the base size
/// or the size of an arrow, and neither the base size nor the size of any
/// arrow is greater.
pub proof fn lemma_peak_is_greatest<S, F: Fn(S, S) -> S, A: Arithmetic<S>>(
    before: Seq<GradientArrow<S>>,
    after: Seq<GradientArrow<S>>,
    hues: Seq<S>,
    gradient: Gradient<F>,
    arithmetic: A,
    sampling: Sampling<S>,
    pass: Pass<S>,
    less: spec_fn(S, S) -> bool,
)
    requires
        is_pass(before, after, hues, gradient, arithmetic, sampling, pass),
        ordered_by(arithmetic, less),
    ensures
        !less(pass.peaks.last(), sampling.base_scale),
        forall|i: int|
            0 <= i < pass.raws.len() ==> !less(pass.peaks.last(), #[trigger] pass.raws[i]),
        pass.peaks.last() == sampling.base_scale || exists|i: int|
            0 <= i < pass.raws.len() && pass.peaks.last() == #[trigger] pass.raws[i],
{
    assert forall|i: int| 0 <= i < pass.raws.len() implies peak_step(
        arithmetic,
        pass.peaks[i],
        pass.raws[i],
        #[trigger] pass.peaks[i + 1],
    ) by {
        assert(measured(before[i], after[i], gradient, arithmetic, sampling, pass, i));
    }
    lemma_peak_so_far(
        arithmetic,
        less,
        sampling.base_scale,
        pass.raws,
        pass.peaks,
        pass.raws.len() as int,
    );
}

/// Sizes are held to the strongest arrow.
///
/// Take a pass in which one arrow is stronger than every other and than the
/// base size, under an order that is strict, and arithmetic in which the
/// target over a size above the base size, times that size, gives back the
/// target, and in which a size no greater than the greatest is taken to no
/// more than the target. Then the strongest arrow is drawn at exactly the
/// target, every arrow is drawn at its size times one and the same ratio, and
/// no arrow is drawn greater than the target.
pub proof fn lemma_strongest_arrow_is_drawn_at_target<S, F: Fn(S, S) -> S, A: Arithmetic<S>>(
    before: Seq<GradientArrow<S>>,
    after: Seq<GradientArrow<S>>,
    hues: Seq<S>,
    gradient: Gradient<F>,
    arithmetic: A,
    sampling: Sampling<S>,
    pass: Pass<S>,
    less: spec_fn(S, S) -> bool,
    times: spec_fn(S, S) -> S,
    over: spec_fn(S, S) -> S,
    strongest: int,
)
    requires
        is_pass(before, after, hues, gradient, arithmetic, sampling, pass),
        ordered_by(arithmetic, less),
        forall|a: S, b: S, r: S| #[trigger] multiplies(arithmetic, a, b, r) ==> r == times(a, b),
        shares(arithmetic, over),
        forall|divisor: S|
            less(sampling.base_scale, divisor) ==> #[trigger] times(
                over(times(sampling.expected_max_scale, sampling.base_scale), divisor),
                divisor,
            ) == times(sampling.expected_max_scale, sampling.base_scale),
        forall|peak: S, size: S|
            !less(peak, sampling.base_scale) && !less(peak, size) ==> !less(
                times(sampling.expected_max_scale, sampling.base_scale),
                #[trigger] times(
                    over(times(sampling.expected_max_scale, sampling.base_scale), peak),
                    size,
                ),
            ),
        0 <= strongest < before.len(),
        less(sampling.base_scale, pass.raws[strongest]),
        forall|i: int|
            0 <= i < before.len() && i != strongest ==> less(
                #[trigger] pass.raws[i],
                pass.raws[strongest],
            ),
    ensures
        pass.peaks.last() == pass.raws[strongest],
        pass.target == times(sampling.expected_max_scale, sampling.base_scale),
        pass.ratio == over(pass.target, pass.raws[strongest]),
        after[strongest].scale == pass.target,
        forall|i: int|
            0 <= i < before.len() ==> (#[trigger] after[i]).scale == times(
                pass.ratio,
                pass.raws[i],
            ),
        forall|i: int| 0 <= i < before.len() ==> !less(pass.target, (#[trigger] after[i]).scale),
{
    lemma_peak_is_greatest(before, after, hues, gradient, arithmetic, sampling, pass, less);
    let peak = pass.peaks.last();
    let top = pass.raws[strongest];
    assert(peak == top) by {
        assert(!less(peak, top));
        if peak == sampling.base_scale {
        } else {
            let i = choose|i: int| 0 <= i < pass.raws.len() && peak == #[trigger] pass.raws[i];
            if i != strongest {
                assert(less(pass.raws[i], top));
            }
        }
    }
    assert(pass.peaks.last() == pass.peaks[before.len() as int]);
    assert forall|i: int| 0 <= i < before.len() implies (#[trigger] after[i]).scale == times(
        pass.ratio,
        pass.raws[i],
    ) by {
        assert(drawn(after[i], hues[i], gradient, arithmetic, sampling, pass, i));
    }
    assert(after[strongest].scale == pass.target) by {
        assert(times(over(pass.target, top), top) == pass.target);
    }
    assert forall|i: int| 0 <= i < before.len() implies !less(
        pass.target,
        (#[trigger] after[i]).scale,
    ) by {
        assert(!less(peak, pass.raws[i]));
        assert(!less(pass.target, times(over(pass.target, peak), pass.raws[i])));
    }
}

} // verus!
