//! The state of a game session: the table of levels, the level being played
//! and the gas cans collected in it.

use crate::arithmetic::{adds, multiplies, roots, subtracts, tells_less, Arithmetic};
use crate::gradient_field::{Gradient, Term};
use crate::ui::NewLevelText;
use vstd::prelude::*;

verus! {

/// One level: where the player starts and must arrive, the basis functions
/// on offer for each axis, each with its formula, and the gas cans to collect
/// on the way. The identifier of a basis function is its place in its list.
pub struct Level<S, F> {
    pub level_number: u32,
    pub start_location: (S, S),
    pub end_location: (S, S),
    pub x_functions: Vec<(String, F)>,
    pub y_functions: Vec<(String, F)>,
    pub gas_locations: Vec<(S, S)>,
    pub tick_time: S,
}

/// The player: the point where it is.
#[derive(Debug, PartialEq)]
pub struct Player<S> {
    pub x: S,
    pub y: S,
}

/// Whether the player is being moved through the field.
#[derive(Clone, Copy, Debug, Hash, PartialEq, Eq, Structural)]
pub enum Simulating {
    Simulating,
    NotSimulating,
}

/// A gas can of the scene: the place it takes among the cans of a level, and
/// whether the player has picked it up.
#[derive(Clone, Copy, Debug, PartialEq, Eq, Structural)]
pub struct GasCan {
    pub collected: bool,
    pub index: u32,
}

/// The session: every level, the number of the one being played, and a mark
/// for each of its gas cans, 1 once collected and 0 before.
pub struct GameState<S, F> {
    pub level_info: Vec<Level<S, F>>,
    pub current_level: u32,
    pub gas_collected: Vec<u32>,
}

/// The sum of the marks.
pub open spec fn total(marks: Seq<u32>) -> nat
    decreases marks.len(),
{
    if marks.len() == 0 {
        0
    } else {
        total(marks.drop_last()) + marks.last() as nat
    }
}

/// `n` marks, all 0.
pub open spec fn unmarked(n: nat) -> Seq<u32> {
    Seq::new(n, |i: int| 0u32)
}

/// The level that follows `current` in a table of `count` levels: the next
/// one, and the first one after the last.
pub open spec fn following(current: u32, count: nat) -> u32 {
    if current + 1 == count {
        0
    } else {
        (current + 1) as u32
    }
}

/// A list of `n` marks, all 0.
fn no_marks(n: usize) -> (marks: Vec<u32>)
    ensures
        marks@ == unmarked(n as nat),
{
    let mut marks: Vec<u32> = Vec::new();
    let mut i: usize = 0;
    while i < n
        invariant
            i <= n,
            marks@.len() == i,
            forall|j: int| 0 <= j < i ==> marks@[j] == 0,
        decreases n - i,
    {
        marks.push(0);
        i += 1;
    }
    assert(marks@ =~= unmarked(n as nat));
    marks
}

/// A longer list of marks sums to no less.
proof fn lemma_total_grows(marks: Seq<u32>, n: int)
    requires
        0 <= n <= marks.len(),
    ensures
        total(marks.take(n)) <= total(marks),
    decreases marks.len() - n,
{
    if n == marks.len() {
        assert(marks.take(n) =~= marks);
    } else {
        lemma_total_grows(marks, n + 1);
        assert(marks.take(n + 1).drop_last() =~= marks.take(n));
    }
}

impl<S, F> GameState<S, F> {
    /// The level being played is in the table, and the table is no longer
    /// than level numbers reach.
    pub open spec fn well_formed(&self) -> bool {
        &&& (self.current_level as int) < self.level_info@.len()
        &&& self.level_info@.len() <= u32::MAX
    }

    /// The level being played.
    pub open spec fn level(&self) -> Level<S, F> {
        self.level_info@[self.current_level as int]
    }

    /// The number of gas cans in the level being played.
    pub open spec fn gas_count(&self) -> nat {
        self.level().gas_locations@.len()
    }

    /// Every gas can of the level being played has been collected: the marks
    /// sum to the number of cans.
    pub open spec fn all_gas_collected(&self) -> bool {
        total(self.gas_collected@) == self.gas_count()
    }

    /// Whether the level being played is in the table, and the table no longer
    /// than level numbers reach.
    pub fn is_well_formed(&self) -> (valid: bool)
        ensures
            valid == self.well_formed(),
    {
        (self.current_level as usize) < self.level_info.len() && self.level_info.len()
            <= u32::MAX as usize
    }

    /// A session at the first level of the table, with a single mark not yet
    /// set.
    pub fn new(level_info: Vec<Level<S, F>>) -> (state: Self)
        ensures
            state.level_info == level_info,
            state.current_level == 0,
            state.gas_collected@ == seq![0u32],
            0 < level_info@.len() <= u32::MAX ==> state.well_formed(),
    {
        let mut gas_collected: Vec<u32> = Vec::new();
        gas_collected.push(0);
        assert(gas_collected@ =~= seq![0u32]);
        GameState { level_info, current_level: 0, gas_collected }
    }

    /// The level being played.
    pub fn current(&self) -> (level: &Level<S, F>)
        requires
            self.well_formed(),
        ensures
            *level == self.level(),
    {
        &self.level_info[self.current_level as usize]
    }

    /// The sum of the marks, where it fits.
    pub fn gas_collected_total(&self) -> (sum: Option<u32>)
        ensures
            match sum {
                Some(n) => n == total(self.gas_collected@),
                None => total(self.gas_collected@) > u32::MAX,
            },
    {
        let mut sum: u32 = 0;
        let mut i: usize = 0;
        assert(self.gas_collected@.take(0) =~= Seq::<u32>::empty());
        while i < self.gas_collected.len()
            invariant
                i <= self.gas_collected.len(),
                sum == total(self.gas_collected@.take(i as int)),
            decreases self.gas_collected.len() - i,
        {
            proof {
                assert(self.gas_collected@.take(i as int + 1).drop_last()
                    =~= self.gas_collected@.take(i as int));
                lemma_total_grows(self.gas_collected@, i as int + 1);
            }
            match sum.checked_add(self.gas_collected[i]) {
                Some(more) => {
                    sum = more;
                },
                None => {
                    return None;
                },
            }
            i += 1;
        }
        assert(self.gas_collected@.take(self.gas_collected.len() as int) =~= self.gas_collected@);
        Some(sum)
    }

    /// Whether and where a gas can stands in the level being played.
    pub fn gas_can_position(&self, gas_can: &GasCan) -> (position: Option<(S, S)>) where S: Copy
        requires
            self.well_formed(),
        ensures
            position == if (gas_can.index as nat) < self.gas_count() {
                Some(self.level().gas_locations@[gas_can.index as int])
            } else {
                None
            },
    {
        let level = self.current();
        if (gas_can.index as usize) < level.gas_locations.len() {
            Some(level.gas_locations[gas_can.index as usize])
        } else {
            None
        }
    }

    /// Gives the level being played one mark per gas can, all 0, unless it has
    /// as many marks as cans already.
    pub fn sync_gas_collected(&mut self)
        requires
            old(self).well_formed(),
        ensures
            final(self).level_info == old(self).level_info,
            final(self).current_level == old(self).current_level,
            final(self).gas_collected@ == if old(self).gas_collected@.len() == old(
                self,
            ).gas_count() {
                old(self).gas_collected@
            } else {
                unmarked(old(self).gas_count())
            },
            final(self).gas_collected@.len() == final(self).gas_count(),
    {
        let cans = self.level_info[self.current_level as usize].gas_locations.len();
        if self.gas_collected.len() != cans {
            self.gas_collected = no_marks(cans);
        }
    }

    /// Moves on to the following level, and to the first after the last.
    pub fn advance_level(&mut self)
        requires
            old(self).well_formed(),
        ensures
            final(self).current_level == following(
                old(self).current_level,
                old(self).level_info@.len(),
            ),
            final(self).level_info == old(self).level_info,
            final(self).gas_collected == old(self).gas_collected,
            final(self).well_formed(),
    {
        if self.current_level as usize + 1 == self.level_info.len() {
            self.current_level = 0;
        } else {
            self.current_level = self.current_level + 1;
        }
    }
}

/// Whether the player has collected every gas can of the level being played.
pub fn full_gas<S, F>(game_state: &GameState<S, F>) -> (full: bool)
    requires
        game_state.well_formed(),
    ensures
        full == game_state.all_gas_collected(),
{
    let cans = game_state.level_info[game_state.current_level as usize].gas_locations.len();
    let mut sum: usize = 0;
    let mut i: usize = 0;
    assert(game_state.gas_collected@.take(0) =~= Seq::<u32>::empty());
    while i < game_state.gas_collected.len()
        invariant
            i <= game_state.gas_collected.len(),
            sum == total(game_state.gas_collected@.take(i as int)),
            cans == game_state.gas_count(),
        decreases game_state.gas_collected.len() - i,
    {
        proof {
            assert(game_state.gas_collected@.take(i as int + 1).drop_last()
                =~= game_state.gas_collected@.take(i as int));
            lemma_total_grows(game_state.gas_collected@, i as int + 1);
        }
        match sum.checked_add(game_state.gas_collected[i] as usize) {
            Some(more) => {
                sum = more;
            },
            None => {
                return false;
            },
        }
        i += 1;
    }
    assert(game_state.gas_collected@.take(game_state.gas_collected.len() as int)
        =~= game_state.gas_collected@);
    sum == cans
}

/// The steps from two points to the distance between them.
pub struct Approach<S> {
    /// How far the target is along x.
    pub along_x: S,
    /// How far the target is along y.
    pub along_y: S,
    /// The square of the distance along x.
    pub x_squared: S,
    /// The square of the distance along y.
    pub y_squared: S,
    /// The sum of the two squares.
    pub sum: S,
    /// The distance: the root of the sum.
    pub distance: S,
}

/// `steps` lead from the point `from` and the point `target` to the answer
/// `near`, whether the two are less than `reach` apart: the coordinates of
/// `from` are taken from those of `target`, each difference is multiplied by
/// itself, and the root of the sum of the two products is compared with
/// `reach`.
pub open spec fn is_approach<S, A: Arithmetic<S>>(
    arithmetic: A,
    target: (S, S),
    from: (S, S),
    reach: S,
    steps: Approach<S>,
    near: bool,
) -> bool {
    &&& subtracts(arithmetic, target.0, from.0, steps.along_x)
    &&& subtracts(arithmetic, target.1, from.1, steps.along_y)
    &&& multiplies(arithmetic, steps.along_x, steps.along_x, steps.x_squared)
    &&& multiplies(arithmetic, steps.along_y, steps.along_y, steps.y_squared)
    &&& adds(arithmetic, steps.x_squared, steps.y_squared, steps.sum)
    &&& roots(arithmetic, steps.sum, steps.distance)
    &&& tells_less(arithmetic, steps.distance, reach, near)
}

/// `near` is what the arithmetic may answer to whether `from` is less than
/// `reach` away from `target`.
pub open spec fn nears<S, A: Arithmetic<S>>(
    arithmetic: A,
    target: (S, S),
    from: (S, S),
    reach: S,
    near: bool,
) -> bool {
    exists|steps: Approach<S>| #[trigger] is_approach(arithmetic, target, from, reach, steps, near)
}

/// Whether `from` is less than `reach` away from `target`.
pub fn within<S: Copy, A: Arithmetic<S>>(
    arithmetic: &A,
    target: (S, S),
    from: (S, S),
    reach: S,
) -> (near: bool)
    ensures
        nears(*arithmetic, target, from, reach, near),
{
    let along_x = arithmetic.subtract(target.0, from.0);
    let along_y = arithmetic.subtract(target.1, from.1);
    let x_squared = arithmetic.multiply(along_x, along_x);
    let y_squared = arithmetic.multiply(along_y, along_y);
    let sum = arithmetic.add(x_squared, y_squared);
    let distance = arithmetic.root(sum);
    let near = arithmetic.less(distance, reach);
    assert(is_approach(
        *arithmetic,
        target,
        from,
        reach,
        (Approach { along_x, along_y, x_squared, y_squared, sum, distance }),
        near,
    ));
    near
}

/// What one pass over a gas can leaves of it: where it stands in the level
/// being played, if it does, and whether it is shown.
pub struct GasCanPlacement<S> {
    pub position: Option<(S, S)>,
    pub visible: bool,
}

/// The marks with one of them set.
pub open spec fn marked(marks: Seq<u32>, index: u32, mark: u32) -> Seq<u32> {
    if index < marks.len() {
        marks.update(index as int, mark)
    } else {
        marks
    }
}

/// What a pass over the gas can `before` may leave, where the level has
/// `marks` for its cans, the can stands at `position` if it is of the level,
/// and the player is at `player`.
///
/// A can beyond the level is hidden. While the player stands still every can
/// of the level is shown and reset, together with its mark. While the player
/// moves, a can of the level that the player is less than `reach` away from
/// is collected and its mark set, and a collected can is hidden.
pub open spec fn passes_over<S, A: Arithmetic<S>>(
    marks: Seq<u32>,
    position: Option<(S, S)>,
    before: GasCan,
    simulating: Simulating,
    arithmetic: A,
    player: Player<S>,
    reach: S,
    after_marks: Seq<u32>,
    after: GasCan,
    visible: bool,
) -> bool {
    &&& after.index == before.index
    &&& visible == (position.is_some() && !after.collected)
    &&& match (simulating, position) {
        (Simulating::NotSimulating, Some(_)) => !after.collected && after_marks == marked(
            marks,
            before.index,
            0,
        ),
        (Simulating::NotSimulating, None) => !after.collected && after_marks == marks,
        (Simulating::Simulating, Some(place)) => exists|near: bool| #[trigger]
            nears(arithmetic, place, (player.x, player.y), reach, near) && after.collected == (
            before.collected || near) && after_marks == if near {
                marked(marks, before.index, 1)
            } else {
                marks
            },
        (Simulating::Simulating, None) => after.collected == before.collected && after_marks
            == marks,
    }
}

/// One gas can's share of a pass over the scene. The marks are first brought
/// to the number of cans of the level being played.
pub fn gas_update<S: Copy, F, A: Arithmetic<S>>(
    game_state: &mut GameState<S, F>,
    gas_can: &mut GasCan,
    simulating: Simulating,
    arithmetic: &A,
    player: &Player<S>,
    reach: S,
) -> (placement: GasCanPlacement<S>)
    requires
        old(game_state).well_formed(),
    ensures
        final(game_state).level_info == old(game_state).level_info,
        final(game_state).current_level == old(game_state).current_level,
        placement.position == if (old(gas_can).index as nat) < old(game_state).gas_count() {
            Some(old(game_state).level().gas_locations@[old(gas_can).index as int])
        } else {
            None
        },
        passes_over(
            if old(game_state).gas_collected@.len() == old(game_state).gas_count() {
                old(game_state).gas_collected@
            } else {
                unmarked(old(game_state).gas_count())
            },
            placement.position,
            *old(gas_can),
            simulating,
            *arithmetic,
            *player,
            reach,
            final(game_state).gas_collected@,
            *final(gas_can),
            placement.visible,
        ),
{
    game_state.sync_gas_collected();
    let position = game_state.gas_can_position(gas_can);
    match simulating {
        Simulating::NotSimulating => {
            gas_can.collected = false;
            if position.is_some() {
                game_state.gas_collected.set(gas_can.index as usize, 0);
            }
        },
        Simulating::Simulating => {
            match position {
                Some(place) => {
                    let near = within(arithmetic, place, (player.x, player.y), reach);
                    if near {
                        gas_can.collected = true;
                        game_state.gas_collected.set(gas_can.index as usize, 1);
                    }
                },
                None => {},
            }
        },
    }
    GasCanPlacement { position, visible: position.is_some() && !gas_can.collected }
}

/// Ends the level once the player is less than `reach` away from its end with
/// every gas can collected: the simulation stops, the field is cleared, the
/// session moves on to the following level, and that level is announced under
/// its number counted from one. Returns whether the level ended.
pub fn level_update<S: Copy, F, A: Arithmetic<S>>(
    game_state: &mut GameState<S, F>,
    gradient: &mut Gradient<F>,
    simulating: &mut Simulating,
    new_level_text: &mut NewLevelText<S>,
    arithmetic: &A,
    player: (S, S),
    reach: S,
) -> (ended: bool)
    requires
        old(game_state).well_formed(),
    ensures
        final(game_state).level_info == old(game_state).level_info,
        final(game_state).gas_collected == old(game_state).gas_collected,
        final(game_state).well_formed(),
        exists|at_end: bool| #[trigger]
            nears(*arithmetic, old(game_state).level().end_location, player, reach, at_end)
                && ended == (at_end && old(game_state).all_gas_collected()),
        final(new_level_text).alpha == old(new_level_text).alpha,
        if ended {
            &&& *final(simulating) == Simulating::NotSimulating
            &&& final(gradient).x_functions@ == Seq::<Term<F>>::empty()
            &&& final(gradient).y_functions@ == Seq::<Term<F>>::empty()
            &&& final(game_state).current_level == following(
                old(game_state).current_level,
                old(game_state).level_info@.len(),
            )
            &&& final(new_level_text).fade_in
            &&& !final(new_level_text).fade_out
            &&& final(new_level_text).level == final(game_state).current_level + 1
        } else {
            &&& *final(simulating) == *old(simulating)
            &&& *final(gradient) == *old(gradient)
            &&& final(game_state).current_level == old(game_state).current_level
            &&& *final(new_level_text) == *old(new_level_text)
        },
{
    let at_end = within(arithmetic, game_state.current().end_location, player, reach);
    if full_gas(game_state) && at_end {
        *simulating = Simulating::NotSimulating;
        gradient.clear_field();
        game_state.advance_level();
        new_level_text.announce(game_state.current_level + 1);
        true
    } else {
        false
    }
}

} // verus!
