//! Dimensions of the level, the pitch and the goals, and the legal areas within them.
use vstd::prelude::*;

verus! {

pub const LEVEL_W: i64 = 1_000_000;
pub const LEVEL_H: i64 = 1_400_000;
pub const HALF_LEVEL_W: i64 = 500_000;
pub const HALF_LEVEL_H: i64 = 700_000;

pub const HALF_PITCH_W: i64 = 442_000;
pub const HALF_PITCH_H: i64 = 622_000;

pub const GOAL_WIDTH: i64 = 186_000;
pub const GOAL_DEPTH: i64 = 20_000;
pub const HALF_GOAL_W: i64 = 93_000;

/// Extra width around a goal mouth that a player's sprite takes up.
pub const GOAL_MARGIN: i64 = 20_000;

pub const PITCH_MIN_X: i64 = HALF_LEVEL_W - HALF_PITCH_W;
pub const PITCH_MAX_X: i64 = HALF_LEVEL_W + HALF_PITCH_W;
pub const PITCH_MIN_Y: i64 = HALF_LEVEL_H - HALF_PITCH_H;
pub const PITCH_MAX_Y: i64 = HALF_LEVEL_H + HALF_PITCH_H;

pub const GOAL_MIN_X: i64 = HALF_LEVEL_W - HALF_GOAL_W;
pub const GOAL_MAX_X: i64 = HALF_LEVEL_W + HALF_GOAL_W;
pub const GOAL_MIN_Y: i64 = HALF_LEVEL_H - HALF_PITCH_H - GOAL_DEPTH;
pub const GOAL_MAX_Y: i64 = HALF_LEVEL_H + HALF_PITCH_H + GOAL_DEPTH;

/// The box that computer-controlled lead players keep their targets in.
pub const AI_MIN_X: i64 = 78_000;
pub const AI_MAX_X: i64 = LEVEL_W - 78_000;
pub const AI_MIN_Y: i64 = 98_000;
pub const AI_MAX_Y: i64 = LEVEL_H - 98_000;

/// Largest coordinate magnitude that the legality tests accept.
pub const TEST_LIMIT: i64 = 0x1000_0000_0000_0000;

pub open spec fn abs(a: int) -> int {
    if a < 0 {
        -a
    } else {
        a
    }
}

/// The point lies on the pitch or inside one of the goals.
pub open spec fn spec_on_pitch(x: int, y: int) -> bool {
    (PITCH_MIN_X <= x < PITCH_MAX_X && PITCH_MIN_Y <= y < PITCH_MAX_Y) || (GOAL_MIN_X <= x
        < GOAL_MAX_X && GOAL_MIN_Y <= y < GOAL_MAX_Y)
}

/// A player may stand at the point: inside the level, and not in, through or behind a goal.
pub open spec fn spec_allow_movement(x: int, y: int) -> bool {
    if abs(x - HALF_LEVEL_W) > HALF_LEVEL_W {
        false
    } else if abs(x - HALF_LEVEL_W) < HALF_GOAL_W + GOAL_MARGIN {
        abs(y - HALF_LEVEL_H) < HALF_PITCH_H
    } else {
        abs(y - HALF_LEVEL_H) <= HALF_LEVEL_H
    }
}

/// The point lies within the level's rectangle.
pub open spec fn in_level(x: int, y: int) -> bool {
    0 <= x <= LEVEL_W && 0 <= y <= LEVEL_H
}

fn abs_i64(a: i64) -> (r: i64)
    requires
        a > i64::MIN,
    ensures
        r == abs(a as int),
{
    if a < 0 {
        -a
    } else {
        a
    }
}

/// Whether the point lies on the pitch or inside one of the goals.
pub fn on_pitch(x: i64, y: i64) -> (r: bool)
    ensures
        r == spec_on_pitch(x as int, y as int),
        r ==> in_level(x as int, y as int),
{
    (x >= PITCH_MIN_X && x < PITCH_MAX_X && y >= PITCH_MIN_Y && y < PITCH_MAX_Y) || (x
        >= GOAL_MIN_X && x < GOAL_MAX_X && y >= GOAL_MIN_Y && y < GOAL_MAX_Y)
}

/// Whether a player may move to the point.
pub fn allow_movement(x: i64, y: i64) -> (r: bool)
    requires
        -TEST_LIMIT <= x <= TEST_LIMIT,
        -TEST_LIMIT <= y <= TEST_LIMIT,
    ensures
        r == spec_allow_movement(x as int, y as int),
        r ==> in_level(x as int, y as int),
{
    let dx = abs_i64(x - HALF_LEVEL_W);
    let dy = abs_i64(y - HALF_LEVEL_H);
    if dx > HALF_LEVEL_W {
        false
    } else if dx < HALF_GOAL_W + GOAL_MARGIN {
        dy < HALF_PITCH_H
    } else {
        dy <= HALF_LEVEL_H
    }
}

/// The centre of the level is open to players; the lines at the back of the level are closed to
/// them across the goal mouths and open beside the goals, where every height of the level is
/// open.
pub proof fn lemma_allow_movement_landmarks(x: int, y: int)
    ensures
        spec_allow_movement(HALF_LEVEL_W as int, HALF_LEVEL_H as int),
        abs(x - HALF_LEVEL_W) < HALF_GOAL_W + GOAL_MARGIN ==> !spec_allow_movement(x, 0),
        abs(x - HALF_LEVEL_W) < HALF_GOAL_W + GOAL_MARGIN ==> !spec_allow_movement(x, LEVEL_H as int),
        HALF_GOAL_W + GOAL_MARGIN <= abs(x - HALF_LEVEL_W) <= HALF_LEVEL_W ==> spec_allow_movement(x, 0),
        HALF_GOAL_W + GOAL_MARGIN <= abs(x - HALF_LEVEL_W) <= HALF_LEVEL_W && 0 <= y <= LEVEL_H
            ==> spec_allow_movement(x, y),
{
}

} // verus!
