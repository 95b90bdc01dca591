//! The components of players and the ball, team records, controls and difficulty presets.
use vstd::prelude::*;
use crate::angle::Angle;
use crate::field::in_level;
use crate::geometry::{bounded, Vec2};
use crate::physics::KICK_STRENGTH;

verus! {

/// Number of players on each team.
pub const TEAM_SIZE: usize = 7;
/// Number of players on the field.
pub const NUM_PLAYERS: usize = 14;

/// Length of a full walk cycle, in thousandths of a frame.
pub const WALK_CYCLE: i64 = 72_000;
/// Largest walk-cycle advance in one tick.
pub const MAX_WALK_STEP: i64 = 4_500;

/// Largest coordinate magnitude of a movement target.
pub const TARGET_LIMIT: i64 = 4_000_000;
/// Largest timer value.
pub const TIMER_MAX: i32 = 127;

pub const PLAYER_DEFAULT_SPEED: i64 = 2_000;
pub const PLAYER_INTERCEPT_BALL_SPEED: i64 = 2_750;
pub const LEAD_PLAYER_BASE_SPEED: i64 = 2_900;
pub const HUMAN_PLAYER_WITH_BALL_SPEED: i64 = 3_000;
pub const HUMAN_PLAYER_WITHOUT_BALL_SPEED: i64 = 3_300;
/// Length of a held-direction input on each axis, per tick.
pub const MAX_SPEED: i64 = 10_000;
/// Largest speed boost a difficulty preset gives.
pub const MAX_SPEED_BOOST: i64 = 200;

pub const LEAD_DISTANCE_1: i64 = 10_000;
pub const LEAD_DISTANCE_2: i64 = 50_000;

/// Where a player is heading this tick, and how fast.
#[derive(Clone, Copy, Debug, PartialEq, Eq, Structural)]
pub struct Target {
    pub pos: Vec2,
    pub speed: i64,
}

impl Target {
    /// A target at `pos` at the default speed.
    pub fn new(pos: Vec2) -> (r: Target)
        ensures
            r.pos == pos,
            r.speed == PLAYER_DEFAULT_SPEED,
    {
        Target { pos, speed: PLAYER_DEFAULT_SPEED }
    }
}

/// Facing and walk-cycle position; `frame` counts thousandths of a frame in `[0, WALK_CYCLE)`.
#[derive(Clone, Copy, Debug, PartialEq, Eq, Structural)]
pub struct Animation {
    pub dir: Angle,
    pub frame: i64,
}

impl Animation {
    /// Facing up, at the start of the walk cycle.
    pub fn new() -> (r: Animation)
        ensures
            r.dir == Angle(0),
            r.frame == 0,
    {
        Animation { dir: Angle(0), frame: 0 }
    }
}

/// What a defending player watches: a fixed point of a goal, or another player.
#[derive(Clone, Copy, Debug, PartialEq, Eq, Structural)]
pub enum Mark {
    Goal(Vec2),
    Player(usize),
}

/// A lead assignment: how far ahead of the ball owner to aim, and the rank among leads.
#[derive(Clone, Copy, Debug, PartialEq, Eq, Structural)]
pub struct Lead {
    pub distance: Option<i64>,
    pub rank: Option<u8>,
}

impl Lead {
    pub fn none() -> (r: Lead)
        ensures
            r.distance.is_none(),
            r.rank.is_none(),
    {
        Lead { distance: None, rank: None }
    }
}

/// One player and all its components.
#[derive(Clone, Copy, Debug, PartialEq, Eq, Structural)]
pub struct Player {
    pub pos: Vec2,
    pub home: Vec2,
    pub team: u8,
    pub target: Target,
    pub anim: Animation,
    /// Ticks before this player may take the ball again; never negative.
    pub timer: i32,
    /// The mirrored player of the other team.
    pub peer: usize,
    pub mark: Mark,
    pub lead: Lead,
}

impl Player {
    pub open spec fn wf(self) -> bool {
        &&& self.team <= 1
        &&& self.peer < NUM_PLAYERS
        &&& self.anim.dir.wf()
        &&& 0 <= self.anim.frame < WALK_CYCLE
        &&& 0 <= self.timer <= TIMER_MAX
        &&& in_level(self.pos.x as int, self.pos.y as int)
        &&& in_level(self.home.x as int, self.home.y as int)
        &&& bounded(self.target.pos, TARGET_LIMIT as int)
        &&& 0 <= self.target.speed <= MAX_SPEED
        &&& match self.mark {
            Mark::Goal(p) => in_level(p.x as int, p.y as int),
            Mark::Player(j) => j < NUM_PLAYERS,
        }
        &&& match self.lead.distance {
            Some(d) => 0 <= d <= LEAD_DISTANCE_2,
            None => true,
        }
    }
}

/// Whether the ball flies free, with its velocity, or is dribbled by its owner.
#[derive(Clone, Copy, Debug, PartialEq, Eq, Structural)]
pub enum BallState {
    Free(Vec2),
    Dribbled(usize),
}

/// The ball. `timer` counts down every tick and is not consulted otherwise.
#[derive(Clone, Copy, Debug, PartialEq, Eq, Structural)]
pub struct Ball {
    pub pos: Vec2,
    pub state: BallState,
    pub timer: i32,
}

impl Ball {
    pub open spec fn wf(self) -> bool {
        &&& in_level(self.pos.x as int, self.pos.y as int)
        &&& 0 <= self.timer <= TIMER_MAX
        &&& match self.state {
            BallState::Free(v) => bounded(v, KICK_STRENGTH as int),
            BallState::Dribbled(o) => o < NUM_PLAYERS,
        }
    }

    pub open spec fn spec_owner(self) -> Option<usize> {
        match self.state {
            BallState::Free(_) => None,
            BallState::Dribbled(o) => Some(o),
        }
    }

    pub open spec fn spec_velocity(self) -> Option<Vec2> {
        match self.state {
            BallState::Free(v) => Some(v),
            BallState::Dribbled(_) => None,
        }
    }

    /// The player dribbling the ball, if any.
    pub fn owner(&self) -> (r: Option<usize>)
        ensures
            r == self.spec_owner(),
    {
        match self.state {
            BallState::Free(_) => None,
            BallState::Dribbled(o) => Some(o),
        }
    }

    /// The ball's velocity while it flies free.
    pub fn velocity(&self) -> (r: Option<Vec2>)
        ensures
            r == self.spec_velocity(),
    {
        match self.state {
            BallState::Free(v) => Some(v),
            BallState::Dribbled(_) => None,
        }
    }
}

/// The ball has a velocity exactly when nobody owns it.
pub proof fn lemma_velocity_iff_free(b: Ball)
    ensures
        b.spec_velocity().is_some() <==> b.spec_owner().is_none(),
{
}

/// One team's input this tick: the held directions and whether shoot was just pressed.
#[derive(Clone, Copy, Debug, PartialEq, Eq, Structural)]
pub struct Controls {
    pub up: bool,
    pub down: bool,
    pub left: bool,
    pub right: bool,
    pub shoot: bool,
}

pub open spec fn axis_input(neg: bool, pos: bool) -> int {
    if neg {
        -MAX_SPEED
    } else if pos {
        MAX_SPEED as int
    } else {
        0
    }
}

pub open spec fn spec_movement(c: Controls) -> Vec2 {
    Vec2 { x: axis_input(c.left, c.right) as i64, y: axis_input(c.up, c.down) as i64 }
}

impl Controls {
    /// No key held or pressed.
    pub fn idle() -> (r: Controls)
        ensures
            !r.up && !r.down && !r.left && !r.right && !r.shoot,
    {
        Controls { up: false, down: false, left: false, right: false, shoot: false }
    }

    /// The held direction as a displacement of `MAX_SPEED` on each held axis; up wins over
    /// down and left over right.
    pub fn movement(&self) -> (r: Vec2)
        ensures
            r == spec_movement(*self),
            bounded(r, MAX_SPEED as int),
    {
        let dy = if self.up {
            -MAX_SPEED
        } else if self.down {
            MAX_SPEED
        } else {
            0
        };
        let dx = if self.left {
            -MAX_SPEED
        } else if self.right {
            MAX_SPEED
        } else {
            0
        };
        Vec2 { x: dx, y: dy }
    }
}

/// Per-team state: whether a person controls it, its score, and its active player.
#[derive(Clone, Copy, Debug, PartialEq, Eq, Structural)]
pub struct TeamInfo {
    pub human: bool,
    pub score: u8,
    pub active_player: Option<usize>,
    /// Whether this team kicked the ball this tick.
    pub shoot_now: bool,
}

impl TeamInfo {
    pub fn new(human: bool) -> (r: TeamInfo)
        ensures
            r.human == human,
            r.score == 0,
            r.active_player.is_none(),
            !r.shoot_now,
    {
        TeamInfo { human, score: 0, active_player: None, shoot_now: false }
    }

    pub fn human(&self) -> (r: bool)
        ensures
            r == self.human,
    {
        self.human
    }

    pub open spec fn wf(self) -> bool {
        match self.active_player {
            Some(a) => a < NUM_PLAYERS,
            None => true,
        }
    }
}

#[derive(Clone, Copy, Debug, PartialEq, Eq, Structural)]
pub enum DifficultyLevel {
    Easy,
    Medium,
    Hard,
}

/// What a difficulty preset changes about the computer team.
#[derive(Clone, Copy, Debug, PartialEq, Eq, Structural)]
pub struct Difficulty {
    pub goalie_enabled: bool,
    pub second_lead_enabled: bool,
    /// Added to lead players' speed when they chase a human team, per tick.
    pub speed_boost: i64,
    pub holdoff_timer: i32,
}

impl Difficulty {
    pub open spec fn wf(self) -> bool {
        0 <= self.speed_boost <= MAX_SPEED_BOOST && 0 <= self.holdoff_timer <= TIMER_MAX
    }
}

pub open spec fn spec_difficulty(level: DifficultyLevel) -> Difficulty {
    match level {
        DifficultyLevel::Easy => Difficulty {
            goalie_enabled: false,
            second_lead_enabled: false,
            speed_boost: 0,
            holdoff_timer: 120,
        },
        DifficultyLevel::Medium => Difficulty {
            goalie_enabled: false,
            second_lead_enabled: true,
            speed_boost: 100,
            holdoff_timer: 90,
        },
        DifficultyLevel::Hard => Difficulty {
            goalie_enabled: true,
            second_lead_enabled: true,
            speed_boost: 200,
            holdoff_timer: 60,
        },
    }
}

/// The preset of a difficulty level.
pub fn get_difficulty(level: DifficultyLevel) -> (r: Difficulty)
    ensures
        r == spec_difficulty(level),
        r.wf(),
{
    match level {
        DifficultyLevel::Easy => Difficulty {
            goalie_enabled: false,
            second_lead_enabled: false,
            speed_boost: 0,
            holdoff_timer: 120,
        },
        DifficultyLevel::Medium => Difficulty {
            goalie_enabled: false,
            second_lead_enabled: true,
            speed_boost: 100,
            holdoff_timer: 90,
        },
        DifficultyLevel::Hard => Difficulty {
            goalie_enabled: true,
            second_lead_enabled: true,
            speed_boost: 200,
            holdoff_timer: 60,
        },
    }
}

} // verus!
