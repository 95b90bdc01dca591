//! Where each player heads this tick, and how fast.
use vstd::prelude::*;
use crate::angle::{spec_cos, spec_sin, Angle};
use crate::entities::{
    spec_movement, Controls, Mark, Player, Target, HUMAN_PLAYER_WITHOUT_BALL_SPEED,
    HUMAN_PLAYER_WITH_BALL_SPEED, LEAD_PLAYER_BASE_SPEED, NUM_PLAYERS, PLAYER_DEFAULT_SPEED,
    PLAYER_INTERCEPT_BALL_SPEED, TARGET_LIMIT,
};
use crate::field::{abs, in_level, AI_MAX_X, AI_MAX_Y, AI_MIN_X, AI_MIN_Y};
use crate::game::{Game, GameState};
use crate::geometry::{
    bounded, dist_sq, div0, div_toward_zero, len_sq, length, midpoint, scale_to, vadd, vsub, Vec2,
};
use crate::physics::{drag, spec_drag, KICK_STRENGTH};

verus! {

/// Radius within which a player takes the ball.
pub const CAPTURE_RADIUS: i64 = 18_000;
/// Vertical distance within which play around the ball counts as active.
pub const ACTIVE_RANGE: i64 = 400_000;
/// How far ahead of the ball supporting attackers aim.
pub const SUPPORT_AHEAD: i64 = 400_000;
/// Farthest a marker with a goal mark stands out from the goal toward the ball.
pub const GOAL_MARK_RANGE: i64 = 150_000;
/// Below this speed a simulated ball counts as stopped.
pub const STOP_SPEED: i64 = 500;

/// The displacement of `d` thousandths of a pixel along octant `dir`.
pub open spec fn spec_facing_offset(dir: int, d: int) -> Vec2 {
    Vec2 { x: div0(spec_sin(dir) * d, 1000) as i64, y: div0(-spec_cos(dir) * d, 1000) as i64 }
}

pub open spec fn clamp(v: int, lo: int, hi: int) -> int {
    if v < lo {
        lo
    } else if v > hi {
        hi
    } else {
        v
    }
}

/// A point pulled into the box that computer leads keep to.
pub open spec fn clamp_to_ai_box(v: Vec2) -> Vec2 {
    Vec2 {
        x: clamp(v.x as int, AI_MIN_X as int, AI_MAX_X as int) as i64,
        y: clamp(v.y as int, AI_MIN_Y as int, AI_MAX_Y as int) as i64,
    }
}

pub open spec fn drag_vec(v: Vec2) -> Vec2 {
    Vec2 { x: spec_drag(v.x as int) as i64, y: spec_drag(v.y as int) as i64 }
}

/// Where a player at `p` can meet the ball, simulating its flight from `sim` with velocity
/// `vel` after `frame` ticks: the first point that the player, running at intercept speed,
/// could reach in time, or where the ball slows below the stopping speed.
pub open spec fn intercept(sim: Vec2, vel: Vec2, p: Vec2, frame: int) -> Vec2
    decreases abs(vel.x as int) + abs(vel.y as int),
{
    let reach = PLAYER_INTERCEPT_BALL_SPEED * frame + CAPTURE_RADIUS;
    if dist_sq(sim, p) > reach * reach && len_sq(vel) > STOP_SPEED * STOP_SPEED && (vel.x != 0
        || vel.y != 0) {
        intercept(vadd(sim, vel), drag_vec(vel), p, frame + 1)
    } else {
        sim
    }
}

/// The target of player `i` while the opposing player `o` has the ball.
pub open spec fn defending_target(s: GameState, i: int, o: int) -> Target {
    let p = s.players[i];
    let ball_pos = s.ball.pos;
    let default = Target { pos: p.home, speed: PLAYER_DEFAULT_SPEED };
    match p.lead.distance {
        Some(ld) => {
            let owner = s.players[o];
            let boost = if s.teams[1 - p.team].human {
                s.difficulty.speed_boost as int
            } else {
                0
            };
            Target {
                pos: clamp_to_ai_box(vadd(owner.pos, spec_facing_offset(owner.anim.dir.0 as int, ld as int))),
                speed: (LEAD_PLAYER_BASE_SPEED + boost) as i64,
            }
        },
        None => {
            let mark_pos = match p.mark {
                Mark::Goal(g) => g,
                Mark::Player(m) => s.players[m as int].pos,
            };
            if abs(mark_pos.y - ball_pos.y) < ACTIVE_RANGE {
                if s.teams[p.team as int].human {
                    Target { pos: ball_pos, speed: PLAYER_DEFAULT_SPEED }
                } else {
                    let v = vsub(ball_pos, mark_pos);
                    let d = match p.mark {
                        Mark::Goal(_) => if length(v) < GOAL_MARK_RANGE {
                            length(v)
                        } else {
                            GOAL_MARK_RANGE as int
                        },
                        Mark::Player(_) => length(v) / 2,
                    };
                    Target { pos: vadd(mark_pos, scale_to(v, d)), speed: PLAYER_DEFAULT_SPEED }
                }
            } else {
                default
            }
        },
    }
}

/// Player `i`'s target this tick, given each team's controls.
pub open spec fn planned_target(s: GameState, inputs: Seq<Controls>, i: int) -> Target {
    let p = s.players[i];
    let ball_pos = s.ball.pos;
    let team = s.teams[p.team as int];
    let default = Target { pos: p.home, speed: PLAYER_DEFAULT_SPEED };
    if s.kickoff_player is Some && s.kickoff_player != Some(i as usize) {
        Target { pos: p.pos, ..p.target }
    } else if team.human && team.active_player == Some(i as usize) {
        Target {
            pos: vadd(p.pos, spec_movement(inputs[p.team as int])),
            speed: if s.owner() == Some(i as usize) {
                HUMAN_PLAYER_WITH_BALL_SPEED
            } else {
                HUMAN_PLAYER_WITHOUT_BALL_SPEED
            },
        }
    } else {
        match s.ball.state {
            crate::entities::BallState::Dribbled(o) => if o == i {
                default
            } else if p.team == s.players[o as int].team {
                if abs(ball_pos.y - p.pos.y) < ACTIVE_RANGE {
                    let ahead: int = if p.team == 0 {
                        -SUPPORT_AHEAD
                    } else {
                        SUPPORT_AHEAD as int
                    };
                    Target {
                        pos: midpoint(p.home, Vec2 { x: ball_pos.x, y: (ball_pos.y + ahead) as i64 }),
                        speed: PLAYER_DEFAULT_SPEED,
                    }
                } else {
                    default
                }
            } else {
                defending_target(s, i, o as int)
            },
            crate::entities::BallState::Free(vel) => Target {
                pos: intercept(ball_pos, vel, p.pos, 0),
                speed: PLAYER_INTERCEPT_BALL_SPEED,
            },
        }
    }
}

pub open spec fn spec_set_player_targets(s: GameState, inputs: Seq<Controls>) -> GameState {
    GameState {
        players: Seq::new(
            s.players.len(),
            |i: int| Player { target: planned_target(s, inputs, i), ..s.players[i] },
        ),
        ..s
    }
}

/// Where a player at `p` can meet a free ball at `ball_pos` moving with `vel`.
pub fn intercept_point(ball_pos: Vec2, vel: Vec2, p: Vec2) -> (r: Vec2)
    requires
        in_level(ball_pos.x as int, ball_pos.y as int),
        in_level(p.x as int, p.y as int),
        bounded(vel, KICK_STRENGTH as int),
    ensures
        r == intercept(ball_pos, vel, p, 0),
        bounded(r, 2_000_000),
{
    let mut sim = ball_pos;
    let mut v = vel;
    let mut frame: i64 = 0;
    let ghost v0 = vel;
    loop
        invariant
            in_level(ball_pos.x as int, ball_pos.y as int),
            in_level(p.x as int, p.y as int),
            bounded(v0, KICK_STRENGTH as int),
            abs(v.x as int) <= abs(v0.x as int),
            abs(v.y as int) <= abs(v0.y as int),
            abs(sim.x - ball_pos.x) <= 50 * (abs(v0.x as int) - abs(v.x as int)),
            abs(sim.y - ball_pos.y) <= 50 * (abs(v0.y as int) - abs(v.y as int)),
            0 <= frame,
            frame + abs(v.x as int) + abs(v.y as int) <= abs(v0.x as int) + abs(v0.y as int),
            intercept(sim, v, p, frame as int) == intercept(ball_pos, vel, p, 0),
        ensures
            sim == intercept(ball_pos, vel, p, 0),
            abs(sim.x - ball_pos.x) <= 50 * KICK_STRENGTH,
            abs(sim.y - ball_pos.y) <= 50 * KICK_STRENGTH,
        decreases abs(v.x as int) + abs(v.y as int),
    {
        let reach = PLAYER_INTERCEPT_BALL_SPEED * frame + CAPTURE_RADIUS;
        let d = sim.minus(p).square_length();
        let sp = v.square_length();
        proof {
            crate::geometry::lemma_square_bound(reach as int, 0x4000_0000);
        }
        if !(d > reach * reach && sp > STOP_SPEED * STOP_SPEED && (v.x != 0 || v.y != 0)) {
            break;
        }
        sim = sim.plus(v);
        let nx = drag(v.x);
        let ny = drag(v.y);
        proof {
            assert(abs(v.x as int) <= 50 * (abs(v.x as int) - abs(nx as int)));
            assert(abs(v.y as int) <= 50 * (abs(v.y as int) - abs(ny as int)));
        }
        v = Vec2 { x: nx, y: ny };
        frame = frame + 1;
    }
    sim
}

/// `d` thousandths of a pixel along octant `dir`.
pub fn facing_offset(dir: Angle, d: i64) -> (r: Vec2)
    requires
        dir.wf(),
        0 <= d <= 0x1000_0000,
    ensures
        r == spec_facing_offset(dir.0 as int, d as int),
        bounded(r, d as int),
{
    let u = Angle::to_vec(dir);
    proof {
        crate::geometry::lemma_mul_bound(u.x as int, d as int, 1000, 0x1000_0000);
        crate::geometry::lemma_mul_bound(u.y as int, d as int, 1000, 0x1000_0000);
        crate::geometry::lemma_div_below(u.x as int, d as int, 1000);
        crate::geometry::lemma_div_below(u.y as int, d as int, 1000);
    }
    Vec2 { x: div_toward_zero(u.x * d, 1000), y: div_toward_zero(u.y * d, 1000) }
}

fn clamp_i64(v: i64, lo: i64, hi: i64) -> (r: i64)
    requires
        lo <= hi,
    ensures
        r == clamp(v as int, lo as int, hi as int),
        lo <= r <= hi,
{
    if v < lo {
        lo
    } else if v > hi {
        hi
    } else {
        v
    }
}

impl Game {
    fn defending_target(&self, i: usize, o: usize) -> (r: Target)
        requires
            self.wf(),
            i < NUM_PLAYERS,
            o < NUM_PLAYERS,
        ensures
            r == defending_target(self@, i as int, o as int),
            bounded(r.pos, TARGET_LIMIT as int),
            0 <= r.speed <= crate::entities::MAX_SPEED,
    {
        let p = self.players[i];
        let ball_pos = self.ball.pos;
        proof {
            assert(self@.players[i as int].wf());
            assert(self@.players[o as int].wf());
        }
        match p.lead.distance {
            Some(ld) => {
                let owner = self.players[o];
                let off = facing_offset(owner.anim.dir, ld);
                let t = owner.pos.plus(off);
                let pos = Vec2 {
                    x: clamp_i64(t.x, AI_MIN_X, AI_MAX_X),
                    y: clamp_i64(t.y, AI_MIN_Y, AI_MAX_Y),
                };
                let boost = if self.teams[1 - p.team as usize].human {
                    self.difficulty.speed_boost
                } else {
                    0
                };
                Target { pos, speed: LEAD_PLAYER_BASE_SPEED + boost }
            },
            None => {
                let mark_pos = match p.mark {
                    Mark::Goal(g) => g,
                    Mark::Player(m) => {
                        proof {
                            assert(self@.players[m as int].wf());
                        }
                        self.players[m].pos
                    },
                };
                let dy = mark_pos.y - ball_pos.y;
                if dy > -ACTIVE_RANGE && dy < ACTIVE_RANGE {
                    if self.teams[p.team as usize].human {
                        Target { pos: ball_pos, speed: PLAYER_DEFAULT_SPEED }
                    } else {
                        let v = ball_pos.minus(mark_pos);
                        let len = v.length();
                        let d = match p.mark {
                            Mark::Goal(_) => if len < GOAL_MARK_RANGE {
                                len
                            } else {
                                GOAL_MARK_RANGE
                            },
                            Mark::Player(_) => len / 2,
                        };
                        let off = v.scale_to(d);
                        Target { pos: mark_pos.plus(off), speed: PLAYER_DEFAULT_SPEED }
                    }
                } else {
                    Target { pos: p.home, speed: PLAYER_DEFAULT_SPEED }
                }
            },
        }
    }

    /// Player `i`'s target this tick.
    pub fn planned_target(&self, inputs: &Vec<Controls>, i: usize) -> (r: Target)
        requires
            self.wf(),
            inputs@.len() == 2,
            i < NUM_PLAYERS,
        ensures
            r == planned_target(self@, inputs@, i as int),
            bounded(r.pos, TARGET_LIMIT as int),
            0 <= r.speed <= crate::entities::MAX_SPEED,
    {
        let p = self.players[i];
        proof {
            assert(self@.players[i as int].wf());
        }
        let ball_pos = self.ball.pos;
        let team = self.teams[p.team as usize];
        let is_kickoff_player = match self.kickoff_player {
            Some(k) => k == i,
            None => false,
        };
        if self.kickoff_player.is_some() && !is_kickoff_player {
            return Target { pos: p.pos, speed: p.target.speed };
        }
        let is_active = match team.active_player {
            Some(a) => a == i,
            None => false,
        };
        if team.human && is_active {
            let owns = match self.ball.owner() {
                Some(o) => o == i,
                None => false,
            };
            let speed = if owns {
                HUMAN_PLAYER_WITH_BALL_SPEED
            } else {
                HUMAN_PLAYER_WITHOUT_BALL_SPEED
            };
            let mv = inputs[p.team as usize].movement();
            return Target { pos: p.pos.plus(mv), speed };
        }
        let default = Target { pos: p.home, speed: PLAYER_DEFAULT_SPEED };
        match self.ball.state {
            crate::entities::BallState::Dribbled(o) => {
                if o == i {
                    default
                } else if p.team == self.players[o].team {
                    let dy = ball_pos.y - p.pos.y;
                    if dy > -ACTIVE_RANGE && dy < ACTIVE_RANGE {
                        let ahead: i64 = if p.team == 0 {
                            -SUPPORT_AHEAD
                        } else {
                            SUPPORT_AHEAD
                        };
                        let front = Vec2 { x: ball_pos.x, y: ball_pos.y + ahead };
                        let sx = p.home.x + front.x;
                        let sy = p.home.y + front.y;
                        Target {
                            pos: Vec2 { x: div_toward_zero(sx, 2), y: div_toward_zero(sy, 2) },
                            speed: PLAYER_DEFAULT_SPEED,
                        }
                    } else {
                        default
                    }
                } else {
                    self.defending_target(i, o)
                }
            },
            crate::entities::BallState::Free(vel) => {
                let pos = intercept_point(ball_pos, vel, p.pos);
                Target { pos, speed: PLAYER_INTERCEPT_BALL_SPEED }
            },
        }
    }

    /// Sets every player's target for this tick.
    pub fn set_player_targets(&mut self, inputs: &Vec<Controls>)
        requires
            old(self).wf(),
            inputs@.len() == 2,
        ensures
            final(self)@ == spec_set_player_targets(old(self)@, inputs@),
            final(self).wf(),
    {
        let mut targets: Vec<Target> = Vec::new();
        let mut i: usize = 0;
        while i < NUM_PLAYERS
            invariant
                self.wf(),
                inputs@.len() == 2,
                i <= NUM_PLAYERS,
                targets@.len() == i,
                forall|m: int|
                    0 <= m < i ==> #[trigger] targets@[m] == planned_target(self@, inputs@, m),
                forall|m: int|
                    0 <= m < i ==> bounded(#[trigger] targets@[m].pos, TARGET_LIMIT as int) && 0
                        <= targets@[m].speed <= crate::entities::MAX_SPEED,
            decreases NUM_PLAYERS - i,
        {
            let t = self.planned_target(inputs, i);
            targets.push(t);
            i = i + 1;
        }
        let ghost s = self@;
        assert forall|m: int| 0 <= m < NUM_PLAYERS implies bounded(
            #[trigger] targets@[m].pos,
            TARGET_LIMIT as int,
        ) && 0 <= targets@[m].speed <= crate::entities::MAX_SPEED by {
            assert(targets@[m] == planned_target(self@, inputs@, m));
        }
        let mut i: usize = 0;
        while i < NUM_PLAYERS
            invariant
                s == old(self)@,
                s.wf(),
                self.players@.len() == NUM_PLAYERS,
                self@ == (GameState { players: self.players@, ..s }),
                i <= NUM_PLAYERS,
                targets@.len() == NUM_PLAYERS,
                forall|m: int|
                    0 <= m < NUM_PLAYERS ==> #[trigger] targets@[m] == planned_target(s, inputs@, m),
                forall|m: int|
                    0 <= m < NUM_PLAYERS ==> bounded(#[trigger] targets@[m].pos, TARGET_LIMIT as int)
                        && 0 <= targets@[m].speed <= crate::entities::MAX_SPEED,
                forall|m: int|
                    0 <= m < i ==> #[trigger] self.players@[m] == (Player {
                        target: planned_target(s, inputs@, m),
                        ..s.players[m]
                    }),
                forall|m: int| i <= m < NUM_PLAYERS ==> #[trigger] self.players@[m] == s.players[m],
            decreases NUM_PLAYERS - i,
        {
            let mut p = self.players[i];
            p.target = targets[i];
            self.players.set(i, p);
            i = i + 1;
        }
        proof {
            assert(self.players@ =~= spec_set_player_targets(s, inputs@).players);
            assert forall|m: int| 0 <= m < NUM_PLAYERS implies #[trigger] self@.players[m].wf() by {
                assert(s.players[m].wf());
                assert(targets@[m] == self@.players[m].target);
            }
        }
    }
}

} // verus!
