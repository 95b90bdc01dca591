//! The ball each tick: free flight or dribbling, the camera, acquisition, and kicks.
use vstd::prelude::*;
use crate::angle::{spec_cos, spec_sin, spec_to_vec, Angle};
use crate::behaviours::{nearest_in, nearest_of_team};
use crate::entities::{Ball, BallState, Controls, Player, TeamInfo, NUM_PLAYERS, HUMAN_PLAYER_WITHOUT_BALL_SPEED};
use crate::field::{
    abs, in_level, on_pitch, spec_on_pitch, GOAL_MAX_X, GOAL_MAX_Y, GOAL_MIN_X, GOAL_MIN_Y,
    HALF_GOAL_W, HALF_LEVEL_H, HALF_LEVEL_W, HALF_PITCH_H, LEVEL_H, PITCH_MAX_X, PITCH_MAX_Y,
    PITCH_MIN_X, PITCH_MIN_Y,
};
use crate::game::{goal_scored, Game, GameState, KICK_HOLDOFF, LOST_BALL_HOLDOFF};
use crate::geometry::{
    bounded, dist_sq, len_sq, length, scale_to, vadd, vsub, with_max_length, Vec2,
};
use crate::physics::{avg, ball_physics, spec_avg, spec_ball_physics, spec_steps, steps, KICK_STRENGTH};
use crate::targets::{spec_facing_offset, facing_offset, CAPTURE_RADIUS};

verus! {

/// Horizontal and vertical distance of the dribbled ball from its owner, per unit of facing.
pub const DRIBBLE_DIST_X: i64 = 18;
pub const DRIBBLE_DIST_Y: i64 = 16;
/// Speed, per unit of facing, of a ball that its owner dribbled off the pitch.
pub const LOST_BALL_SPEED: i64 = 3;
/// Farthest the camera moves in one tick.
pub const CAMERA_SPEED: i64 = 8_000;
/// Farthest a shot or pass may aim.
pub const SHOOT_RANGE: i64 = 300_000;
/// How far ahead of the kicker the fallback receiver is looked for.
pub const PASS_AHEAD: i64 = 250_000;
/// Rounds of the lead correction for passes between human players.
pub const LEAD_ROUNDS: u32 = 8;

/// Something the ball owner can aim at: the goal, or a teammate.
#[derive(Clone, Copy, Debug, PartialEq, Eq, Structural)]
pub enum ShootTarget {
    Goal(Vec2),
    Player(Vec2, usize),
}

impl ShootTarget {
    pub open spec fn spec_position(self) -> Vec2 {
        match self {
            ShootTarget::Goal(p) => p,
            ShootTarget::Player(p, _) => p,
        }
    }

    pub fn position(&self) -> (r: Vec2)
        ensures
            r == self.spec_position(),
    {
        match self {
            ShootTarget::Goal(p) => *p,
            ShootTarget::Player(p, _) => *p,
        }
    }
}

/// The team of the player who owned the ball when the ball update began.
pub open spec fn owner_team(s: GameState) -> Option<u8> {
    match s.ball.state {
        BallState::Free(_) => None,
        BallState::Dribbled(o) => Some(s.players[o as int].team),
    }
}

/// Where a dribbled ball eases toward: the owner's position moved along its facing.
pub open spec fn dribble_anchor(owner: Player) -> Vec2 {
    Vec2 {
        x: (owner.pos.x + DRIBBLE_DIST_X * spec_sin(owner.anim.dir.0 as int)) as i64,
        y: (owner.pos.y - DRIBBLE_DIST_Y * spec_cos(owner.anim.dir.0 as int)) as i64,
    }
}

/// The ball's horizontal bounds: the goal mouth once it is behind a goal line.
pub open spec fn bounds_x(pos: Vec2) -> (int, int) {
    if goal_scored(pos.y as int) {
        (GOAL_MIN_X as int, GOAL_MAX_X as int)
    } else {
        (PITCH_MIN_X as int, PITCH_MAX_X as int)
    }
}

/// The ball's vertical bounds: down to the goal backs while it is within the goal mouth.
pub open spec fn bounds_y(pos: Vec2) -> (int, int) {
    if abs(pos.x - HALF_LEVEL_W) < HALF_GOAL_W {
        (GOAL_MIN_Y as int, GOAL_MAX_Y as int)
    } else {
        (PITCH_MIN_Y as int, PITCH_MAX_Y as int)
    }
}

/// The ball's own step: free flight with bounces and drag, or easing toward the owner's
/// dribble anchor; an owner who would take the ball off the pitch loses it, which flies on
/// along the owner's facing, and may not take it back for a while.
pub open spec fn spec_ball_motion(s: GameState) -> GameState {
    let b = s.ball;
    match b.state {
        BallState::Free(v) => {
            let (lx, hx) = bounds_x(b.pos);
            let (ly, hy) = bounds_y(b.pos);
            let (px, vx) = spec_ball_physics(b.pos.x as int, v.x as int, lx, hx);
            let (py, vy) = spec_ball_physics(b.pos.y as int, v.y as int, ly, hy);
            GameState {
                ball: Ball {
                    pos: Vec2 { x: px as i64, y: py as i64 },
                    state: BallState::Free(Vec2 { x: vx as i64, y: vy as i64 }),
                    ..b
                },
                ..s
            }
        },
        BallState::Dribbled(o) => {
            let owner = s.players[o as int];
            let a = dribble_anchor(owner);
            let nx = spec_avg(b.pos.x as int, a.x as int);
            let ny = spec_avg(b.pos.y as int, a.y as int);
            if spec_on_pitch(nx, ny) {
                GameState {
                    ball: Ball { pos: Vec2 { x: nx as i64, y: ny as i64 }, ..b },
                    kickoff_player: None,
                    ..s
                }
            } else {
                let dir = owner.anim.dir.0 as int;
                GameState {
                    ball: Ball {
                        state: BallState::Free(
                            Vec2 {
                                x: (LOST_BALL_SPEED * spec_sin(dir)) as i64,
                                y: (-LOST_BALL_SPEED * spec_cos(dir)) as i64,
                            },
                        ),
                        ..b
                    },
                    players: s.players.update(o as int, Player { timer: LOST_BALL_HOLDOFF, ..owner }),
                    kickoff_player: None,
                    ..s
                }
            }
        },
    }
}

/// The camera moves toward the ball by at most `CAMERA_SPEED`.
pub open spec fn spec_follow_ball(s: GameState) -> GameState {
    GameState {
        camera_focus: vadd(
            s.camera_focus,
            with_max_length(vsub(s.ball.pos, s.camera_focus), CAMERA_SPEED as int),
        ),
        ..s
    }
}

/// Player `j` takes the ball in the scan: not on the team that had it, within the capture
/// radius, and free to act.
pub open spec fn can_acquire(s: GameState, ot: Option<u8>, j: int) -> bool {
    let p = s.players[j];
    &&& ot != Some(p.team)
    &&& dist_sq(s.ball.pos, p.pos) <= CAPTURE_RADIUS * CAPTURE_RADIUS
    &&& p.timer == 0
}

/// The last of the first `n` players who takes the ball in the scan.
pub open spec fn last_acquirer(s: GameState, ot: Option<u8>, n: int) -> Option<usize>
    decreases n,
{
    if n <= 0 {
        None
    } else if can_acquire(s, ot, n - 1) {
        Some((n - 1) as usize)
    } else {
        last_acquirer(s, ot, n - 1)
    }
}

/// Team `t`'s active player after the first `n` players of the scan: its last acquirer.
pub open spec fn active_after(s: GameState, ot: Option<u8>, t: int, n: int) -> Option<usize>
    decreases n,
{
    if n <= 0 {
        s.teams[t].active_player
    } else if can_acquire(s, ot, n - 1) && s.players[n - 1].team == t {
        Some((n - 1) as usize)
    } else {
        active_after(s, ot, t, n - 1)
    }
}

/// The acquisition scan over all players in order, the last acquirer winning. Each acquirer
/// becomes its team's active player; the winner owns the ball, which stops flying free; the
/// player who owned the ball when the scan began loses it and may not take it back for a while.
pub open spec fn spec_acquire_ball(s: GameState, ot: Option<u8>) -> GameState {
    let n = NUM_PLAYERS as int;
    let teams = Seq::new(
        2,
        |t: int| TeamInfo { active_player: active_after(s, ot, t, n), ..s.teams[t] },
    );
    match last_acquirer(s, ot, n) {
        None => GameState { teams, ..s },
        Some(w) => {
            let players = match s.owner() {
                Some(q) => s.players.update(
                    q as int,
                    Player { timer: LOST_BALL_HOLDOFF, ..s.players[q as int] },
                ),
                None => s.players,
            };
            GameState {
                teams,
                players,
                ball: Ball {
                    state: BallState::Dribbled(w),
                    timer: s.difficulty.holdoff_timer,
                    ..s.ball
                },
                ..s
            }
        },
    }
}

/// The owner at `from`, facing octant `dir`, may aim at `t`: it lies within `SHOOT_RANGE`, not
/// on the owner, and within the forward cone whose cosine with the facing exceeds 0.8.
pub open spec fn spec_in_shoot_cone(from: Vec2, dir: int, t: Vec2) -> bool {
    let v = vsub(t, from);
    let f = spec_to_vec(dir);
    let d2 = len_sq(v);
    let dot = v.x * f.x + v.y * f.y;
    &&& 0 < d2 <= SHOOT_RANGE * SHOOT_RANGE
    &&& dot > 0
    &&& dot * dot > 640_000 * d2
}

/// Among the first `n` players, the first teammate of owner `o` in its cone nearest to it.
pub open spec fn best_teammate(s: GameState, o: int, n: int) -> Option<usize>
    decreases n,
{
    if n <= 0 {
        None
    } else {
        let prev = best_teammate(s, o, n - 1);
        let j = n - 1;
        let owner = s.players[o];
        let p = s.players[j];
        if j != o && p.team == owner.team && spec_in_shoot_cone(owner.pos, owner.anim.dir.0 as int, p.pos) {
            match prev {
                None => Some(j as usize),
                Some(b) => if dist_sq(p.pos, owner.pos) < dist_sq(s.players[b as int].pos, owner.pos) {
                    Some(j as usize)
                } else {
                    prev
                },
            }
        } else {
            prev
        }
    }
}

/// The centre of the goal that `team` attacks.
pub open spec fn attacked_goal(team: int) -> Vec2 {
    Vec2 { x: HALF_LEVEL_W, y: (team * LEVEL_H) as i64 }
}

/// The nearest target in owner `o`'s cone: teammates in order, then the goal it attacks, the
/// first of equally near ones winning.
pub open spec fn best_target(s: GameState, o: int) -> Option<ShootTarget> {
    let owner = s.players[o];
    let g = attacked_goal(owner.team as int);
    let goal_ok = spec_in_shoot_cone(owner.pos, owner.anim.dir.0 as int, g);
    match best_teammate(s, o, NUM_PLAYERS as int) {
        None => if goal_ok {
            Some(ShootTarget::Goal(g))
        } else {
            None
        },
        Some(b) => {
            let bp = s.players[b as int].pos;
            if goal_ok && dist_sq(g, owner.pos) < dist_sq(bp, owner.pos) {
                Some(ShootTarget::Goal(g))
            } else {
                Some(ShootTarget::Player(bp, b))
            }
        },
    }
}

/// The aim point of a pass to a receiver at `t` from `from`, facing `dir`: `rounds` rounds of
/// placing the aim `lead` ahead of the receiver along the facing, and taking as the next lead
/// the distance a receiver covers while the ball travels to that aim.
pub open spec fn spec_lead_aim(t: Vec2, from: Vec2, dir: int, lead: int, rounds: nat) -> Vec2
    decreases rounds,
{
    let aim = vadd(t, spec_facing_offset(dir, lead));
    if rounds <= 1 {
        aim
    } else {
        spec_lead_aim(
            t,
            from,
            dir,
            HUMAN_PLAYER_WITHOUT_BALL_SPEED * spec_steps(length(vsub(aim, from))),
            (rounds - 1) as nat,
        )
    }
}

/// Where owner `o` kicks toward, relative to its position.
pub open spec fn kick_vector(s: GameState, o: int, best: Option<ShootTarget>) -> Vec2 {
    let owner = s.players[o];
    let dir = owner.anim.dir.0 as int;
    match best {
        Some(ShootTarget::Player(p, _)) => vsub(spec_lead_aim(p, owner.pos, dir, 0, LEAD_ROUNDS as nat), owner.pos),
        Some(ShootTarget::Goal(g)) => vsub(g, owner.pos),
        None => spec_to_vec(dir),
    }
}

/// The active player of the kicking team after a kick: the receiver of a pass, unchanged for a
/// shot at goal, and with nothing in the cone the teammate nearest a point ahead of the kicker.
pub open spec fn active_after_kick(s: GameState, o: int, best: Option<ShootTarget>) -> Option<usize> {
    let owner = s.players[o];
    match best {
        Some(ShootTarget::Player(_, j)) => Some(j),
        Some(ShootTarget::Goal(_)) => s.teams[owner.team as int].active_player,
        None => nearest_in(
            s.players,
            owner.team as int,
            vadd(owner.pos, scale_to(spec_to_vec(owner.anim.dir.0 as int), PASS_AHEAD as int)),
            NUM_PLAYERS as int,
        ),
    }
}

/// Evaluate the owner's targets; if its team is human and pressed shoot, kick the ball toward
/// the chosen target at kick strength.
pub open spec fn spec_shoot(s: GameState, inputs: Seq<Controls>) -> GameState {
    let teams0 = Seq::new(2, |t: int| TeamInfo { shoot_now: false, ..s.teams[t] });
    match s.owner() {
        None => GameState { teams: teams0, debug_shoot_target: None, ..s },
        Some(o) => {
            let o = o as int;
            let owner = s.players[o];
            let team = owner.team as int;
            let best = best_target(s, o);
            let shown = match best {
                Some(t) => Some(t.spec_position()),
                None => None,
            };
            if !(s.teams[team].human && inputs[team].shoot) {
                GameState { teams: teams0, debug_shoot_target: shown, ..s }
            } else {
                GameState {
                    teams: teams0.update(
                        team,
                        TeamInfo {
                            shoot_now: true,
                            active_player: active_after_kick(s, o, best),
                            ..teams0[team]
                        },
                    ),
                    players: s.players.update(o, Player { timer: KICK_HOLDOFF, ..owner }),
                    ball: Ball {
                        state: BallState::Free(scale_to(kick_vector(s, o, best), KICK_STRENGTH as int)),
                        ..s.ball
                    },
                    debug_shoot_target: shown,
                    ..s
                }
            }
        },
    }
}

/// The whole ball update of one tick.
pub open spec fn spec_update_ball(s: GameState, inputs: Seq<Controls>) -> GameState {
    spec_shoot(
        spec_acquire_ball(spec_follow_ball(spec_ball_motion(s)), owner_team(s)),
        inputs,
    )
}

/// The last acquirer of the scan takes the ball: it could take it, nobody after it in the
/// scan could, it owns the ball when the scan ends, the ball no longer flies free, and it is its
/// team's active player; with no acquirer nobody could take the ball.
pub proof fn lemma_last_acquirer_wins(s: GameState, ot: Option<u8>)
    requires
        s.wf(),
    ensures
        last_acquirer(s, ot, NUM_PLAYERS as int) matches Some(w) ==> {
            &&& can_acquire(s, ot, w as int)
            &&& forall|j: int| w < j < NUM_PLAYERS ==> !can_acquire(s, ot, j)
            &&& spec_acquire_ball(s, ot).ball.spec_owner() == Some(w)
            &&& spec_acquire_ball(s, ot).ball.spec_velocity() is None
            &&& spec_acquire_ball(s, ot).teams[s.players[w as int].team as int].active_player
                == Some(w)
        },
        last_acquirer(s, ot, NUM_PLAYERS as int) is None ==> forall|j: int|
            0 <= j < NUM_PLAYERS ==> !can_acquire(s, ot, j),
{
    lemma_last_acquirer_scan(s, ot, NUM_PLAYERS as int);
    match last_acquirer(s, ot, NUM_PLAYERS as int) {
        Some(w) => {
            assert(s.players[w as int].wf());
            lemma_active_after_last(s, ot, w as int, NUM_PLAYERS as int);
        },
        None => {},
    }
}

proof fn lemma_active_after_last(s: GameState, ot: Option<u8>, w: int, n: int)
    requires
        0 <= w < n <= NUM_PLAYERS,
        can_acquire(s, ot, w),
        forall|j: int| w < j < n ==> !can_acquire(s, ot, j),
    ensures
        active_after(s, ot, s.players[w].team as int, n) == Some(w as usize),
    decreases n,
{
    if n > w + 1 {
        lemma_active_after_last(s, ot, w, n - 1);
    }
}

/// A kick with nothing in the owner's cone: when the owner's human team presses shoot and no
/// teammate nor goal lies in its cone, the ball flies free along the owner's facing at kick
/// strength, the kicker waits `KICK_HOLDOFF` ticks before it may take the ball again, and the
/// team's active player becomes its player nearest the point `PASS_AHEAD` ahead of the kicker.
pub proof fn lemma_kick_without_target(s: GameState, inputs: Seq<Controls>, o: usize)
    requires
        s.wf(),
        inputs.len() == 2,
        s.owner() == Some(o),
        s.teams[s.players[o as int].team as int].human,
        inputs[s.players[o as int].team as int].shoot,
        best_target(s, o as int) is None,
    ensures
        ({
            let r = spec_shoot(s, inputs);
            let owner = s.players[o as int];
            let f = spec_to_vec(owner.anim.dir.0 as int);
            &&& r.ball.spec_owner() is None
            &&& r.ball.spec_velocity() == Some(scale_to(f, KICK_STRENGTH as int))
            &&& r.players[o as int].timer == KICK_HOLDOFF
            &&& r.teams[owner.team as int].active_player == nearest_in(
                s.players,
                owner.team as int,
                vadd(owner.pos, scale_to(f, PASS_AHEAD as int)),
                NUM_PLAYERS as int,
            )
            &&& r.teams[owner.team as int].shoot_now
        }),
{
    assert(s.players[o as int].wf());
}

proof fn lemma_last_acquirer_scan(s: GameState, ot: Option<u8>, n: int)
    requires
        0 <= n <= NUM_PLAYERS,
    ensures
        last_acquirer(s, ot, n) matches Some(w) ==> {
            &&& w < n
            &&& can_acquire(s, ot, w as int)
            &&& forall|j: int| w < j < n ==> !can_acquire(s, ot, j)
        },
        last_acquirer(s, ot, n) is None ==> forall|j: int| 0 <= j < n ==> !can_acquire(s, ot, j),
    decreases n,
{
    if n > 0 {
        lemma_last_acquirer_scan(s, ot, n - 1);
    }
}

/// Whether the owner at `from`, facing `dir`, may aim at `t`.
pub fn in_shoot_cone(from: Vec2, dir: Angle, t: Vec2) -> (r: bool)
    requires
        in_level(from.x as int, from.y as int),
        in_level(t.x as int, t.y as int),
        dir.wf(),
    ensures
        r == spec_in_shoot_cone(from, dir.0 as int, t),
{
    let v = t.minus(from);
    let f = Angle::to_vec(dir);
    let d2 = v.square_length();
    proof {
        assert(-1_400_000_000 <= v.x * f.x <= 1_400_000_000) by (nonlinear_arith)
            requires
                -1_400_000 <= v.x <= 1_400_000,
                -1000 <= f.x <= 1000,
        ;
        assert(-1_400_000_000 <= v.y * f.y <= 1_400_000_000) by (nonlinear_arith)
            requires
                -1_400_000 <= v.y <= 1_400_000,
                -1000 <= f.y <= 1000,
        ;
    }
    let dot = v.x * f.x + v.y * f.y;
    if !(d2 > 0 && d2 <= SHOOT_RANGE * SHOOT_RANGE && dot > 0) {
        return false;
    }
    proof {
        crate::geometry::lemma_square_bound(dot as int, 2_800_000_000);
    }
    (dot as i128) * (dot as i128) > 640_000i128 * (d2 as i128)
}

/// `rounds` of the lead correction for a pass from `from` to a receiver at `t`, facing `dir`.
pub fn lead_aim(t: Vec2, from: Vec2, dir: Angle) -> (r: Vec2)
    requires
        in_level(t.x as int, t.y as int),
        in_level(from.x as int, from.y as int),
        dir.wf(),
    ensures
        r == spec_lead_aim(t, from, dir.0 as int, 0, LEAD_ROUNDS as nat),
        bounded(vsub(r, from), 0x2000_0000),
        bounded(r, 0x1000_0000),
{
    let mut lead: i64 = 0;
    let mut k: u32 = LEAD_ROUNDS;
    loop
        invariant
            in_level(t.x as int, t.y as int),
            in_level(from.x as int, from.y as int),
            dir.wf(),
            1 <= k <= LEAD_ROUNDS,
            0 <= lead <= HUMAN_PLAYER_WITHOUT_BALL_SPEED * 40_000,
            spec_lead_aim(t, from, dir.0 as int, lead as int, k as nat) == spec_lead_aim(
                t,
                from,
                dir.0 as int,
                0,
                LEAD_ROUNDS as nat,
            ),
        decreases k,
    {
        let off = facing_offset(dir, lead);
        let aim = t.plus(off);
        if k <= 1 {
            return aim;
        }
        let len = aim.minus(from).length();
        let n = steps(len);
        lead = HUMAN_PLAYER_WITHOUT_BALL_SPEED * (n as i64);
        k = k - 1;
    }
}

impl Game {
    /// The ball's own step; returns the team of the player who owned it when it began.
    fn ball_motion(&mut self) -> (ot: Option<u8>)
        requires
            old(self).wf(),
        ensures
            final(self)@ == spec_ball_motion(old(self)@),
            ot == owner_team(old(self)@),
            final(self).wf(),
    {
        let b = self.ball;
        match b.state {
            BallState::Free(v) => {
                let dy = b.pos.y - HALF_LEVEL_H;
                let bx: (i64, i64) = if dy > HALF_PITCH_H || -dy > HALF_PITCH_H {
                    (GOAL_MIN_X, GOAL_MAX_X)
                } else {
                    (PITCH_MIN_X, PITCH_MAX_X)
                };
                let dx = b.pos.x - HALF_LEVEL_W;
                let by: (i64, i64) = if dx < HALF_GOAL_W && -dx < HALF_GOAL_W {
                    (GOAL_MIN_Y, GOAL_MAX_Y)
                } else {
                    (PITCH_MIN_Y, PITCH_MAX_Y)
                };
                let (px, vx) = ball_physics(b.pos.x, v.x, bx);
                let (py, vy) = ball_physics(b.pos.y, v.y, by);
                proof {
                    assert((bx.0 as int, bx.1 as int) == bounds_x(b.pos));
                    assert((by.0 as int, by.1 as int) == bounds_y(b.pos));
                }
                self.ball = Ball {
                    pos: Vec2 { x: px, y: py },
                    state: BallState::Free(Vec2 { x: vx, y: vy }),
                    timer: b.timer,
                };
                proof {
                    assert(in_level(px as int, py as int));
                    assert(bounded(Vec2 { x: vx, y: vy }, KICK_STRENGTH as int));
                    assert(self.ball.wf());
                }
                None
            },
            BallState::Dribbled(o) => {
                let owner = self.players[o];
                proof {
                    assert(self@.players[o as int].wf());
                }
                let sn = owner.anim.dir.sin();
                let cs = owner.anim.dir.cos();
                let ax = owner.pos.x + DRIBBLE_DIST_X * sn;
                let ay = owner.pos.y - DRIBBLE_DIST_Y * cs;
                let nx = avg(b.pos.x, ax);
                let ny = avg(b.pos.y, ay);
                self.kickoff_player = None;
                if on_pitch(nx, ny) {
                    self.ball = Ball { pos: Vec2 { x: nx, y: ny }, state: b.state, timer: b.timer };
                } else {
                    self.ball = Ball {
                        pos: b.pos,
                        state: BallState::Free(
                            Vec2 { x: LOST_BALL_SPEED * sn, y: -(LOST_BALL_SPEED * cs) },
                        ),
                        timer: b.timer,
                    };
                    let mut q = owner;
                    q.timer = LOST_BALL_HOLDOFF;
                    self.players.set(o, q);
                    proof {
                        assert(self.players@ =~= old(self).players@.update(
                            o as int,
                            Player { timer: LOST_BALL_HOLDOFF, ..owner },
                        ));
                        assert forall|i: int| 0 <= i < NUM_PLAYERS implies #[trigger] self@.players[i].wf() by {
                            assert(old(self)@.players[i].wf());
                        }
                    }
                }
                Some(owner.team)
            },
        }
    }

    /// Moves the camera toward the ball by at most `CAMERA_SPEED`.
    fn follow_ball(&mut self)
        requires
            old(self).wf(),
        ensures
            final(self)@ == spec_follow_ball(old(self)@),
            final(self).wf(),
    {
        let d = self.ball.pos.minus(self.camera_focus);
        let step = d.with_max_length(CAMERA_SPEED);
        self.camera_focus = self.camera_focus.plus(step);
    }

    /// The acquisition scan, with `ot` the team that owned the ball when the update began.
    fn acquire_ball(&mut self, ot: Option<u8>)
        requires
            old(self).wf(),
        ensures
            final(self)@ == spec_acquire_ball(old(self)@, ot),
            final(self).wf(),
    {
        let ghost s = self@;
        let ball_pos = self.ball.pos;
        let loser: Option<usize> = self.ball.owner();
        let mut winner: Option<usize> = None;
        let mut a0 = self.teams[0].active_player;
        let mut a1 = self.teams[1].active_player;
        proof {
            assert(s.teams[0].wf());
            assert(s.teams[1].wf());
        }
        let mut j: usize = 0;
        while j < NUM_PLAYERS
            invariant
                s == self@,
                s.wf(),
                ball_pos == s.ball.pos,
                j <= NUM_PLAYERS,
                winner == last_acquirer(s, ot, j as int),
                loser == s.owner(),
                a0 == active_after(s, ot, 0, j as int),
                a1 == active_after(s, ot, 1, j as int),
                loser matches Some(q) ==> q < NUM_PLAYERS,
                winner matches Some(q) ==> q < NUM_PLAYERS,
                a0 matches Some(q) ==> q < NUM_PLAYERS,
                a1 matches Some(q) ==> q < NUM_PLAYERS,
            decreases NUM_PLAYERS - j,
        {
            let p = self.players[j];
            proof {
                assert(s.players[j as int].wf());
            }
            let d = ball_pos.minus(p.pos).square_length();
            let other_team = match ot {
                Some(t) => t != p.team,
                None => true,
            };
            if other_team && d <= CAPTURE_RADIUS * CAPTURE_RADIUS && p.timer == 0 {
                winner = Some(j);
                if p.team == 0 {
                    a0 = Some(j);
                } else {
                    a1 = Some(j);
                }
            }
            j = j + 1;
        }
        let mut t0 = self.teams[0];
        t0.active_player = a0;
        self.teams.set(0, t0);
        let mut t1 = self.teams[1];
        t1.active_player = a1;
        self.teams.set(1, t1);
        match winner {
            None => {},
            Some(w) => {
                match loser {
                    None => {},
                    Some(q) => {
                        let mut pq = self.players[q];
                        pq.timer = LOST_BALL_HOLDOFF;
                        self.players.set(q, pq);
                    },
                }
                self.ball.state = BallState::Dribbled(w);
                self.ball.timer = self.difficulty.holdoff_timer;
            },
        }
        proof {
            let r = spec_acquire_ball(s, ot);
            assert(self.teams@ =~= r.teams);
            assert(self.players@ =~= r.players);
            assert forall|i: int| 0 <= i < NUM_PLAYERS implies #[trigger] self@.players[i].wf() by {
                assert(s.players[i].wf());
            }
        }
    }

    /// Among all players, the first teammate of owner `o` in its cone nearest to it.
    fn best_teammate(&self, o: usize) -> (r: Option<usize>)
        requires
            self.wf(),
            o < NUM_PLAYERS,
        ensures
            r == best_teammate(self@, o as int, NUM_PLAYERS as int),
            r matches Some(b) ==> b < NUM_PLAYERS,
    {
        let owner = self.players[o];
        proof {
            assert(self@.players[o as int].wf());
        }
        let mut best: Option<usize> = None;
        let mut best_d: i64 = 0;
        let mut j: usize = 0;
        while j < NUM_PLAYERS
            invariant
                self.wf(),
                o < NUM_PLAYERS,
                owner == self@.players[o as int],
                owner.wf(),
                j <= NUM_PLAYERS,
                best == best_teammate(self@, o as int, j as int),
                best matches Some(b) ==> b < j && best_d == dist_sq(
                    self@.players[b as int].pos,
                    owner.pos,
                ),
            decreases NUM_PLAYERS - j,
        {
            let p = self.players[j];
            proof {
                assert(self@.players[j as int].wf());
            }
            if j != o && p.team == owner.team && in_shoot_cone(owner.pos, owner.anim.dir, p.pos) {
                let d = p.pos.minus(owner.pos).square_length();
                match best {
                    None => {
                        best = Some(j);
                        best_d = d;
                    },
                    Some(_) => {
                        if d < best_d {
                            best = Some(j);
                            best_d = d;
                        }
                    },
                }
            }
            j = j + 1;
        }
        best
    }

    /// The nearest target in owner `o`'s cone.
    pub fn best_target(&self, o: usize) -> (r: Option<ShootTarget>)
        requires
            self.wf(),
            o < NUM_PLAYERS,
        ensures
            r == best_target(self@, o as int),
            r matches Some(ShootTarget::Player(_, j)) ==> j < NUM_PLAYERS,
    {
        let owner = self.players[o];
        proof {
            assert(self@.players[o as int].wf());
        }
        let g = Vec2 { x: HALF_LEVEL_W, y: owner.team as i64 * LEVEL_H };
        let goal_ok = in_shoot_cone(owner.pos, owner.anim.dir, g);
        match self.best_teammate(o) {
            None => if goal_ok {
                Some(ShootTarget::Goal(g))
            } else {
                None
            },
            Some(b) => {
                let bp = self.players[b].pos;
                proof {
                    assert(self@.players[b as int].wf());
                }
                if goal_ok && g.minus(owner.pos).square_length() < bp.minus(owner.pos).square_length() {
                    Some(ShootTarget::Goal(g))
                } else {
                    Some(ShootTarget::Player(bp, b))
                }
            },
        }
    }

    /// Clears both teams' kicked-this-tick flags.
    fn clear_shoot_flags(&mut self)
        requires
            old(self).teams@.len() == 2,
        ensures
            final(self)@ == (GameState {
                teams: Seq::new(2, |t: int| TeamInfo { shoot_now: false, ..old(self)@.teams[t] }),
                ..old(self)@
            }),
    {
        let mut t0 = self.teams[0];
        t0.shoot_now = false;
        self.teams.set(0, t0);
        let mut t1 = self.teams[1];
        t1.shoot_now = false;
        self.teams.set(1, t1);
        proof {
            assert(self.teams@ =~= Seq::new(
                2,
                |t: int| TeamInfo { shoot_now: false, ..old(self)@.teams[t] },
            ));
        }
    }

    /// Evaluates the owner's targets and kicks when its human team pressed shoot.
    fn shoot(&mut self, inputs: &Vec<Controls>)
        requires
            old(self).wf(),
            inputs@.len() == 2,
        ensures
            final(self)@ == spec_shoot(old(self)@, inputs@),
            final(self).wf(),
    {
        let ghost s = self@;
        match self.ball.owner() {
            None => {
                self.clear_shoot_flags();
                self.debug_shoot_target = None;
                proof {
                    assert forall|t: int| 0 <= t < 2 implies #[trigger] self@.teams[t].wf() by {
                        assert(s.teams[t].wf());
                    }
                }
            },
            Some(o) => {
                let owner = self.players[o];
                proof {
                    assert(s.players[o as int].wf());
                }
                let team = owner.team as usize;
                let dir = owner.anim.dir;
                let best = self.best_target(o);
                let shown = match best {
                    Some(t) => Some(t.position()),
                    None => None,
                };
                if !(self.teams[team].human && inputs[team].shoot) {
                    self.clear_shoot_flags();
                    self.debug_shoot_target = shown;
                    proof {
                        assert forall|t: int| 0 <= t < 2 implies #[trigger] self@.teams[t].wf() by {
                            assert(s.teams[t].wf());
                        }
                    }
                    return;
                }
                let f = Angle::to_vec(dir);
                let kick = match best {
                    Some(ShootTarget::Player(p, j)) => {
                        proof {
                            assert(s.players[j as int].wf());
                        }
                        lead_aim(p, owner.pos, dir).minus(owner.pos)
                    },
                    Some(ShootTarget::Goal(g)) => g.minus(owner.pos),
                    None => f,
                };
                let active = match best {
                    Some(ShootTarget::Player(_, j)) => Some(j),
                    Some(ShootTarget::Goal(_)) => self.teams[team].active_player,
                    None => {
                        let dest = owner.pos.plus(f.scale_to(PASS_AHEAD));
                        proof {
                            assert forall|i: int| 0 <= i < self.players@.len() implies in_level(
                                #[trigger] self.players@[i].pos.x as int,
                                self.players@[i].pos.y as int,
                            ) by {
                                assert(s.players[i].wf());
                            }
                        }
                        nearest_of_team(&self.players, owner.team, dest)
                    },
                };
                proof {
                    assert(active == active_after_kick(s, o as int, best));
                    assert(s.teams[team as int].wf());
                }
                let vel = kick.scale_to(KICK_STRENGTH);
                self.clear_shoot_flags();
                let mut tk = self.teams[team];
                tk.shoot_now = true;
                tk.active_player = active;
                self.teams.set(team, tk);
                let mut q = owner;
                q.timer = KICK_HOLDOFF;
                self.players.set(o, q);
                self.ball.state = BallState::Free(vel);
                self.debug_shoot_target = shown;
                proof {
                    let r = spec_shoot(s, inputs@);
                    assert(self.teams@ =~= r.teams);
                    assert(self.players@ =~= r.players);
                    assert forall|i: int| 0 <= i < NUM_PLAYERS implies #[trigger] self@.players[i].wf() by {
                        assert(s.players[i].wf());
                    }
                    assert forall|t: int| 0 <= t < 2 implies #[trigger] self@.teams[t].wf() by {
                        assert(s.teams[t].wf());
                    }
                }
            },
        }
    }

    /// The ball's tick: its own step, the camera, the acquisition scan, then a possible kick.
    pub fn update_ball(&mut self, inputs: &Vec<Controls>)
        requires
            old(self).wf(),
            inputs@.len() == 2,
        ensures
            final(self)@ == spec_update_ball(old(self)@, inputs@),
            final(self).wf(),
    {
        let ot = self.ball_motion();
        self.follow_ball();
        self.acquire_ball(ot);
        self.shoot(inputs);
    }
}

} // verus!
