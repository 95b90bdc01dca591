//! The match: entity store, construction and reset, timers and goal detection.
use vstd::prelude::*;
use crate::angle::Angle;
use crate::entities::{
    Animation, Ball, BallState, Difficulty, Lead, Mark, Player, Target, TeamInfo, NUM_PLAYERS,
    PLAYER_DEFAULT_SPEED, TEAM_SIZE,
};
use crate::field::{abs, in_level, HALF_LEVEL_H, HALF_LEVEL_W, HALF_PITCH_H, LEVEL_H, LEVEL_W};
use crate::geometry::{bounded, div0, div_toward_zero, vadd, Vec2};

verus! {

/// Largest random offset of a home position from its template, on each axis.
pub const HOME_JITTER: i64 = 32_000;
/// Ticks between a goal and the reset that follows it.
pub const GOAL_CELEBRATION: i64 = 60;
/// Ticks a player who lost the ball must wait before taking it again.
pub const LOST_BALL_HOLDOFF: i32 = 60;
/// Ticks a player who kicked the ball must wait before taking it again.
pub const KICK_HOLDOFF: i32 = 10;

/// The match: difficulty, camera, players, ball, and per-team records.
pub struct Game {
    pub difficulty: Difficulty,
    pub camera_focus: Vec2,
    pub players: Vec<Player>,
    pub ball: Ball,
    /// The only player allowed to move before the kickoff.
    pub kickoff_player: Option<usize>,
    pub teams: Vec<TeamInfo>,
    /// The team that scored last; the other one kicks off.
    pub scoring_team: usize,
    /// Counts down every tick; a reset happens when it reaches zero after a goal.
    pub score_timer: i64,
    /// Where the ball owner would kick to, for display.
    pub debug_shoot_target: Option<Vec2>,
}

/// The mathematical value of a match.
pub struct GameState {
    pub difficulty: Difficulty,
    pub camera_focus: Vec2,
    pub players: Seq<Player>,
    pub ball: Ball,
    pub kickoff_player: Option<usize>,
    pub teams: Seq<TeamInfo>,
    pub scoring_team: usize,
    pub score_timer: i64,
    pub debug_shoot_target: Option<Vec2>,
}

impl View for Game {
    type V = GameState;

    open spec fn view(&self) -> GameState {
        GameState {
            difficulty: self.difficulty,
            camera_focus: self.camera_focus,
            players: self.players@,
            ball: self.ball,
            kickoff_player: self.kickoff_player,
            teams: self.teams@,
            scoring_team: self.scoring_team,
            score_timer: self.score_timer,
            debug_shoot_target: self.debug_shoot_target,
        }
    }
}

impl GameState {
    pub open spec fn wf(self) -> bool {
        &&& self.players.len() == NUM_PLAYERS
        &&& self.teams.len() == 2
        &&& forall|i: int| 0 <= i < NUM_PLAYERS ==> #[trigger] self.players[i].wf()
        &&& forall|t: int| 0 <= t < 2 ==> #[trigger] self.teams[t].wf()
        &&& self.ball.wf()
        &&& self.difficulty.wf()
        &&& in_level(self.camera_focus.x as int, self.camera_focus.y as int)
        &&& self.scoring_team <= 1
        &&& match self.kickoff_player {
            Some(k) => k < NUM_PLAYERS,
            None => true,
        }
    }

    pub open spec fn owner(self) -> Option<usize> {
        self.ball.spec_owner()
    }
}

/// Template start positions of one team's players, in thousandths of a pixel.
pub open spec fn template(k: int) -> (int, int) {
    if k == 0 {
        (350_000, 550_000)
    } else if k == 1 {
        (650_000, 450_000)
    } else if k == 2 {
        (200_000, 850_000)
    } else if k == 3 {
        (500_000, 750_000)
    } else if k == 4 {
        (800_000, 950_000)
    } else if k == 5 {
        (350_000, 1_250_000)
    } else {
        (650_000, 1_150_000)
    }
}

/// Template position of player `i`: even indices play for team 0, odd ones for team 1, which
/// mirrors team 0's template through the centre of the level.
pub open spec fn spawn_base(i: int) -> Vec2 {
    let (x, y) = template(i / 2);
    if i % 2 == 0 {
        Vec2 { x: x as i64, y: y as i64 }
    } else {
        Vec2 { x: (LEVEL_W - x) as i64, y: (LEVEL_H - y) as i64 }
    }
}

/// Vertical offset of a team's starting positions from half its home height.
pub open spec fn start_offset(team: int) -> int {
    if team == 0 {
        550_000
    } else {
        150_000
    }
}

pub open spec fn spec_build_player(base: Vec2, offs: int, team: u8, jitter: Vec2, peer: usize) -> Player {
    let home = vadd(base, jitter);
    let start = Vec2 { x: home.x, y: (div0(home.y as int, 2) + offs) as i64 };
    Player {
        pos: start,
        home,
        team,
        target: Target { pos: start, speed: PLAYER_DEFAULT_SPEED },
        anim: Animation { dir: Angle(0), frame: 0 },
        timer: 0,
        peer,
        mark: Mark::Player(peer),
        lead: Lead { distance: None, rank: None },
    }
}

/// Player `i` as spawned with home offset `jitter`.
pub open spec fn spawn_player(i: int, jitter: Vec2) -> Player {
    spec_build_player(
        spawn_base(i),
        start_offset(i % 2),
        (i % 2) as u8,
        jitter,
        (NUM_PLAYERS - 1 - i) as usize,
    )
}

/// Where the kickoff player of `team` stands.
pub open spec fn kickoff_spot(team: int) -> Vec2 {
    Vec2 { x: (HALF_LEVEL_W - 30_000 + team * 60_000) as i64, y: HALF_LEVEL_H }
}

pub open spec fn valid_jitter(jitter: Seq<Vec2>) -> bool {
    jitter.len() == NUM_PLAYERS && forall|i: int|
        0 <= i < NUM_PLAYERS ==> bounded(#[trigger] jitter[i], HOME_JITTER as int)
}

/// All players freshly spawned, team `kickoff_team`'s first player on its kickoff spot.
pub open spec fn spawned_players(jitter: Seq<Vec2>, kickoff_team: int) -> Seq<Player> {
    Seq::new(
        NUM_PLAYERS as nat,
        |i: int|
            if i == kickoff_team {
                Player { pos: kickoff_spot(kickoff_team), ..spawn_player(i, jitter[i]) }
            } else {
                spawn_player(i, jitter[i])
            },
    )
}

pub open spec fn fresh_ball() -> Ball {
    Ball {
        pos: Vec2 { x: HALF_LEVEL_W, y: HALF_LEVEL_H },
        state: BallState::Free(Vec2 { x: 0, y: 0 }),
        timer: 0,
    }
}

pub open spec fn level_centre() -> Vec2 {
    Vec2 { x: HALF_LEVEL_W, y: HALF_LEVEL_H }
}

/// Teams with their first players active again.
pub open spec fn activate_first(teams: Seq<TeamInfo>) -> Seq<TeamInfo> {
    teams.update(0, TeamInfo { active_player: Some(0), ..teams[0] }).update(
        1,
        TeamInfo { active_player: Some(1), ..teams[1] },
    )
}

/// The players, teams and kickoff after spawning everyone again.
pub open spec fn spec_add_players(s: GameState, jitter: Seq<Vec2>) -> GameState {
    GameState {
        players: spawned_players(jitter, 1 - s.scoring_team),
        teams: activate_first(s.teams),
        kickoff_player: Some((1 - s.scoring_team) as usize),
        ..s
    }
}

/// A full rebuild: new players and ball, camera at the centre.
pub open spec fn spec_reset(s: GameState, jitter: Seq<Vec2>) -> GameState {
    GameState {
        ball: fresh_ball(),
        camera_focus: level_centre(),
        ..spec_add_players(s, jitter)
    }
}

pub open spec fn decremented(t: i32) -> i32 {
    if t > 0 {
        (t - 1) as i32
    } else {
        t
    }
}

/// Every player's and the ball's timer counts down by one, stopping at zero.
pub open spec fn spec_decrement_timers(s: GameState) -> GameState {
    GameState {
        players: Seq::new(
            s.players.len(),
            |i: int| Player { timer: decremented(s.players[i].timer), ..s.players[i] },
        ),
        ball: Ball { timer: decremented(s.ball.timer), ..s.ball },
        ..s
    }
}

pub open spec fn goal_scored(ball_y: int) -> bool {
    abs(ball_y - HALF_LEVEL_H) > HALF_PITCH_H
}

/// Count the score countdown down; reset when it reaches zero; otherwise, while no goal is
/// pending, score a goal for the team whose end the ball has crossed.
pub open spec fn spec_check_goals(s: GameState, jitter: Seq<Vec2>) -> GameState {
    let ball_y = s.ball.pos.y;
    let t: i64 = if s.score_timer > i64::MIN {
        (s.score_timer - 1) as i64
    } else {
        s.score_timer
    };
    if t == 0 {
        spec_reset(GameState { score_timer: t, ..s }, jitter)
    } else if t < 0 && goal_scored(ball_y as int) {
        let st: usize = if ball_y < HALF_LEVEL_H {
            0
        } else {
            1
        };
        let team = s.teams[st as int];
        let score: u8 = if team.score < u8::MAX {
            (team.score + 1) as u8
        } else {
            team.score
        };
        GameState {
            scoring_team: st,
            teams: s.teams.update(st as int, TeamInfo { score, ..team }),
            score_timer: GOAL_CELEBRATION,
            ..s
        }
    } else {
        GameState { score_timer: t, ..s }
    }
}

fn template_pos(k: usize) -> (r: (i64, i64))
    requires
        k < TEAM_SIZE,
    ensures
        (r.0 as int, r.1 as int) == template(k as int),
{
    if k == 0 {
        (350_000, 550_000)
    } else if k == 1 {
        (650_000, 450_000)
    } else if k == 2 {
        (200_000, 850_000)
    } else if k == 3 {
        (500_000, 750_000)
    } else if k == 4 {
        (800_000, 950_000)
    } else if k == 5 {
        (350_000, 1_250_000)
    } else {
        (650_000, 1_150_000)
    }
}

/// A player of `team` spawned at template point `(x, y)` moved by `jitter`; it starts halfway
/// between the top of the level and its home height (rounded toward zero), shifted down by `offs`, and marks `peer`.
pub fn build_player(x: i64, y: i64, offs: i64, team: u8, jitter: Vec2, peer: usize) -> (r: Player)
    requires
        -0x1000_0000 <= x <= 0x1000_0000,
        -0x1000_0000 <= y <= 0x1000_0000,
        -0x1000_0000 <= offs <= 0x1000_0000,
        bounded(jitter, 0x1000_0000),
    ensures
        r == spec_build_player(Vec2 { x, y }, offs as int, team, jitter, peer),
{
    let home = Vec2 { x: x + jitter.x, y: y + jitter.y };
    let start = Vec2 { x: home.x, y: div_toward_zero(home.y, 2) + offs };
    Player {
        pos: start,
        home,
        team,
        target: Target::new(start),
        anim: Animation::new(),
        timer: 0,
        peer,
        mark: Mark::Player(peer),
        lead: Lead::none(),
    }
}

/// The ball at the centre of the level, at rest.
pub fn build_ball() -> (r: Ball)
    ensures
        r == fresh_ball(),
{
    Ball { pos: Vec2 { x: HALF_LEVEL_W, y: HALF_LEVEL_H }, state: BallState::Free(Vec2::zero()), timer: 0 }
}

proof fn lemma_spawned_wf(jitter: Seq<Vec2>, kickoff_team: int)
    requires
        valid_jitter(jitter),
        0 <= kickoff_team <= 1,
    ensures
        forall|i: int|
            0 <= i < NUM_PLAYERS ==> #[trigger] spawned_players(jitter, kickoff_team)[i].wf(),
{
    assert forall|i: int| 0 <= i < NUM_PLAYERS implies #[trigger] spawned_players(
        jitter,
        kickoff_team,
    )[i].wf() by {
        assert(bounded(jitter[i], HOME_JITTER as int));
        let k = i / 2;
        assert(0 <= k < 7);
    }
}

impl Game {
    pub open spec fn wf(&self) -> bool {
        self@.wf()
    }

    /// Spawns all fourteen players with home offsets `jitter`, links peers, makes each team's
    /// first player active and puts the kickoff player of the team that did not score last on
    /// its spot.
    pub fn add_players(&mut self, jitter: &Vec<Vec2>)
        requires
            valid_jitter(jitter@),
            old(self).teams@.len() == 2,
            old(self).scoring_team <= 1,
        ensures
            final(self)@ == spec_add_players(old(self)@, jitter@),
    {
        let mut players: Vec<Player> = Vec::new();
        let mut k: usize = 0;
        while k < TEAM_SIZE
            invariant
                k <= TEAM_SIZE,
                players@.len() == 2 * k,
                valid_jitter(jitter@),
                forall|i: int| 0 <= i < 2 * k ==> #[trigger] players@[i] == spawn_player(i, jitter@[i]),
            decreases TEAM_SIZE - k,
        {
            let (x, y) = template_pos(k);
            assert(bounded(jitter@[2 * k as int], HOME_JITTER as int));
            assert(bounded(jitter@[2 * k as int + 1], HOME_JITTER as int));
            let p0 = build_player(x, y, 550_000, 0, jitter[2 * k], NUM_PLAYERS - 1 - 2 * k);
            players.push(p0);
            let p1 = build_player(
                LEVEL_W - x,
                LEVEL_H - y,
                150_000,
                1,
                jitter[2 * k + 1],
                NUM_PLAYERS - 2 - 2 * k,
            );
            players.push(p1);
            proof {
                assert(spawn_base(2 * k as int) == Vec2 { x, y });
                assert((2 * k as int) / 2 == k);
                assert((2 * k as int + 1) / 2 == k);
                assert forall|i: int| 0 <= i < 2 * (k + 1) implies #[trigger] players@[i]
                    == spawn_player(i, jitter@[i]) by {
                    if i == 2 * k {
                    } else if i == 2 * k + 1 {
                    }
                }
            }
            k = k + 1;
        }
        let kickoff_team: usize = 1 - self.scoring_team;
        let mut kp = players[kickoff_team];
        kp.pos = Vec2 { x: HALF_LEVEL_W - 30_000 + kickoff_team as i64 * 60_000, y: HALF_LEVEL_H };
        players.set(kickoff_team, kp);
        self.players = players;
        let mut t0 = self.teams[0];
        t0.active_player = Some(0);
        self.teams.set(0, t0);
        let mut t1 = self.teams[1];
        t1.active_player = Some(1);
        self.teams.set(1, t1);
        self.kickoff_player = Some(kickoff_team);
        proof {
            assert(self.players@ =~= spawned_players(jitter@, kickoff_team as int));
            assert(self.teams@ =~= activate_first(old(self).teams@));
        }
    }

    /// A new match at `difficulty`, both teams computer-controlled.
    pub fn new(difficulty: Difficulty, jitter: &Vec<Vec2>) -> (r: Game)
        requires
            valid_jitter(jitter@),
            difficulty.wf(),
        ensures
            r.wf(),
            r.difficulty == difficulty,
            r.ball == fresh_ball(),
            r.camera_focus == level_centre(),
            r.players@ == spawned_players(jitter@, 0),
            r.kickoff_player == Some(0usize),
            r.scoring_team == 1,
            r.score_timer == 0,
            r.debug_shoot_target.is_none(),
            r.teams@.len() == 2,
            forall|t: int|
                0 <= t < 2 ==> #[trigger] r.teams@[t] == (TeamInfo {
                    human: false,
                    score: 0,
                    active_player: Some(t as usize),
                    shoot_now: false,
                }),
    {
        let mut teams: Vec<TeamInfo> = Vec::new();
        teams.push(TeamInfo::new(false));
        teams.push(TeamInfo::new(false));
        let mut me = Game {
            difficulty,
            camera_focus: Vec2 { x: HALF_LEVEL_W, y: HALF_LEVEL_H },
            players: Vec::new(),
            ball: build_ball(),
            kickoff_player: None,
            teams,
            scoring_team: 1,
            score_timer: 0,
            debug_shoot_target: None,
        };
        me.add_players(jitter);
        proof {
            lemma_spawned_wf(jitter@, 0);
        }
        me
    }

    /// Rebuilds every entity: fresh players and ball, no owner, camera at the centre.
    pub fn reset(&mut self, jitter: &Vec<Vec2>)
        requires
            valid_jitter(jitter@),
            old(self).teams@.len() == 2,
            old(self).scoring_team <= 1,
        ensures
            final(self)@ == spec_reset(old(self)@, jitter@),
    {
        self.ball = build_ball();
        self.add_players(jitter);
        self.camera_focus = Vec2 { x: HALF_LEVEL_W, y: HALF_LEVEL_H };
    }

    /// Counts every timer down by one, stopping at zero.
    pub fn decrement_timers(&mut self)
        requires
            old(self).wf(),
        ensures
            final(self)@ == spec_decrement_timers(old(self)@),
            final(self).wf(),
    {
        let n = self.players.len();
        let mut i: usize = 0;
        while i < n
            invariant
                n == self.players@.len(),
                n == old(self).players@.len(),
                i <= n,
                self.difficulty == old(self).difficulty,
                self.camera_focus == old(self).camera_focus,
                self.ball == old(self).ball,
                self.kickoff_player == old(self).kickoff_player,
                self.teams@ == old(self).teams@,
                self.scoring_team == old(self).scoring_team,
                self.score_timer == old(self).score_timer,
                self.debug_shoot_target == old(self).debug_shoot_target,
                forall|j: int|
                    0 <= j < i ==> #[trigger] self.players@[j] == (Player {
                        timer: decremented(old(self).players@[j].timer),
                        ..old(self).players@[j]
                    }),
                forall|j: int| i <= j < n ==> #[trigger] self.players@[j] == old(self).players@[j],
            decreases n - i,
        {
            let mut p = self.players[i];
            if p.timer > 0 {
                p.timer = p.timer - 1;
            }
            self.players.set(i, p);
            i = i + 1;
        }
        if self.ball.timer > 0 {
            self.ball.timer = self.ball.timer - 1;
        }
        proof {
            let s = spec_decrement_timers(old(self)@);
            assert(self.players@ =~= s.players);
            assert forall|j: int| 0 <= j < NUM_PLAYERS implies #[trigger] self@.players[j].wf() by {
                assert(old(self)@.players[j].wf());
            }
        }
    }

    /// Counts the score countdown down and resets at zero; otherwise, with no goal pending,
    /// scores for the team whose end the ball has crossed and starts the celebration countdown.
    pub fn check_goals(&mut self, jitter: &Vec<Vec2>)
        requires
            old(self).wf(),
            valid_jitter(jitter@),
        ensures
            final(self)@ == spec_check_goals(old(self)@, jitter@),
            final(self).wf(),
    {
        let ball_y = self.ball.pos.y;
        if self.score_timer > i64::MIN {
            self.score_timer = self.score_timer - 1;
        }
        if self.score_timer == 0 {
            self.reset(jitter);
            proof {
                lemma_spawned_wf(jitter@, 1 - old(self).scoring_team);
            }
        } else if self.score_timer < 0 && (ball_y - HALF_LEVEL_H > HALF_PITCH_H || HALF_LEVEL_H
            - ball_y > HALF_PITCH_H) {
            let st: usize = if ball_y < HALF_LEVEL_H {
                0
            } else {
                1
            };
            self.scoring_team = st;
            let mut team = self.teams[st];
            if team.score < u8::MAX {
                team.score = team.score + 1;
            }
            self.teams.set(st, team);
            self.score_timer = GOAL_CELEBRATION;
            proof {
                assert(self.teams@ =~= old(self).teams@.update(
                    st as int,
                    TeamInfo { score: team.score, ..old(self).teams@[st as int] },
                ));
                assert forall|t: int| 0 <= t < 2 implies #[trigger] self@.teams[t].wf() by {
                    assert(old(self)@.teams[t].wf());
                }
            }
        }
    }
}

} // verus!
