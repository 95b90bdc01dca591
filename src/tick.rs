//! Switching the active player, and the whole simulation tick.
use std::cmp::Ordering;
use vstd::prelude::*;
use crate::ball::spec_update_ball;
use crate::behaviours::spec_set_behaviours;
use crate::entities::{Controls, Player, TeamInfo, NUM_PLAYERS};
use crate::field::in_level;
use crate::game::{spec_check_goals, spec_decrement_timers, valid_jitter, Game, GameState};
use crate::geometry::{dist_sq, Vec2};
use crate::movement::spec_update_players;
use crate::targets::spec_set_player_targets;

verus! {

/// Distance divisor for a player at `p`: players on the attacking side of `dest`, as `bias`
/// tells, count as half as far.
pub open spec fn side_weight(p: Vec2, dest: Vec2, bias: int) -> int {
    if (p.y - dest.y) * bias < 0 {
        2
    } else {
        1
    }
}

/// `a`'s weighted distance to `dest` is below `b`'s.
pub open spec fn weighted_nearer(a: Vec2, b: Vec2, dest: Vec2, bias: int) -> bool {
    let wa = side_weight(a, dest, bias);
    let wb = side_weight(b, dest, bias);
    dist_sq(a, dest) * (wb * wb) < dist_sq(b, dest) * (wa * wa)
}

/// Among the first `n` players, the first of `team` nearest to `dest` by weighted distance.
pub open spec fn nearest_weighted(ps: Seq<Player>, team: int, dest: Vec2, bias: int, n: int) -> Option<usize>
    decreases n,
{
    if n <= 0 {
        None
    } else {
        let prev = nearest_weighted(ps, team, dest, bias, n - 1);
        if ps[n - 1].team != team {
            prev
        } else {
            match prev {
                None => Some((n - 1) as usize),
                Some(b) => if weighted_nearer(ps[n - 1].pos, ps[b as int].pos, dest, bias) {
                    Some((n - 1) as usize)
                } else {
                    prev
                },
            }
        }
    }
}

/// The direction bias of team `t`'s switching while someone has the ball, none otherwise. Team 0
/// attacks toward y = 0 and team 1 toward the far end, so with bias `1 - 2t` the players ahead
/// of the ball in the attacking direction count as half as far.
pub open spec fn switch_bias(s: GameState, t: int) -> int {
    if s.owner() is Some {
        1 - 2 * t
    } else {
        0
    }
}

/// Team `t`'s record after switching: a human team that pressed shoot without kicking takes
/// control of its player nearest the ball.
pub open spec fn switched_team(s: GameState, inputs: Seq<Controls>, t: int) -> TeamInfo {
    let team = s.teams[t];
    if !team.shoot_now && team.human && inputs[t].shoot {
        TeamInfo {
            active_player: nearest_weighted(
                s.players,
                t,
                s.ball.pos,
                switch_bias(s, t),
                NUM_PLAYERS as int,
            ),
            ..team
        }
    } else {
        team
    }
}

pub open spec fn spec_switch_players(s: GameState, inputs: Seq<Controls>) -> GameState {
    if s.kickoff_player is Some {
        s
    } else {
        GameState { teams: Seq::new(2, |t: int| switched_team(s, inputs, t)), ..s }
    }
}

/// One whole tick: timers, goals, behaviours, targets, movement, the ball, switching.
pub open spec fn spec_update(s: GameState, inputs: Seq<Controls>, jitter: Seq<Vec2>) -> GameState {
    spec_switch_players(
        spec_update_ball(
            spec_update_players(
                spec_set_player_targets(
                    spec_set_behaviours(spec_check_goals(spec_decrement_timers(s), jitter)),
                    inputs,
                ),
            ),
            inputs,
        ),
        inputs,
    )
}

/// Whatever the inputs, a tick leaves the ball with a velocity exactly when nobody owns it.
pub proof fn lemma_tick_possession_exclusive(s: GameState, inputs: Seq<Controls>, jitter: Seq<Vec2>)
    ensures
        spec_update(s, inputs, jitter).ball.spec_velocity().is_some() <==> spec_update(
            s,
            inputs,
            jitter,
        ).ball.spec_owner().is_none(),
{
    crate::entities::lemma_velocity_iff_free(spec_update(s, inputs, jitter).ball);
}

/// Compares the weighted distances of `v1` and `v2` to `dest`.
pub fn cmp_dist_weighted(v1: Vec2, v2: Vec2, dest: Vec2, bias: i64) -> (r: Ordering)
    requires
        in_level(v1.x as int, v1.y as int),
        in_level(v2.x as int, v2.y as int),
        in_level(dest.x as int, dest.y as int),
        -1 <= bias <= 1,
    ensures
        (r == Ordering::Less) == weighted_nearer(v1, v2, dest, bias as int),
        (r == Ordering::Greater) == weighted_nearer(v2, v1, dest, bias as int),
{
    proof {
        assert(-1_400_000 <= (v1.y - dest.y) * bias <= 1_400_000) by (nonlinear_arith)
            requires
                -1 <= bias <= 1,
                -1_400_000 <= v1.y - dest.y <= 1_400_000,
        ;
        assert(-1_400_000 <= (v2.y - dest.y) * bias <= 1_400_000) by (nonlinear_arith)
            requires
                -1 <= bias <= 1,
                -1_400_000 <= v2.y - dest.y <= 1_400_000,
        ;
    }
    let w1: i64 = if (v1.y - dest.y) * bias < 0 {
        2
    } else {
        1
    };
    let w2: i64 = if (v2.y - dest.y) * bias < 0 {
        2
    } else {
        1
    };
    let d1 = v1.minus(dest).square_length();
    let d2 = v2.minus(dest).square_length();
    proof {
        crate::geometry::lemma_square_bound(v1.x - dest.x, 1_400_000);
        crate::geometry::lemma_square_bound(v1.y - dest.y, 1_400_000);
        crate::geometry::lemma_square_bound(v2.x - dest.x, 1_400_000);
        crate::geometry::lemma_square_bound(v2.y - dest.y, 1_400_000);
    }
    assert(d1 <= 4_000_000_000_000 && d2 <= 4_000_000_000_000);
    let l1 = d1 * (w2 * w2);
    let l2 = d2 * (w1 * w1);
    if l1 < l2 {
        Ordering::Less
    } else if l2 < l1 {
        Ordering::Greater
    } else {
        Ordering::Equal
    }
}

impl Game {
    /// The first player of team `t` nearest the ball by weighted distance.
    fn nearest_weighted(&self, t: u8, bias: i64) -> (r: Option<usize>)
        requires
            self.wf(),
            -1 <= bias <= 1,
        ensures
            r == nearest_weighted(self@.players, t as int, self.ball.pos, bias as int, NUM_PLAYERS as int),
            r matches Some(b) ==> b < NUM_PLAYERS,
    {
        let dest = self.ball.pos;
        let mut best: Option<usize> = None;
        let mut j: usize = 0;
        while j < NUM_PLAYERS
            invariant
                self.wf(),
                -1 <= bias <= 1,
                dest == self.ball.pos,
                j <= NUM_PLAYERS,
                best == nearest_weighted(self@.players, t as int, dest, bias as int, j as int),
                best matches Some(b) ==> b < j,
            decreases NUM_PLAYERS - j,
        {
            let p = self.players[j];
            proof {
                assert(self@.players[j as int].wf());
            }
            if p.team == t {
                match best {
                    None => {
                        best = Some(j);
                    },
                    Some(b) => {
                        proof {
                            assert(self@.players[b as int].wf());
                        }
                        let nearer = match cmp_dist_weighted(p.pos, self.players[b].pos, dest, bias) {
                            Ordering::Less => true,
                            _ => false,
                        };
                        if nearer {
                            best = Some(j);
                        }
                    },
                }
            }
            j = j + 1;
        }
        best
    }

    /// Lets each human team that pressed shoot without kicking take control of its player
    /// nearest the ball; nothing changes before the kickoff.
    pub fn switch_players(&mut self, inputs: &Vec<Controls>)
        requires
            old(self).wf(),
            inputs@.len() == 2,
        ensures
            final(self)@ == spec_switch_players(old(self)@, inputs@),
            final(self).wf(),
    {
        if self.kickoff_player.is_some() {
            return;
        }
        let ghost s = self@;
        let owned = self.ball.owner().is_some();
        let mut new_teams: Vec<TeamInfo> = Vec::new();
        let mut t: usize = 0;
        while t < 2
            invariant
                s == self@,
                s.wf(),
                inputs@.len() == 2,
                owned == s.owner() is Some,
                t <= 2,
                new_teams@.len() == t,
                forall|u: int| 0 <= u < t ==> #[trigger] new_teams@[u] == switched_team(s, inputs@, u),
                forall|u: int| 0 <= u < t ==> (#[trigger] new_teams@[u]).wf(),
            decreases 2 - t,
        {
            let team = self.teams[t];
            proof {
                assert(s.teams[t as int].wf());
            }
            if !team.shoot_now && team.human && inputs[t].shoot {
                let bias: i64 = if owned {
                    1 - 2 * t as i64
                } else {
                    0
                };
                let a = self.nearest_weighted(t as u8, bias);
                new_teams.push(TeamInfo { active_player: a, ..team });
            } else {
                new_teams.push(team);
            }
            t = t + 1;
        }
        self.teams = new_teams;
        proof {
            assert(self.teams@ =~= Seq::new(2, |t: int| switched_team(s, inputs@, t)));
        }
    }

    /// One simulation tick, given each team's controls and the home offsets that a reset
    /// triggered this tick would use.
    pub fn update(&mut self, inputs: &Vec<Controls>, jitter: &Vec<Vec2>)
        requires
            old(self).wf(),
            inputs@.len() == 2,
            valid_jitter(jitter@),
        ensures
            final(self)@ == spec_update(old(self)@, inputs@, jitter@),
            final(self).wf(),
    {
        self.decrement_timers();
        self.check_goals(jitter);
        self.set_behaviours();
        self.set_player_targets(inputs);
        self.update_players();
        self.update_ball(inputs);
        self.switch_players(inputs);
    }
}

} // verus!
