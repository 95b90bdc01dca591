//! Moving every player toward its target, within the legal area, and animating it.
use vstd::prelude::*;
use crate::angle::{octant_of, spec_turn_toward, Angle};
use crate::entities::{Animation, Player, MAX_WALK_STEP, NUM_PLAYERS, WALK_CYCLE};
use crate::field::{allow_movement, spec_allow_movement};
use crate::game::{Game, GameState};
use crate::geometry::{length, vsub, with_max_length, Vec2};

verus! {

/// Player `p` after one tick of moving toward its target, the ball being at `ball_pos`. A
/// player on its target turns toward the ball and stands still; otherwise it steps toward the
/// target at most its speed, each axis only where that keeps it on legal ground, advances its
/// walk cycle by the step length (at most `MAX_WALK_STEP`) and turns toward the step.
pub open spec fn moved_player(p: Player, ball_pos: Vec2) -> Player {
    let vector = vsub(p.target.pos, p.pos);
    if vector.x == 0 && vector.y == 0 {
        let want = octant_of(ball_pos.x - p.pos.x, ball_pos.y - p.pos.y);
        Player {
            anim: Animation {
                dir: Angle(spec_turn_toward(p.anim.dir.0 as int, want) as i32),
                frame: 0,
            },
            ..p
        }
    } else {
        let v = with_max_length(vector, p.target.speed as int);
        let want = octant_of(v.x as int, v.y as int);
        let x = if spec_allow_movement(p.pos.x + v.x, p.pos.y as int) {
            p.pos.x + v.x
        } else {
            p.pos.x as int
        };
        let y = if spec_allow_movement(x, p.pos.y + v.y) {
            p.pos.y + v.y
        } else {
            p.pos.y as int
        };
        let step = if length(v) < MAX_WALK_STEP {
            length(v)
        } else {
            MAX_WALK_STEP as int
        };
        Player {
            pos: Vec2 { x: x as i64, y: y as i64 },
            anim: Animation {
                dir: Angle(spec_turn_toward(p.anim.dir.0 as int, want) as i32),
                frame: ((p.anim.frame + step) % (WALK_CYCLE as int)) as i64,
            },
            ..p
        }
    }
}

pub open spec fn spec_update_players(s: GameState) -> GameState {
    GameState {
        players: Seq::new(s.players.len(), |i: int| moved_player(s.players[i], s.ball.pos)),
        ..s
    }
}

/// One tick of movement for player `p`.
pub fn move_player(p: Player, ball_pos: Vec2) -> (r: Player)
    requires
        p.wf(),
        crate::field::in_level(ball_pos.x as int, ball_pos.y as int),
    ensures
        r == moved_player(p, ball_pos),
        r.wf(),
{
    let vector = p.target.pos.minus(p.pos);
    let mut q = p;
    if vector.x == 0 && vector.y == 0 {
        let want = Angle::from_vec(ball_pos.minus(p.pos));
        q.anim = Animation { dir: p.anim.dir.turn_toward(want), frame: 0 };
    } else {
        let v = vector.with_max_length(p.target.speed);
        let want = Angle::from_vec(v);
        if allow_movement(q.pos.x + v.x, q.pos.y) {
            q.pos.x = q.pos.x + v.x;
        }
        if allow_movement(q.pos.x, q.pos.y + v.y) {
            q.pos.y = q.pos.y + v.y;
        }
        let len = v.length();
        let step = if len < MAX_WALK_STEP {
            len
        } else {
            MAX_WALK_STEP
        };
        q.anim = Animation {
            dir: p.anim.dir.turn_toward(want),
            frame: (p.anim.frame + step) % WALK_CYCLE,
        };
    }
    q
}

impl Game {
    /// Moves every player one tick toward its target.
    pub fn update_players(&mut self)
        requires
            old(self).wf(),
        ensures
            final(self)@ == spec_update_players(old(self)@),
            final(self).wf(),
    {
        let ghost s = self@;
        let ball_pos = self.ball.pos;
        let mut i: usize = 0;
        while i < NUM_PLAYERS
            invariant
                s == old(self)@,
                s.wf(),
                ball_pos == s.ball.pos,
                self.players@.len() == NUM_PLAYERS,
                self@ == (GameState { players: self.players@, ..s }),
                i <= NUM_PLAYERS,
                forall|m: int|
                    0 <= m < i ==> #[trigger] self.players@[m] == moved_player(s.players[m], ball_pos),
                forall|m: int| i <= m < NUM_PLAYERS ==> #[trigger] self.players@[m] == s.players[m],
            decreases NUM_PLAYERS - i,
        {
            let p = self.players[i];
            proof {
                assert(s.players[i as int].wf());
            }
            let q = move_player(p, ball_pos);
            self.players.set(i, q);
            i = i + 1;
        }
        proof {
            assert(self.players@ =~= spec_update_players(s).players);
            assert forall|m: int| 0 <= m < NUM_PLAYERS implies #[trigger] self@.players[m].wf() by {
                assert(s.players[m].wf());
            }
        }
    }
}

} // verus!
