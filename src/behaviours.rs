//! Marks and leads of the defending team, derived afresh every tick.
use std::cmp::Ordering;
use vstd::prelude::*;
use crate::entities::{Lead, Mark, Player, NUM_PLAYERS, LEAD_DISTANCE_1, LEAD_DISTANCE_2};
use crate::field::{in_level, HALF_LEVEL_W, LEVEL_H};
use crate::game::{Game, GameState};
use crate::geometry::{bounded, dist_sq, vsub, Vec2};

verus! {

/// The team that defends while player `o` has the ball.
pub open spec fn defending_team(s: GameState, o: int) -> int {
    1 - s.players[o].team
}

/// The centre of the goal that `team` defends: team 0 defends the bottom end.
pub open spec fn own_goal(team: int) -> Vec2 {
    Vec2 { x: HALF_LEVEL_W, y: ((1 - team) * LEVEL_H) as i64 }
}

/// Among the first `n` players, the first of `team` nearest to `dest`.
pub open spec fn nearest_in(ps: Seq<Player>, team: int, dest: Vec2, n: int) -> Option<usize>
    decreases n,
{
    if n <= 0 {
        None
    } else {
        let prev = nearest_in(ps, team, dest, n - 1);
        if ps[n - 1].team != team {
            prev
        } else {
            match prev {
                None => Some((n - 1) as usize),
                Some(b) => if dist_sq(ps[n - 1].pos, dest) < dist_sq(ps[b as int].pos, dest) {
                    Some((n - 1) as usize)
                } else {
                    prev
                },
            }
        }
    }
}

/// The defender nearest to its own goal, when goalkeeping is on and player `o` has the ball.
pub open spec fn goalie(s: GameState, o: int) -> Option<usize> {
    if s.difficulty.goalie_enabled {
        nearest_in(
            s.players,
            defending_team(s, o),
            own_goal(defending_team(s, o)),
            NUM_PLAYERS as int,
        )
    } else {
        None
    }
}

/// Player `i`'s mark this tick: its peer, except that while someone has the ball the goalie
/// marks its goal and the owner's peer takes over the goalie's mark.
pub open spec fn behaviour_mark(s: GameState, i: int) -> Mark {
    match s.owner() {
        None => Mark::Player(s.players[i].peer),
        Some(o) => match goalie(s, o as int) {
            None => Mark::Player(s.players[i].peer),
            Some(g) => if i == g {
                Mark::Goal(own_goal(defending_team(s, o as int)))
            } else if i == s.players[o as int].peer {
                Mark::Player(s.players[g as int].peer)
            } else {
                Mark::Player(s.players[i].peer)
            },
        },
    }
}

/// Player `j` may lead against owner `o`: a defender, free to act, not the human team's active
/// player, and marking a player.
pub open spec fn lead_candidate(s: GameState, o: int, j: int) -> bool {
    let dt = defending_team(s, o);
    let team = s.teams[dt];
    &&& s.players[j].team == dt
    &&& s.players[j].timer <= 0
    &&& !(team.human && team.active_player == Some(j as usize))
    &&& behaviour_mark(s, j) is Player
}

/// Player `j` stands upfield of owner `o`, from the defenders' point of view.
pub open spec fn upfield(s: GameState, o: int, j: int) -> bool {
    if defending_team(s, o) == 1 {
        s.players[j].pos.y > s.players[o].pos.y
    } else {
        s.players[j].pos.y < s.players[o].pos.y
    }
}

/// Player `j` comes before player `i` in order of distance to owner `o`, ties by index.
pub open spec fn nearer(s: GameState, o: int, j: int, i: int) -> bool {
    let dj = dist_sq(s.players[j].pos, s.players[o].pos);
    let di = dist_sq(s.players[i].pos, s.players[o].pos);
    dj < di || (dj == di && j < i)
}

/// Lead candidates among the first `n` players on side `side`.
pub open spec fn count_side(s: GameState, o: int, side: bool, n: int) -> int
    decreases n,
{
    if n <= 0 {
        0
    } else {
        count_side(s, o, side, n - 1) + if lead_candidate(s, o, n - 1) && upfield(s, o, n - 1)
            == side {
            1int
        } else {
            0int
        }
    }
}

/// Lead candidates among the first `n` players on player `i`'s side and nearer than it.
pub open spec fn count_ahead(s: GameState, o: int, i: int, n: int) -> int
    decreases n,
{
    if n <= 0 {
        0
    } else {
        count_ahead(s, o, i, n - 1) + if lead_candidate(s, o, n - 1) && upfield(s, o, n - 1)
            == upfield(s, o, i) && nearer(s, o, n - 1, i) {
            1int
        } else {
            0int
        }
    }
}

pub open spec fn min(a: int, b: int) -> int {
    if a <= b {
        a
    } else {
        b
    }
}

/// The place of player `i` in the list that interleaves the upfield and downfield
/// candidates, each sorted nearest first, starting upfield: both lists are padded with two
/// empty slots, zipped pairwise, and the empty slots dropped.
pub open spec fn lead_rank(s: GameState, i: int) -> Option<int> {
    match s.owner() {
        None => None,
        Some(o) => {
            let o = o as int;
            if !lead_candidate(s, o, i) {
                None
            } else {
                let nu = count_side(s, o, true, NUM_PLAYERS as int);
                let nd = count_side(s, o, false, NUM_PLAYERS as int);
                let k = count_ahead(s, o, i, NUM_PLAYERS as int);
                if k >= min(nu, nd) + 2 {
                    None
                } else {
                    Some(interleaved_index(k, upfield(s, o, i), nu, nd))
                }
            }
        }
    }
}

/// The place in the interleaved list of the element at index `k` of its own list.
pub open spec fn interleaved_index(k: int, up: bool, nu: int, nd: int) -> int {
    if up {
        k + min(k, nd)
    } else {
        k + min(k + 1, nu)
    }
}

/// Elements of two lists before pair `k` of their padded zip: `min(k, nu) + min(k, nd)`.
pub open spec fn pairs_len(k: int, nu: int, nd: int) -> int {
    min(k, nu) + min(k, nd)
}

/// The upfield list `u` and downfield list `d`, each padded with two empty slots, zipped
/// pairwise starting upfield, with the empty slots dropped: the pairs from `k` on.
pub open spec fn interleave_from(u: Seq<int>, d: Seq<int>, k: int) -> Seq<int>
    decreases min(u.len() as int, d.len() as int) + 2 - k,
{
    if k < 0 || k >= min(u.len() as int, d.len() as int) + 2 {
        Seq::empty()
    } else {
        let a: Seq<int> = if k < u.len() {
            seq![u[k]]
        } else {
            Seq::empty()
        };
        let b: Seq<int> = if k < d.len() {
            seq![d[k]]
        } else {
            Seq::empty()
        };
        a + b + interleave_from(u, d, k + 1)
    }
}

pub open spec fn interleave(u: Seq<int>, d: Seq<int>) -> Seq<int> {
    interleave_from(u, d, 0)
}

proof fn lemma_interleave_from(u: Seq<int>, d: Seq<int>, k0: int, k: int)
    requires
        0 <= k0 <= k < min(u.len() as int, d.len() as int) + 2,
    ensures
        interleave_from(u, d, k0).len() == pairs_len(
            min(u.len() as int, d.len() as int) + 2,
            u.len() as int,
            d.len() as int,
        ) - pairs_len(k0, u.len() as int, d.len() as int),
        k < u.len() ==> interleave_from(u, d, k0)[pairs_len(k, u.len() as int, d.len() as int)
            - pairs_len(k0, u.len() as int, d.len() as int)] == u[k],
        k < d.len() ==> interleave_from(u, d, k0)[pairs_len(k, u.len() as int, d.len() as int)
            - pairs_len(k0, u.len() as int, d.len() as int) + if k < u.len() {
            1int
        } else {
            0int
        }] == d[k],
    decreases k - k0,
{
    let m = min(u.len() as int, d.len() as int) + 2;
    if k0 < k {
        lemma_interleave_from(u, d, k0 + 1, k);
    } else {
        lemma_interleave_len(u, d, k0);
    }
}

proof fn lemma_interleave_len(u: Seq<int>, d: Seq<int>, k0: int)
    requires
        0 <= k0 <= min(u.len() as int, d.len() as int) + 2,
    ensures
        interleave_from(u, d, k0).len() == pairs_len(
            min(u.len() as int, d.len() as int) + 2,
            u.len() as int,
            d.len() as int,
        ) - pairs_len(k0, u.len() as int, d.len() as int),
    decreases min(u.len() as int, d.len() as int) + 2 - k0,
{
    if k0 < min(u.len() as int, d.len() as int) + 2 {
        lemma_interleave_len(u, d, k0 + 1);
    }
}

/// Interleaving: the element at index `k` of the upfield list stands at place
/// `interleaved_index(k, true, ..)` of the interleaved list, and that of the downfield list at
/// `interleaved_index(k, false, ..)`, for every `k` that the padded zip reaches.
pub proof fn lemma_interleave_places(u: Seq<int>, d: Seq<int>, k: int)
    requires
        0 <= k < min(u.len() as int, d.len() as int) + 2,
    ensures
        k < u.len() ==> interleaved_index(k, true, u.len() as int, d.len() as int) < interleave(
            u,
            d,
        ).len() && interleave(u, d)[interleaved_index(k, true, u.len() as int, d.len() as int)]
            == u[k],
        k < d.len() ==> interleaved_index(k, false, u.len() as int, d.len() as int) < interleave(
            u,
            d,
        ).len() && interleave(u, d)[interleaved_index(k, false, u.len() as int, d.len() as int)]
            == d[k],
{
    lemma_interleave_from(u, d, 0, k);
    lemma_interleave_len(u, d, 0);
}

/// Player `i`'s lead: its rank, with lead distance 10 px at rank 0 and, where the difficulty
/// has a second lead, 50 px at rank 1.
pub open spec fn behaviour_lead(s: GameState, i: int) -> Lead {
    match lead_rank(s, i) {
        None => Lead { distance: None, rank: None },
        Some(r) => Lead {
            distance: if r == 0 {
                Some(LEAD_DISTANCE_1)
            } else if r == 1 && s.difficulty.second_lead_enabled {
                Some(LEAD_DISTANCE_2)
            } else {
                None
            },
            rank: Some(r as u8),
        },
    }
}

pub open spec fn spec_set_behaviours(s: GameState) -> GameState {
    GameState {
        players: Seq::new(
            s.players.len(),
            |i: int| Player { mark: behaviour_mark(s, i), lead: behaviour_lead(s, i), ..s.players[i] },
        ),
        ..s
    }
}

/// Compares the distances of `v1` and `v2` to `dest`.
pub fn cmp_dist(v1: Vec2, v2: Vec2, dest: Vec2) -> (r: Ordering)
    requires
        bounded(vsub(v1, dest), 0x4000_0000),
        bounded(vsub(v2, dest), 0x4000_0000),
        -0x2000_0000 <= dest.x <= 0x2000_0000,
        -0x2000_0000 <= dest.y <= 0x2000_0000,
        -0x2000_0000 <= v1.x <= 0x2000_0000,
        -0x2000_0000 <= v1.y <= 0x2000_0000,
        -0x2000_0000 <= v2.x <= 0x2000_0000,
        -0x2000_0000 <= v2.y <= 0x2000_0000,
    ensures
        (r == Ordering::Less) == (dist_sq(v1, dest) < dist_sq(v2, dest)),
        (r == Ordering::Greater) == (dist_sq(v1, dest) > dist_sq(v2, dest)),
{
    let d1 = v1.minus(dest).square_length();
    let d2 = v2.minus(dest).square_length();
    if d1 < d2 {
        Ordering::Less
    } else if d2 < d1 {
        Ordering::Greater
    } else {
        Ordering::Equal
    }
}

/// The first player of `team` nearest to `dest`.
pub fn nearest_of_team(players: &Vec<Player>, team: u8, dest: Vec2) -> (r: Option<usize>)
    requires
        forall|i: int|
            0 <= i < players@.len() ==> in_level(
                #[trigger] players@[i].pos.x as int,
                players@[i].pos.y as int,
            ),
        -0x1000_0000 <= dest.x <= 0x1000_0000,
        -0x1000_0000 <= dest.y <= 0x1000_0000,
    ensures
        r == nearest_in(players@, team as int, dest, players@.len() as int),
        r matches Some(b) ==> b < players@.len() && players@[b as int].team == team,
        (exists|i: int| 0 <= i < players@.len() && players@[i].team == team) ==> r.is_some(),
        players@.len() <= NUM_PLAYERS ==> (r matches Some(b) ==> forall|j: int|
            0 <= j < players@.len() && players@[j].team == team ==> dist_sq(
                players@[b as int].pos,
                dest,
            ) <= dist_sq(#[trigger] players@[j].pos, dest)),
{
    let mut best: Option<usize> = None;
    let mut i: usize = 0;
    while i < players.len()
        invariant
            i <= players@.len(),
            forall|j: int|
                0 <= j < players@.len() ==> in_level(
                    #[trigger] players@[j].pos.x as int,
                    players@[j].pos.y as int,
                ),
            -0x1000_0000 <= dest.x <= 0x1000_0000,
            -0x1000_0000 <= dest.y <= 0x1000_0000,
            best == nearest_in(players@, team as int, dest, i as int),
            best matches Some(b) ==> b < i && players@[b as int].team == team,
            (exists|j: int| 0 <= j < i && players@[j].team == team) ==> best.is_some(),
        decreases players@.len() - i,
    {
        let p = players[i];
        if p.team == team {
            match best {
                None => {
                    best = Some(i);
                },
                Some(b) => {
                    let nearer = match cmp_dist(p.pos, players[b].pos, dest) {
                        Ordering::Less => true,
                        _ => false,
                    };
                    if nearer {
                        best = Some(i);
                    }
                },
            }
        }
        i = i + 1;
    }
    proof {
        if players@.len() <= NUM_PLAYERS {
            lemma_nearest_in_range(players@, team as int, dest, players@.len() as int);
        }
    }
    best
}

impl Game {
    /// Player `j` may lead against the owner this tick, given this tick's marks.
    fn is_lead_candidate(&self, marks: &Vec<Mark>, o: usize, j: usize) -> (r: bool)
        requires
            self.wf(),
            o < NUM_PLAYERS,
            j < NUM_PLAYERS,
            self@.owner() == Some(o),
            marks@.len() == NUM_PLAYERS,
            forall|i: int| 0 <= i < NUM_PLAYERS ==> #[trigger] marks@[i] == behaviour_mark(self@, i),
        ensures
            r == lead_candidate(self@, o as int, j as int),
    {
        proof {
            assert(self@.players[o as int].wf());
        }
        let dt = 1 - self.players[o].team;
        let team = self.teams[dt as usize];
        let p = self.players[j];
        let is_active = match team.active_player {
            Some(a) => a == j,
            None => false,
        };
        let marks_player = match marks[j] {
            Mark::Player(_) => true,
            Mark::Goal(_) => false,
        };
        p.team == dt && p.timer <= 0 && !(team.human && is_active) && marks_player
    }

    fn is_upfield(&self, o: usize, j: usize) -> (r: bool)
        requires
            self.wf(),
            o < NUM_PLAYERS,
            j < NUM_PLAYERS,
        ensures
            r == upfield(self@, o as int, j as int),
    {
        if self.players[o].team == 0 {
            self.players[j].pos.y > self.players[o].pos.y
        } else {
            self.players[j].pos.y < self.players[o].pos.y
        }
    }

    /// Every player's mark for this tick.
    fn behaviour_marks(&self) -> (r: Vec<Mark>)
        requires
            self.wf(),
        ensures
            r@.len() == NUM_PLAYERS,
            forall|i: int| 0 <= i < NUM_PLAYERS ==> #[trigger] r@[i] == behaviour_mark(self@, i),
    {
        let mut marks: Vec<Mark> = Vec::new();
        let mut i: usize = 0;
        while i < NUM_PLAYERS
            invariant
                self.wf(),
                i <= NUM_PLAYERS,
                marks@.len() == i,
                forall|j: int| 0 <= j < i ==> #[trigger] marks@[j] == Mark::Player(self@.players[j].peer),
            decreases NUM_PLAYERS - i,
        {
            marks.push(Mark::Player(self.players[i].peer));
            i = i + 1;
        }
        match self.ball.owner() {
            None => {},
            Some(o) => {
                proof {
                    assert(self@.players[o as int].wf());
                }
                if self.difficulty.goalie_enabled {
                    let dt = 1 - self.players[o].team;
                    let goal = Vec2 { x: HALF_LEVEL_W, y: (1 - dt) as i64 * LEVEL_H };
                    proof {
                        assert forall|i: int| 0 <= i < self.players@.len() implies in_level(
                            #[trigger] self.players@[i].pos.x as int,
                            self.players@[i].pos.y as int,
                        ) by {
                            assert(self@.players[i].wf());
                        }
                    }
                    let g = nearest_of_team(&self.players, dt, goal);
                    proof {
                        assert(goal == own_goal(defending_team(self@, o as int)));
                    }
                    match g {
                        None => {},
                        Some(g) => {
                            let peer = self.players[o].peer;
                            let goalie_mark = marks[g];
                            let ghost before = marks@;
                            marks.set(peer, goalie_mark);
                            marks.set(g, Mark::Goal(goal));
                            proof {
                                assert(goalie(self@, o as int) == Some(g));
                                assert forall|i: int| 0 <= i < NUM_PLAYERS implies #[trigger] marks@[i]
                                    == behaviour_mark(self@, i) by {
                                    assert(before[i] == Mark::Player(self@.players[i].peer));
                                }
                            }
                        },
                    }
                }
            },
        }
        marks
    }

    /// Number of lead candidates on each side of the owner: `(upfield, downfield)`.
    fn count_sides(&self, marks: &Vec<Mark>, o: usize) -> (r: (u32, u32))
        requires
            self.wf(),
            o < NUM_PLAYERS,
            self@.owner() == Some(o),
            marks@.len() == NUM_PLAYERS,
            forall|i: int| 0 <= i < NUM_PLAYERS ==> #[trigger] marks@[i] == behaviour_mark(self@, i),
        ensures
            r.0 == count_side(self@, o as int, true, NUM_PLAYERS as int),
            r.1 == count_side(self@, o as int, false, NUM_PLAYERS as int),
            r.0 <= NUM_PLAYERS,
            r.1 <= NUM_PLAYERS,
    {
        let mut nu: u32 = 0;
        let mut nd: u32 = 0;
        let mut j: usize = 0;
        while j < NUM_PLAYERS
            invariant
                self.wf(),
                o < NUM_PLAYERS,
                self@.owner() == Some(o),
                marks@.len() == NUM_PLAYERS,
                forall|i: int| 0 <= i < NUM_PLAYERS ==> #[trigger] marks@[i] == behaviour_mark(self@, i),
                j <= NUM_PLAYERS,
                nu == count_side(self@, o as int, true, j as int),
                nd == count_side(self@, o as int, false, j as int),
                nu <= j,
                nd <= j,
            decreases NUM_PLAYERS - j,
        {
            if self.is_lead_candidate(marks, o, j) {
                if self.is_upfield(o, j) {
                    nu = nu + 1;
                } else {
                    nd = nd + 1;
                }
            }
            j = j + 1;
        }
        (nu, nd)
    }

    /// Candidates on player `i`'s side that come before it by distance to the owner.
    fn count_nearer(&self, marks: &Vec<Mark>, o: usize, i: usize) -> (r: u32)
        requires
            self.wf(),
            o < NUM_PLAYERS,
            i < NUM_PLAYERS,
            self@.owner() == Some(o),
            marks@.len() == NUM_PLAYERS,
            forall|m: int| 0 <= m < NUM_PLAYERS ==> #[trigger] marks@[m] == behaviour_mark(self@, m),
        ensures
            r == count_ahead(self@, o as int, i as int, NUM_PLAYERS as int),
            r <= NUM_PLAYERS,
    {
        let owner_pos = self.players[o].pos;
        let pi = self.players[i];
        proof {
            assert(self@.players[i as int].wf());
            assert(self@.players[o as int].wf());
        }
        let di = pi.pos.minus(owner_pos).square_length();
        let side = self.is_upfield(o, i);
        let mut k: u32 = 0;
        let mut j: usize = 0;
        while j < NUM_PLAYERS
            invariant
                self.wf(),
                o < NUM_PLAYERS,
                i < NUM_PLAYERS,
                self@.owner() == Some(o),
                marks@.len() == NUM_PLAYERS,
                forall|m: int| 0 <= m < NUM_PLAYERS ==> #[trigger] marks@[m] == behaviour_mark(self@, m),
                owner_pos == self@.players[o as int].pos,
                di == dist_sq(self@.players[i as int].pos, owner_pos),
                side == upfield(self@, o as int, i as int),
                j <= NUM_PLAYERS,
                k == count_ahead(self@, o as int, i as int, j as int),
                k <= j,
            decreases NUM_PLAYERS - j,
        {
            let pj = self.players[j];
            proof {
                assert(self@.players[j as int].wf());
                assert(self@.players[o as int].wf());
            }
            let dj = pj.pos.minus(owner_pos).square_length();
            if self.is_lead_candidate(marks, o, j) && self.is_upfield(o, j) == side && (dj < di || (
            dj == di && j < i)) {
                k = k + 1;
            }
            j = j + 1;
        }
        k
    }

    /// Player `i`'s lead for this tick.
    fn behaviour_lead(&self, marks: &Vec<Mark>, i: usize) -> (r: Lead)
        requires
            self.wf(),
            i < NUM_PLAYERS,
            marks@.len() == NUM_PLAYERS,
            forall|m: int| 0 <= m < NUM_PLAYERS ==> #[trigger] marks@[m] == behaviour_mark(self@, m),
        ensures
            r == behaviour_lead(self@, i as int),
    {
        match self.ball.owner() {
            None => Lead::none(),
            Some(o) => {
                if !self.is_lead_candidate(marks, o, i) {
                    return Lead::none();
                }
                let (nu, nd) = self.count_sides(marks, o);
                let k = self.count_nearer(marks, o, i);
                let m = if nu <= nd {
                    nu
                } else {
                    nd
                };
                if k >= m + 2 {
                    return Lead::none();
                }
                let rank: u32 = if self.is_upfield(o, i) {
                    k + if k <= nd {
                        k
                    } else {
                        nd
                    }
                } else {
                    k + if k + 1 <= nu {
                        k + 1
                    } else {
                        nu
                    }
                };
                let distance = if rank == 0 {
                    Some(LEAD_DISTANCE_1)
                } else if rank == 1 && self.difficulty.second_lead_enabled {
                    Some(LEAD_DISTANCE_2)
                } else {
                    None
                };
                Lead { distance, rank: Some(rank as u8) }
            },
        }
    }

    /// Resets every mark to the player's peer and every lead to none; then, while someone has
    /// the ball, assigns the goalie and ranks the defending team's leads.
    pub fn set_behaviours(&mut self)
        requires
            old(self).wf(),
        ensures
            final(self)@ == spec_set_behaviours(old(self)@),
            final(self).wf(),
    {
        let marks = self.behaviour_marks();
        let mut leads: Vec<Lead> = Vec::new();
        let mut i: usize = 0;
        while i < NUM_PLAYERS
            invariant
                self.wf(),
                i <= NUM_PLAYERS,
                leads@.len() == i,
                marks@.len() == NUM_PLAYERS,
                forall|m: int| 0 <= m < NUM_PLAYERS ==> #[trigger] marks@[m] == behaviour_mark(self@, m),
                forall|m: int| 0 <= m < i ==> #[trigger] leads@[m] == behaviour_lead(self@, m),
            decreases NUM_PLAYERS - i,
        {
            let lead = self.behaviour_lead(&marks, i);
            leads.push(lead);
            i = i + 1;
        }
        let ghost s = self@;
        let mut i: usize = 0;
        while i < NUM_PLAYERS
            invariant
                s == old(self)@,
                s.wf(),
                self.players@.len() == NUM_PLAYERS,
                self@ == (GameState { players: self.players@, ..s }),
                i <= NUM_PLAYERS,
                leads@.len() == NUM_PLAYERS,
                marks@.len() == NUM_PLAYERS,
                forall|m: int| 0 <= m < NUM_PLAYERS ==> #[trigger] marks@[m] == behaviour_mark(s, m),
                forall|m: int| 0 <= m < NUM_PLAYERS ==> #[trigger] leads@[m] == behaviour_lead(s, m),
                forall|m: int|
                    0 <= m < i ==> #[trigger] self.players@[m] == (Player {
                        mark: behaviour_mark(s, m),
                        lead: behaviour_lead(s, m),
                        ..s.players[m]
                    }),
                forall|m: int| i <= m < NUM_PLAYERS ==> #[trigger] self.players@[m] == s.players[m],
            decreases NUM_PLAYERS - i,
        {
            let mut p = self.players[i];
            p.mark = marks[i];
            p.lead = leads[i];
            self.players.set(i, p);
            i = i + 1;
        }
        proof {
            assert(self.players@ =~= spec_set_behaviours(s).players);
            lemma_behaviours_wf(s);
        }
    }
}

proof fn lemma_behaviours_wf(s: GameState)
    requires
        s.wf(),
    ensures
        spec_set_behaviours(s).wf(),
{
    let r = spec_set_behaviours(s);
    assert forall|i: int| 0 <= i < NUM_PLAYERS implies #[trigger] r.players[i].wf() by {
        assert(s.players[i].wf());
        match s.owner() {
            None => {},
            Some(o) => {
                assert(s.players[o as int].wf());
                match goalie(s, o as int) {
                    None => {},
                    Some(g) => {
                        lemma_nearest_in_range(
                            s.players,
                            defending_team(s, o as int),
                            own_goal(defending_team(s, o as int)),
                            NUM_PLAYERS as int,
                        );
                        assert(s.players[g as int].wf());
                    },
                }
            },
        }
    }
}

/// The choice of `nearest_in` among the first `n` players is a player of `team` that is no
/// farther from `dest` than any other of `team`, and strictly nearer than every one of `team`
/// before it; there is none only where no player of `team` is among them.
pub proof fn lemma_nearest_in_range(ps: Seq<Player>, team: int, dest: Vec2, n: int)
    requires
        0 <= n <= ps.len(),
        n <= NUM_PLAYERS,
    ensures
        nearest_in(ps, team, dest, n) matches Some(b) ==> {
            &&& b < n
            &&& ps[b as int].team == team
            &&& forall|j: int|
                0 <= j < n && ps[j].team == team ==> dist_sq(ps[b as int].pos, dest) <= dist_sq(
                    #[trigger] ps[j].pos,
                    dest,
                )
            &&& forall|j: int|
                0 <= j < b && ps[j].team == team ==> dist_sq(ps[b as int].pos, dest) < dist_sq(
                    #[trigger] ps[j].pos,
                    dest,
                )
        },
        nearest_in(ps, team, dest, n) is None ==> forall|j: int|
            0 <= j < n ==> (#[trigger] ps[j]).team != team,
    decreases n,
{
    if n > 0 {
        lemma_nearest_in_range(ps, team, dest, n - 1);
    }
}

} // verus!
