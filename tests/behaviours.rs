use substitute_soccer::entities::{get_difficulty, BallState, DifficultyLevel, Mark};
use substitute_soccer::game::Game;
use substitute_soccer::geometry::Vec2;

fn still() -> Vec<Vec2> {
    vec![Vec2::new(0, 0); 14]
}

/// Player 0 of team 0 owns the ball at the centre; of the defenders, 3 and 5 stand upfield
/// (below the owner, from team 1's side) at 50 px and 200 px, 7 stands downfield at 100 px,
/// and the rest are held back by their timers.
fn lead_setup(level: DifficultyLevel) -> Game {
    let mut game = Game::new(get_difficulty(level), &still());
    game.kickoff_player = None;
    game.players[0].pos = Vec2::new(500_000, 700_000);
    game.ball.pos = Vec2::new(500_000, 700_000);
    game.ball.state = BallState::Dribbled(0);
    game.players[3].pos = Vec2::new(500_000, 750_000);
    game.players[5].pos = Vec2::new(500_000, 900_000);
    game.players[7].pos = Vec2::new(500_000, 600_000);
    for i in [1usize, 9, 11, 13] {
        game.players[i].timer = 10;
    }
    game
}

#[test]
fn lead_interleaving() {
    let mut game = lead_setup(DifficultyLevel::Easy);
    game.set_behaviours();
    assert_eq!(game.players[3].lead.rank, Some(0));
    assert_eq!(game.players[7].lead.rank, Some(1));
    assert_eq!(game.players[5].lead.rank, Some(2));
    assert_eq!(game.players[3].lead.distance, Some(10_000));
    assert_eq!(game.players[7].lead.distance, None);
    assert_eq!(game.players[5].lead.distance, None);
    for i in [1usize, 9, 11, 13] {
        assert_eq!(game.players[i].lead.rank, None);
    }
    for i in 0..14 {
        if i % 2 == 0 {
            assert_eq!(game.players[i].lead.rank, None);
        }
        assert_eq!(game.players[i].mark, Mark::Player(13 - i));
    }
}

#[test]
fn second_lead_distance() {
    let mut game = lead_setup(DifficultyLevel::Medium);
    game.set_behaviours();
    assert_eq!(game.players[3].lead.distance, Some(10_000));
    assert_eq!(game.players[7].lead.distance, Some(50_000));
    assert_eq!(game.players[5].lead.distance, None);
}

#[test]
fn goalie_takes_the_goal_mark() {
    let mut game = lead_setup(DifficultyLevel::Hard);
    // Team 1 defends the top goal; put player 13 nearest to it.
    game.players[13].pos = Vec2::new(500_000, 40_000);
    game.set_behaviours();
    assert_eq!(game.players[13].mark, Mark::Goal(Vec2::new(500_000, 0)));
    // The owner's peer, 13, is the goalie itself, so the goal mark wins.
    assert_eq!(game.players[13].lead.rank, None);
    assert_eq!(game.players[3].lead.rank, Some(0));
}

#[test]
fn goalie_swaps_mark_with_owner_peer() {
    let mut game = lead_setup(DifficultyLevel::Hard);
    game.players[11].pos = Vec2::new(500_000, 30_000);
    game.set_behaviours();
    assert_eq!(game.players[11].mark, Mark::Goal(Vec2::new(500_000, 0)));
    assert_eq!(game.players[13].mark, Mark::Player(2));
}

#[test]
fn no_owner_no_leads() {
    let mut game = lead_setup(DifficultyLevel::Hard);
    game.ball.state = BallState::Free(Vec2::new(0, 0));
    game.players[4].lead.rank = Some(3);
    game.set_behaviours();
    for i in 0..14 {
        assert_eq!(game.players[i].lead.rank, None);
        assert_eq!(game.players[i].lead.distance, None);
        assert_eq!(game.players[i].mark, Mark::Player(13 - i));
    }
}
