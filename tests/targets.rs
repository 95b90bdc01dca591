use substitute_soccer::angle::Angle;
use substitute_soccer::entities::{get_difficulty, BallState, Controls, DifficultyLevel, Lead, Mark};
use substitute_soccer::game::Game;
use substitute_soccer::geometry::Vec2;
use substitute_soccer::targets::{facing_offset, intercept_point};

fn still() -> Vec<Vec2> {
    vec![Vec2::new(0, 0); 14]
}

fn idle() -> Vec<Controls> {
    vec![Controls::idle(), Controls::idle()]
}

#[test]
fn intercept_of_a_resting_ball_is_the_ball() {
    let ball = Vec2::new(500_000, 700_000);
    assert_eq!(intercept_point(ball, Vec2::new(0, 0), Vec2::new(100_000, 100_000)), ball);
}

#[test]
fn intercept_stops_when_reachable() {
    let ball = Vec2::new(500_000, 700_000);
    let p = Vec2::new(520_000, 700_000);
    assert_eq!(intercept_point(ball, Vec2::new(5_000, 0), p), Vec2::new(505_000, 700_000));
}

#[test]
fn intercept_stops_when_ball_slows() {
    let ball = Vec2::new(500_000, 700_000);
    let far = Vec2::new(500_000, 100_000);
    // 600, 588, 576, 564, 552, 540, 529, 518, 507, then 496 is too slow.
    let r = intercept_point(ball, Vec2::new(600, 0), far);
    assert_eq!(r, Vec2::new(504_974, 700_000));
}

#[test]
fn facing_offsets() {
    assert_eq!(facing_offset(Angle(0), 10_000), Vec2::new(0, -10_000));
    assert_eq!(facing_offset(Angle(3), 50_000), Vec2::new(35_350, 35_350));
    assert_eq!(facing_offset(Angle(5), 10_000), Vec2::new(-7_070, 7_070));
}

fn owned_by_zero(level: DifficultyLevel) -> Game {
    let mut game = Game::new(get_difficulty(level), &still());
    game.kickoff_player = None;
    game.players[0].pos = Vec2::new(500_000, 700_000);
    game.players[0].anim.dir = Angle(0);
    game.ball.pos = Vec2::new(500_000, 684_000);
    game.ball.state = BallState::Dribbled(0);
    game
}

#[test]
fn lead_target_ahead_of_owner() {
    let mut game = owned_by_zero(DifficultyLevel::Hard);
    game.teams[0].human = true;
    game.players[3].lead = Lead { distance: Some(50_000), rank: Some(1) };
    let t = game.planned_target(&idle(), 3);
    assert_eq!(t.pos, Vec2::new(500_000, 650_000));
    assert_eq!(t.speed, 3_100);
    game.teams[0].human = false;
    assert_eq!(game.planned_target(&idle(), 3).speed, 2_900);
}

#[test]
fn lead_target_stays_in_ai_box() {
    let mut game = owned_by_zero(DifficultyLevel::Easy);
    game.players[0].pos = Vec2::new(500_000, 100_000);
    game.players[3].lead = Lead { distance: Some(10_000), rank: Some(0) };
    assert_eq!(game.planned_target(&idle(), 3).pos, Vec2::new(500_000, 98_000));
}

#[test]
fn owner_heads_home() {
    let game = owned_by_zero(DifficultyLevel::Easy);
    let t = game.planned_target(&idle(), 0);
    assert_eq!(t.pos, game.players[0].home);
    assert_eq!(t.speed, 2_000);
}

#[test]
fn teammate_supports_ahead_of_ball() {
    let game = owned_by_zero(DifficultyLevel::Easy);
    // Player 2's home is (650, 450) px and it stands at y = 775 px, within range of the ball.
    let t = game.planned_target(&idle(), 2);
    assert_eq!(t.pos, Vec2::new(575_000, 367_000));
}

#[test]
fn computer_marker_between_mark_and_ball() {
    let mut game = owned_by_zero(DifficultyLevel::Easy);
    game.players[13].mark = Mark::Player(2);
    game.players[2].pos = Vec2::new(500_000, 900_000);
    // The mark is 216 px from the ball; the marker stands half way.
    let t = game.planned_target(&idle(), 13);
    assert_eq!(t.pos, Vec2::new(500_000, 792_000));
    game.players[13].mark = Mark::Goal(Vec2::new(500_000, 900_000));
    assert_eq!(game.planned_target(&idle(), 13).pos, Vec2::new(500_000, 750_000));
}

#[test]
fn human_marker_chases_ball() {
    let mut game = owned_by_zero(DifficultyLevel::Easy);
    game.teams[1].human = true;
    game.teams[1].active_player = Some(1);
    game.players[13].mark = Mark::Player(2);
    game.players[2].pos = Vec2::new(500_000, 900_000);
    assert_eq!(game.planned_target(&idle(), 13).pos, Vec2::new(500_000, 684_000));
}

#[test]
fn before_kickoff_others_stand() {
    let game = Game::new(get_difficulty(DifficultyLevel::Easy), &still());
    let t = game.planned_target(&idle(), 5);
    assert_eq!(t.pos, game.players[5].pos);
}
