use substitute_soccer::angle::Angle;
use substitute_soccer::ball::ShootTarget;
use substitute_soccer::entities::{get_difficulty, BallState, Controls, DifficultyLevel};
use substitute_soccer::game::Game;
use substitute_soccer::geometry::Vec2;

fn still() -> Vec<Vec2> {
    vec![Vec2::new(0, 0); 14]
}

fn idle() -> Vec<Controls> {
    vec![Controls::idle(), Controls::idle()]
}

fn open_play(level: DifficultyLevel) -> Game {
    let mut game = Game::new(get_difficulty(level), &still());
    game.kickoff_player = None;
    game
}

#[test]
fn free_ball_is_acquired() {
    let mut game = open_play(DifficultyLevel::Easy);
    game.players[2].pos = Vec2::new(505_000, 700_000);
    game.update_ball(&idle());
    assert_eq!(game.ball.owner(), Some(2));
    assert_eq!(game.ball.velocity(), None);
    assert_eq!(game.ball.timer, 120);
    assert_eq!(game.teams[0].active_player, Some(2));
    assert_eq!(game.players[2].timer, 0);
}

#[test]
fn acquisition_last_in_scan_wins() {
    let mut game = open_play(DifficultyLevel::Easy);
    game.players[2].pos = Vec2::new(505_000, 700_000);
    game.players[3].pos = Vec2::new(495_000, 700_000);
    game.update_ball(&idle());
    assert_eq!(game.ball.owner(), Some(3));
    assert_eq!(game.ball.velocity(), None);
    assert_eq!(game.players[2].timer, 0);
    assert_eq!(game.players[3].timer, 0);
    assert_eq!(game.teams[0].active_player, Some(2));
    assert_eq!(game.teams[1].active_player, Some(3));
}

#[test]
fn player_on_cooldown_cannot_acquire() {
    let mut game = open_play(DifficultyLevel::Easy);
    game.players[2].pos = Vec2::new(505_000, 700_000);
    game.players[2].timer = 1;
    game.update_ball(&idle());
    assert_eq!(game.ball.owner(), None);
    assert_eq!(game.ball.velocity(), Some(Vec2::new(0, 0)));
}

#[test]
fn opponent_steals_the_ball() {
    let mut game = open_play(DifficultyLevel::Hard);
    game.players[0].pos = Vec2::new(500_000, 700_000);
    game.players[0].anim.dir = Angle(0);
    game.ball.pos = Vec2::new(500_000, 684_000);
    game.ball.state = BallState::Dribbled(0);
    game.players[3].pos = Vec2::new(500_000, 670_000);
    game.update_ball(&idle());
    assert_eq!(game.ball.pos, Vec2::new(500_000, 684_000));
    assert_eq!(game.ball.owner(), Some(3));
    assert_eq!(game.players[0].timer, 60);
    assert_eq!(game.teams[1].active_player, Some(3));
}

#[test]
fn owner_gets_cooldown_when_two_opponents_take_the_ball() {
    let mut game = open_play(DifficultyLevel::Hard);
    game.players[0].pos = Vec2::new(500_000, 700_000);
    game.players[0].anim.dir = Angle(0);
    game.ball.pos = Vec2::new(500_000, 684_000);
    game.ball.state = BallState::Dribbled(0);
    game.players[3].pos = Vec2::new(500_000, 670_000);
    game.players[5].pos = Vec2::new(510_000, 684_000);
    game.update_ball(&idle());
    assert_eq!(game.ball.owner(), Some(5));
    assert_eq!(game.players[0].timer, 60);
    assert_eq!(game.players[3].timer, 0);
    assert_eq!(game.teams[1].active_player, Some(5));
}

#[test]
fn dribbled_ball_eases_toward_anchor() {
    let mut game = open_play(DifficultyLevel::Easy);
    game.players[0].pos = Vec2::new(500_000, 700_000);
    game.players[0].anim.dir = Angle(2);
    game.ball.pos = Vec2::new(500_000, 700_000);
    game.ball.state = BallState::Dribbled(0);
    game.update_ball(&idle());
    assert_eq!(game.ball.pos, Vec2::new(509_000, 700_000));
    assert_eq!(game.ball.owner(), Some(0));
}

#[test]
fn dribbling_off_the_pitch_loses_the_ball() {
    let mut game = open_play(DifficultyLevel::Easy);
    game.players[0].pos = Vec2::new(950_000, 700_000);
    game.players[0].anim.dir = Angle(2);
    game.ball.pos = Vec2::new(950_000, 700_000);
    game.ball.state = BallState::Dribbled(0);
    game.update_ball(&idle());
    assert_eq!(game.ball.owner(), None);
    assert_eq!(game.ball.velocity(), Some(Vec2::new(3_000, 0)));
    assert_eq!(game.players[0].timer, 60);
}

#[test]
fn kick_with_nothing_in_cone() {
    let mut game = open_play(DifficultyLevel::Hard);
    game.teams[0].human = true;
    game.players[0].pos = Vec2::new(150_000, 1_200_000);
    game.players[0].anim.dir = Angle(4);
    game.ball.pos = Vec2::new(150_000, 1_216_000);
    game.ball.state = BallState::Dribbled(0);
    let mut inputs = idle();
    inputs[0].shoot = true;
    assert_eq!(game.best_target(0), None);
    game.update_ball(&inputs);
    assert_eq!(game.ball.owner(), None);
    assert_eq!(game.ball.velocity(), Some(Vec2::new(0, 11_500)));
    assert_eq!(game.players[0].timer, 10);
    assert!(game.teams[0].shoot_now);
    assert_eq!(game.teams[0].active_player, Some(0));
    assert_eq!(game.debug_shoot_target, None);
}

#[test]
fn pass_to_teammate_in_cone() {
    let mut game = open_play(DifficultyLevel::Hard);
    game.teams[0].human = true;
    game.players[0].pos = Vec2::new(500_000, 700_000);
    game.players[0].anim.dir = Angle(0);
    game.players[2].pos = Vec2::new(500_000, 500_000);
    game.ball.pos = Vec2::new(500_000, 684_000);
    game.ball.state = BallState::Dribbled(0);
    assert_eq!(
        game.best_target(0),
        Some(ShootTarget::Player(Vec2::new(500_000, 500_000), 2))
    );
    let mut inputs = idle();
    inputs[0].shoot = true;
    game.update_ball(&inputs);
    assert_eq!(game.ball.velocity(), Some(Vec2::new(0, -11_500)));
    assert_eq!(game.teams[0].active_player, Some(2));
    assert_eq!(game.debug_shoot_target, Some(Vec2::new(500_000, 500_000)));
}

#[test]
fn no_kick_without_pressing() {
    let mut game = open_play(DifficultyLevel::Hard);
    game.teams[0].human = true;
    game.players[0].pos = Vec2::new(500_000, 700_000);
    game.players[0].anim.dir = Angle(0);
    game.players[2].pos = Vec2::new(500_000, 500_000);
    game.ball.pos = Vec2::new(500_000, 684_000);
    game.ball.state = BallState::Dribbled(0);
    game.update_ball(&idle());
    assert_eq!(game.ball.owner(), Some(0));
    assert!(!game.teams[0].shoot_now);
    assert_eq!(game.debug_shoot_target, Some(Vec2::new(500_000, 500_000)));
}

#[test]
fn shot_at_goal() {
    let mut game = open_play(DifficultyLevel::Hard);
    game.teams[0].human = true;
    game.players[0].pos = Vec2::new(500_000, 200_000);
    game.players[0].anim.dir = Angle(0);
    game.ball.pos = Vec2::new(500_000, 184_000);
    game.ball.state = BallState::Dribbled(0);
    assert_eq!(game.best_target(0), Some(ShootTarget::Goal(Vec2::new(500_000, 0))));
    let mut inputs = idle();
    inputs[0].shoot = true;
    game.update_ball(&inputs);
    assert_eq!(game.ball.velocity(), Some(Vec2::new(0, -11_500)));
    assert_eq!(game.teams[0].active_player, Some(0));
}

#[test]
fn switch_to_player_nearest_ball() {
    let mut game = open_play(DifficultyLevel::Hard);
    game.teams[0].human = true;
    game.teams[0].active_player = Some(6);
    let mut inputs = idle();
    inputs[0].shoot = true;
    game.switch_players(&inputs);
    assert_eq!(game.teams[0].active_player, Some(0));
    assert_eq!(game.teams[1].active_player, Some(1));
}

#[test]
fn switch_favours_forward_players() {
    let mut game = open_play(DifficultyLevel::Hard);
    game.teams[1].human = true;
    game.ball.pos = Vec2::new(500_000, 700_000);
    game.ball.state = BallState::Dribbled(0);
    // Team 1 attacks toward the bottom end: player 3 below the ball is ahead of it.
    game.players[1].pos = Vec2::new(500_000, 660_000);
    game.players[3].pos = Vec2::new(500_000, 760_000);
    let mut inputs = idle();
    inputs[1].shoot = true;
    game.switch_players(&inputs);
    assert_eq!(game.teams[1].active_player, Some(3));
    game.ball.state = BallState::Free(Vec2::new(0, 0));
    game.switch_players(&inputs);
    assert_eq!(game.teams[1].active_player, Some(1));
}

#[test]
fn switch_favours_forward_players_of_team_zero() {
    let mut game = open_play(DifficultyLevel::Hard);
    game.teams[0].human = true;
    for i in [0usize, 4, 6, 8, 10, 12] {
        game.players[i].pos = Vec2::new(100_000, 1_300_000);
    }
    game.ball.pos = Vec2::new(500_000, 700_000);
    game.ball.state = BallState::Dribbled(1);
    // Team 0 attacks toward y = 0: player 2 above the ball is ahead, player 4 below it behind.
    game.players[2].pos = Vec2::new(500_000, 500_000);
    game.players[4].pos = Vec2::new(500_000, 850_000);
    let mut inputs = idle();
    inputs[0].shoot = true;
    game.switch_players(&inputs);
    assert_eq!(game.teams[0].active_player, Some(2));
    game.ball.state = BallState::Free(Vec2::new(0, 0));
    game.switch_players(&inputs);
    assert_eq!(game.teams[0].active_player, Some(4));
}

#[test]
fn no_switch_before_kickoff() {
    let mut game = Game::new(get_difficulty(DifficultyLevel::Hard), &still());
    game.teams[0].human = true;
    game.teams[0].active_player = Some(6);
    let mut inputs = idle();
    inputs[0].shoot = true;
    game.switch_players(&inputs);
    assert_eq!(game.teams[0].active_player, Some(6));
}
