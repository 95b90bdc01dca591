use substitute_soccer::angle::Angle;
use substitute_soccer::entities::{
    get_difficulty, BallState, Controls, DifficultyLevel, Lead, Mark, TeamInfo,
};
use substitute_soccer::game::Game;
use substitute_soccer::geometry::Vec2;

fn still() -> Vec<Vec2> {
    vec![Vec2::new(0, 0); 14]
}

fn idle() -> Vec<Controls> {
    vec![Controls::idle(), Controls::idle()]
}

#[test]
fn difficulty_presets() {
    let easy = get_difficulty(DifficultyLevel::Easy);
    assert!(!easy.goalie_enabled && !easy.second_lead_enabled);
    assert_eq!((easy.speed_boost, easy.holdoff_timer), (0, 120));
    let medium = get_difficulty(DifficultyLevel::Medium);
    assert!(!medium.goalie_enabled && medium.second_lead_enabled);
    assert_eq!((medium.speed_boost, medium.holdoff_timer), (100, 90));
    let hard = get_difficulty(DifficultyLevel::Hard);
    assert!(hard.goalie_enabled && hard.second_lead_enabled);
    assert_eq!((hard.speed_boost, hard.holdoff_timer), (200, 60));
}

#[test]
fn controls_movement() {
    let mut c = Controls::idle();
    assert_eq!(c.movement(), Vec2::new(0, 0));
    c.up = true;
    c.down = true;
    c.right = true;
    assert_eq!(c.movement(), Vec2::new(10_000, -10_000));
    c.left = true;
    assert_eq!(c.movement(), Vec2::new(-10_000, -10_000));
}

#[test]
fn new_match_layout() {
    let mut jitter = still();
    jitter[3] = Vec2::new(32_000, -32_000);
    let game = Game::new(get_difficulty(DifficultyLevel::Hard), &jitter);
    assert_eq!(game.players.len(), 14);
    for (i, p) in game.players.iter().enumerate() {
        assert_eq!(p.team as usize, i % 2);
        assert_eq!(p.peer, 13 - i);
        assert_eq!(p.mark, Mark::Player(13 - i));
        assert_eq!(p.lead, Lead { distance: None, rank: None });
        assert_eq!(p.timer, 0);
        assert_eq!(p.anim.dir, Angle(0));
    }
    assert_eq!(game.kickoff_player, Some(0));
    assert_eq!(game.players[0].pos, Vec2::new(470_000, 700_000));
    assert_eq!(game.players[1].home, Vec2::new(650_000, 850_000));
    assert_eq!(game.players[1].pos, Vec2::new(650_000, 575_000));
    assert_eq!(game.players[3].home, Vec2::new(382_000, 918_000));
    assert_eq!(game.players[3].pos, Vec2::new(382_000, 609_000));
    assert_eq!(game.players[3].target.pos, game.players[3].pos);
    assert_eq!(game.players[3].target.speed, 2_000);
    assert_eq!(game.ball.pos, Vec2::new(500_000, 700_000));
    assert_eq!(game.ball.state, BallState::Free(Vec2::new(0, 0)));
    assert_eq!(game.ball.owner(), None);
    assert_eq!(game.camera_focus, Vec2::new(500_000, 700_000));
    assert_eq!(game.teams[0].active_player, Some(0));
    assert_eq!(game.teams[1].active_player, Some(1));
    assert_eq!((game.teams[0].score, game.teams[1].score), (0, 0));
}

#[test]
fn team_info_new() {
    let t = TeamInfo::new(true);
    assert!(t.human());
    assert_eq!(t.score, 0);
    assert_eq!(t.active_player, None);
}

#[test]
fn goal_then_reset() {
    let mut game = Game::new(get_difficulty(DifficultyLevel::Easy), &still());
    game.score_timer = -5;
    game.ball.pos = Vec2::new(500_000, 60_000);
    game.check_goals(&still());
    assert_eq!(game.teams[0].score, 1);
    assert_eq!(game.teams[1].score, 0);
    assert_eq!(game.scoring_team, 0);
    assert_eq!(game.score_timer, 60);
    for _ in 0..59 {
        game.check_goals(&still());
        assert_eq!(game.teams[0].score, 1);
    }
    assert_eq!(game.score_timer, 1);
    game.ball.pos = Vec2::new(300_000, 300_000);
    game.check_goals(&still());
    assert_eq!(game.score_timer, 0);
    assert_eq!(game.ball.pos, Vec2::new(500_000, 700_000));
    assert_eq!(game.kickoff_player, Some(1));
    assert_eq!(game.players[1].pos, Vec2::new(530_000, 700_000));
    assert_eq!(game.teams[0].score, 1);
}

#[test]
fn goal_at_bottom_end_scores_for_team_one() {
    let mut game = Game::new(get_difficulty(DifficultyLevel::Easy), &still());
    game.ball.pos = Vec2::new(500_000, 1_330_000);
    game.check_goals(&still());
    assert_eq!(game.teams[1].score, 1);
    assert_eq!(game.scoring_team, 1);
}

#[test]
fn timers_count_down_to_zero() {
    let mut game = Game::new(get_difficulty(DifficultyLevel::Easy), &still());
    game.players[4].timer = 2;
    game.ball.timer = 1;
    game.decrement_timers();
    assert_eq!(game.players[4].timer, 1);
    assert_eq!(game.ball.timer, 0);
    game.decrement_timers();
    game.decrement_timers();
    assert_eq!(game.players[4].timer, 0);
    assert_eq!(game.ball.timer, 0);
}

#[test]
fn sixty_quiet_ticks() {
    let mut game = Game::new(get_difficulty(DifficultyLevel::Hard), &still());
    for _ in 0..60 {
        game.update(&idle(), &still());
        assert!(game.score_timer != 0);
        assert_eq!((game.teams[0].score, game.teams[1].score), (0, 0));
        for p in game.players.iter() {
            assert!(p.pos.x >= 0 && p.pos.x <= 1_000_000);
            assert!(p.pos.y >= 0 && p.pos.y <= 1_400_000);
        }
        assert_eq!(game.ball.owner().is_some(), game.ball.velocity().is_none());
    }
}

#[test]
fn kickoff_player_moves_under_human_control() {
    let mut game = Game::new(get_difficulty(DifficultyLevel::Hard), &still());
    game.teams[0].human = true;
    let mut inputs = idle();
    inputs[0].up = true;
    let before = game.players[0].pos;
    let other = game.players[2].pos;
    game.update(&inputs, &still());
    assert_eq!(game.players[0].target.speed, 3_300);
    assert_eq!(game.players[0].pos, Vec2::new(before.x, before.y - 3_300));
    assert_eq!(game.players[2].pos, other);
}
