use flappy_rust::blocks::{scroll_blocks, spawn_window, Block};
use flappy_rust::game::{
    Frame, FrameEvents, Key, MyGame, SpriteSizes, CEILING_FACTOR, FLOOR_FACTOR, JUMP_FACTOR,
    MAX_FACTOR, START_Y,
};

fn sizes() -> SpriteSizes {
    SpriteSizes { ground_width: 64, ground_height: 100, block_width: 20 }
}

fn frame(delta_ms: u64, now_ms: u64) -> Frame {
    Frame { delta_ms, now_ms, width: 1280, height: 720 }
}

fn started() -> MyGame {
    let mut game = MyGame::new(sizes());
    assert!(game.key_down_event(Key::Jump));
    game
}

fn same_state(a: &MyGame, b: &MyGame) -> bool {
    a.sizes == b.sizes
        && a.score == b.score
        && a.offset_x == b.offset_x
        && a.game_started == b.game_started
        && a.player_y == b.player_y
        && a.player_dir == b.player_dir
        && a.player_died == b.player_died
        && a.last_block == b.last_block
        && a.blocks_list == b.blocks_list
}

#[test]
fn new_session_is_paused() {
    let game = MyGame::new(sizes());
    assert!(!game.game_started);
    assert!(!game.player_died);
    assert_eq!(game.player_y, START_Y);
    assert_eq!(game.player_dir, MAX_FACTOR);
    assert_eq!(game.score, 0);
    assert_eq!(game.offset_x, 0);
    assert!(game.blocks_list.is_empty());
}

#[test]
fn frame_before_start_changes_nothing() {
    let mut game = MyGame::new(sizes());
    let fresh = MyGame::new(sizes());
    let events = game.update(frame(16, 1000));
    assert_eq!(events, FrameEvents { scored: 0, deaths: 0 });
    assert!(same_state(&game, &fresh));
}

#[test]
fn first_frame_moves_player_and_spawns() {
    let mut game = started();
    // factor -1.0 for 30 ms: up 20 pixels; factor grows by 30/400.
    let events = game.update_with(frame(30, 500), 420);
    assert_eq!(events, FrameEvents { scored: 0, deaths: 0 });
    assert_eq!(game.player_y, START_Y - 400 * 30);
    assert_eq!(game.player_dir, JUMP_FACTOR + 30);
    assert_eq!(game.offset_x, 7);
    assert_eq!(game.last_block, 500);
    assert_eq!(game.blocks_list, vec![Block { x: 1280 - 7, gap_y: 420 }]);
}

#[test]
fn factor_is_capped_at_one() {
    let mut game = MyGame::new(sizes());
    game.game_started = true;
    game.last_block = 1;
    game.player_dir = 300;
    game.update(frame(200, 100));
    assert_eq!(game.player_y, START_Y + 300 * 200);
    assert_eq!(game.player_dir, MAX_FACTOR);
}

#[test]
fn scroll_offset_wraps_at_tile_width() {
    let mut game = started();
    game.last_block = 1;
    game.offset_x = 60;
    game.update(frame(20, 100));
    assert_eq!(game.offset_x, (60 + 5) % 64);
}

#[test]
fn jump_sets_factor_whatever_it_was() {
    for prior in [FLOOR_FACTOR, -400, -1, 0, 250, MAX_FACTOR] {
        let mut game = MyGame::new(sizes());
        game.player_dir = prior;
        assert!(game.key_down_event(Key::Jump));
        assert_eq!(game.player_dir, JUMP_FACTOR);
        assert!(game.game_started);
    }
}

#[test]
fn jump_while_dead_does_nothing() {
    let mut game = started();
    game.player_died = true;
    game.player_dir = 123;
    assert!(!game.key_down_event(Key::Jump));
    assert_eq!(game.player_dir, 123);
}

#[test]
fn restart_only_while_dead() {
    let mut game = started();
    game.score = 5;
    assert!(!game.key_down_event(Key::Restart));
    assert_eq!(game.score, 5);
    assert!(game.game_started);
    assert!(!game.key_down_event(Key::Other));
    assert_eq!(game.score, 5);
}

#[test]
fn restart_after_death_matches_fresh_session() {
    let mut game = started();
    game.last_block = 1;
    let mut now: u64 = 100;
    while !game.player_died {
        game.update_with(frame(16, now), 400);
        now += 16;
    }
    game.update(frame(16, now));
    assert!(game.key_down_event(Key::Restart) == false);
    assert!(same_state(&game, &MyGame::new(sizes())));
}

#[test]
fn floor_death_on_exact_frame_then_frozen() {
    let mut game = MyGame::new(sizes());
    game.game_started = true;
    game.last_block = 1;
    // floor at 700 - 100 = 600 pixels; each 16 ms frame falls 6400 units.
    let floor: i64 = 600 * 600;
    let mut now: u64 = 100;
    let mut deaths: u64 = 0;
    let mut frames: u64 = 0;
    while !game.player_died {
        let before = game.player_y;
        let f = Frame { delta_ms: 16, now_ms: now, width: 1280, height: 700 };
        let events = game.update(f);
        frames += 1;
        deaths += events.deaths;
        if game.player_died {
            assert!(game.player_y > floor);
            assert!(before <= floor);
        } else {
            assert!(game.player_y <= floor);
        }
        now += 16;
    }
    assert_eq!(frames, 38);
    assert_eq!(deaths, 1);
    assert_eq!(game.player_dir, FLOOR_FACTOR);
    let score = game.score;
    let offset = game.offset_x;
    let blocks = game.blocks_list.clone();
    let last = game.last_block;
    for _ in 0..10 {
        let f = Frame { delta_ms: 16, now_ms: now, width: 1280, height: 700 };
        let events = game.update(f);
        assert_eq!(events, FrameEvents { scored: 0, deaths: 0 });
        assert_eq!(game.score, score);
        assert_eq!(game.offset_x, offset);
        assert_eq!(game.blocks_list, blocks);
        assert_eq!(game.last_block, last);
        assert!(game.player_died);
        now += 5000;
    }
}

#[test]
fn ceiling_death_sets_factor_to_zero() {
    let mut game = started();
    game.last_block = 1;
    game.player_y = 600;
    let events = game.update(frame(16, 100));
    assert_eq!(events.deaths, 1);
    assert!(game.player_died);
    assert_eq!(game.player_dir, CEILING_FACTOR);
}

#[test]
fn score_goes_up_once_per_obstacle() {
    let mut game = started();
    game.last_block = 1;
    game.player_dir = 0;
    // right edge at 90 + 100 = 190, just right of the hit box's left edge 184
    game.blocks_list.push(Block { x: 90, gap_y: 200 });
    let events = game.update(frame(40, 100));
    assert_eq!(events, FrameEvents { scored: 1, deaths: 0 });
    assert_eq!(game.score, 1);
    assert_eq!(game.blocks_list[0], Block { x: 80, gap_y: 200 });
    for i in 1..5u64 {
        game.player_dir = 0;
        let events = game.update(frame(4 + i * 7, 100 + i));
        assert_eq!(events.scored, 0);
    }
    assert_eq!(game.score, 1);
    assert!(!game.player_died);
}

#[test]
fn obstacle_outside_gap_kills() {
    let mut game = started();
    game.last_block = 1;
    game.player_dir = 0;
    game.blocks_list.push(Block { x: 150, gap_y: 500 });
    let events = game.update(frame(16, 100));
    assert_eq!(events, FrameEvents { scored: 0, deaths: 1 });
    assert!(game.player_died);
}

#[test]
fn obstacle_with_player_in_gap_is_safe() {
    let mut game = started();
    game.last_block = 1;
    game.player_dir = 0;
    game.blocks_list.push(Block { x: 150, gap_y: 200 });
    let events = game.update(frame(16, 100));
    assert_eq!(events, FrameEvents { scored: 0, deaths: 0 });
    assert!(!game.player_died);
}

#[test]
fn off_screen_obstacles_are_evicted() {
    let mut game = started();
    game.last_block = 1;
    game.player_dir = 0;
    game.blocks_list.push(Block { x: -95, gap_y: 400 });
    game.blocks_list.push(Block { x: 500, gap_y: 420 });
    game.update(frame(40, 100));
    assert_eq!(game.blocks_list, vec![Block { x: 490, gap_y: 420 }]);
    for b in game.blocks_list.iter() {
        assert!(b.x > -100);
    }
}

#[test]
fn spawn_waits_for_interval() {
    let mut game = started();
    game.update_with(frame(16, 1000), 400);
    assert_eq!(game.blocks_list.len(), 1);
    game.player_dir = 0;
    game.update_with(frame(16, 3500), 400);
    assert_eq!(game.blocks_list.len(), 1);
    game.player_dir = 0;
    game.update_with(frame(16, 3501), 450);
    assert_eq!(game.blocks_list.len(), 2);
    assert_eq!(game.blocks_list[1].gap_y, 450);
    assert_eq!(game.last_block, 3501);
}

#[test]
fn spawn_window_follows_previous_gap() {
    let blocks = vec![Block { x: 900, gap_y: 350 }];
    assert_eq!(spawn_window(&blocks, 720), (300, 450));
    let blocks = vec![Block { x: 900, gap_y: 500 }];
    assert_eq!(spawn_window(&blocks, 720), (400, 520));
    assert_eq!(spawn_window(&Vec::new(), 720), (300, 520));
}

#[test]
fn generated_gaps_respect_window() {
    let mut game = MyGame::new(sizes());
    game.generate_new_block(1280, 720);
    let first = game.blocks_list[0];
    assert_eq!(first.x, 1280);
    assert!(300 <= first.gap_y && first.gap_y <= 520);
    for _ in 0..200 {
        let prev = game.blocks_list[game.blocks_list.len() - 1].gap_y;
        game.generate_new_block(1280, 720);
        let next = game.blocks_list[game.blocks_list.len() - 1].gap_y;
        assert!((next - prev).abs() <= 100);
        assert!(300 <= next && next <= 520);
    }
}

#[test]
fn gap_sampling_is_bounded_and_uniform() {
    let mut game = MyGame::new(sizes());
    game.blocks_list.push(Block { x: 1000, gap_y: 400 });
    let mut counts = vec![0u32; 201];
    for _ in 0..40200 {
        game.generate_new_block(800, 800);
        let g = game.blocks_list.pop().unwrap().gap_y;
        assert!(300 <= g && g <= 600);
        assert!(g <= 500);
        counts[(g - 300) as usize] += 1;
    }
    for c in counts.iter() {
        assert!(*c >= 100 && *c <= 320, "count {}", c);
    }
}

#[test]
fn scroll_blocks_counts_and_moves() {
    let blocks = vec![Block { x: 90, gap_y: 200 }, Block { x: 150, gap_y: 600 }, Block { x: -95, gap_y: 300 }];
    let (moved, passed, struck) = scroll_blocks(&blocks, 10, 20, 200);
    assert_eq!(moved, vec![Block { x: 80, gap_y: 200 }, Block { x: 140, gap_y: 600 }]);
    assert_eq!(passed, 1);
    assert_eq!(struck, 1);
}
