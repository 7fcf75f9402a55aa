use vstd::prelude::*;
use crate::blocks::{
    Block, MIN_GAP_CENTER, GAP_BOTTOM_MARGIN, block_bounded, block_ok, count_crossings, count_hits, in_window, lemma_counts_bounded, lemma_scrolled,
    scroll_blocks, scrolled, spawn_window, window_high, window_low,
};

verus! {

/// Pixels per unit of the player's stored vertical position.
pub const POSITION_SCALE: i64 = 600;

/// Stored units of the velocity factor per 1.0 of it.
pub const FACTOR_SCALE: i64 = 400;

/// Vertical position of the player when a session begins (200 pixels).
pub const START_Y: i64 = 120_000;

/// Velocity factor when a session begins, and its cap (1.0).
pub const MAX_FACTOR: i64 = 400;

/// Velocity factor set by a jump (-1.0).
pub const JUMP_FACTOR: i64 = -400;

/// Velocity factor set on hitting the ground (-1.5).
pub const FLOOR_FACTOR: i64 = -600;

/// Velocity factor set on hitting the ceiling (0.0).
pub const CEILING_FACTOR: i64 = 0;

/// Milliseconds between two obstacle spawns.
pub const SPAWN_INTERVAL_MS: u64 = 2500;

/// Milliseconds per pixel of scrolling.
pub const SCROLL_DIVISOR: u64 = 4;

/// Sizes of the sprites whose dimensions the simulation depends on.
#[derive(Clone, Copy, Debug, PartialEq, Eq, Structural)]
pub struct SpriteSizes {
    pub ground_width: u32,
    pub ground_height: u32,
    pub block_width: u32,
}

/// What the host hands to one frame: the time since the last frame and since
/// start, and the viewport's size.
#[derive(Clone, Copy, Debug, PartialEq, Eq, Structural)]
pub struct Frame {
    pub delta_ms: u64,
    pub now_ms: u64,
    pub width: u32,
    pub height: u32,
}

/// Sounds one frame asks the host to play: how many times the score went up,
/// and how many times a death was detected.
#[derive(Clone, Copy, Debug, PartialEq, Eq, Structural)]
pub struct FrameEvents {
    pub scored: u64,
    pub deaths: u64,
}

/// The keys the game reacts to.
#[derive(Clone, Copy, Debug, PartialEq, Eq, Structural)]
pub enum Key {
    Jump,
    Restart,
    Other,
}

/// The whole state of a game session.
pub struct MyGame {
    pub sizes: SpriteSizes,
    pub score: u64,
    pub offset_x: u64,
    pub game_started: bool,
    /// Vertical position of the player, in units of 1/600 pixel.
    pub player_y: i64,
    /// Velocity factor, in units of 1/400.
    pub player_dir: i64,
    pub player_died: bool,
    /// Time of the last spawn, in milliseconds since start (0: none yet).
    pub last_block: u64,
    pub blocks_list: Vec<Block>,
}

/// Mathematical model of a session.
pub struct GameView {
    pub sizes: SpriteSizes,
    pub score: int,
    pub offset_x: int,
    pub game_started: bool,
    pub player_y: int,
    pub player_dir: int,
    pub player_died: bool,
    pub last_block: int,
    pub blocks: Seq<Block>,
}

impl View for MyGame {
    type V = GameView;

    open spec fn view(&self) -> GameView {
        GameView {
            sizes: self.sizes,
            score: self.score as int,
            offset_x: self.offset_x as int,
            game_started: self.game_started,
            player_y: self.player_y as int,
            player_dir: self.player_dir as int,
            player_died: self.player_died,
            last_block: self.last_block as int,
            blocks: self.blocks_list@,
        }
    }
}

/// Vertical position after a frame of `delta` milliseconds at factor `dir`:
/// the factor times `delta / 1.5` pixels, which is `dir * delta` units.
pub open spec fn fall(y: int, dir: int, delta: int) -> int {
    y + dir * delta
}

/// Velocity factor after a frame of `delta` milliseconds: it grows by
/// `delta / 400`, capped at 1.0.
pub open spec fn gravity(dir: int, delta: int) -> int {
    if dir + delta > MAX_FACTOR { MAX_FACTOR as int } else { dir + delta }
}

/// `a / b` rounded toward zero.
pub open spec fn trunc_div(a: int, b: int) -> int {
    if a >= 0 { a / b } else { -((-a) / b) }
}

/// Lowest position the player may reach before touching the ground.
pub open spec fn floor_line(height: u32, ground_height: u32) -> int {
    (height - ground_height) * POSITION_SCALE
}

/// Whether a new obstacle is due at time `now`.
pub open spec fn spawn_due(last: int, now: int) -> bool {
    now - last > SPAWN_INTERVAL_MS || last == 0
}

/// The state of a session before it starts.
pub open spec fn initial(sizes: SpriteSizes) -> GameView {
    GameView {
        sizes,
        score: 0,
        offset_x: 0,
        game_started: false,
        player_y: START_Y as int,
        player_dir: MAX_FACTOR as int,
        player_died: false,
        last_block: 0,
        blocks: Seq::empty(),
    }
}

impl GameView {
    /// Bounds that every reachable state keeps.
    pub open spec fn wf(self) -> bool {
        &&& self.sizes.ground_width > 0
        &&& 0 <= self.offset_x < self.sizes.ground_width
        &&& FLOOR_FACTOR <= self.player_dir <= MAX_FACTOR
        &&& forall|i: int| 0 <= i < self.blocks.len() ==> block_ok(#[trigger] self.blocks[i], self.sizes.block_width)
    }

    /// The obstacles a running frame works on: those in play, plus the one
    /// spawned with gap center `g` when a spawn is due.
    pub open spec fn spawned(self, f: Frame, g: int) -> Seq<Block> {
        if spawn_due(self.last_block, f.now_ms as int) {
            self.blocks.push(Block { x: f.width as i64, gap_y: g as i64 })
        } else {
            self.blocks
        }
    }

    /// Row of the center of the player's hit box after a frame.
    pub open spec fn hit_row(self, f: Frame) -> int {
        trunc_div(fall(self.player_y, self.player_dir, f.delta_ms as int), POSITION_SCALE as int)
    }

    /// Whether a frame `f` ends the player's life on the ground.
    pub open spec fn hits_floor(self, f: Frame) -> bool {
        fall(self.player_y, self.player_dir, f.delta_ms as int) > floor_line(f.height, self.sizes.ground_height)
    }

    /// Whether a frame `f` ends the player's life on the ceiling.
    pub open spec fn hits_ceiling(self, f: Frame) -> bool {
        !self.hits_floor(f) && fall(self.player_y, self.player_dir, f.delta_ms as int) < 0
    }

    /// The state after frame `f`, where `g` is the gap center drawn for the
    /// obstacle spawned in it, if any.
    pub open spec fn step(self, f: Frame, g: int) -> GameView {
        let delta = f.delta_ms as int;
        let y = fall(self.player_y, self.player_dir, delta);
        let dir = gravity(self.player_dir, delta);
        if !self.game_started {
            self
        } else if self.player_died {
            GameView { player_y: y, player_dir: dir, ..self }
        } else {
            let d = delta / SCROLL_DIVISOR as int;
            let bw = self.sizes.block_width;
            let s = self.spawned(f, g);
            GameView {
                score: self.score + count_crossings(s, d, bw),
                offset_x: (self.offset_x + d) % (self.sizes.ground_width as int),
                player_y: y,
                player_dir: if self.hits_floor(f) {
                    FLOOR_FACTOR as int
                } else if self.hits_ceiling(f) {
                    CEILING_FACTOR as int
                } else {
                    dir
                },
                player_died: self.hits_floor(f) || self.hits_ceiling(f) || count_hits(s, d, bw, self.hit_row(f)) > 0,
                last_block: if spawn_due(self.last_block, f.now_ms as int) { f.now_ms as int } else { self.last_block },
                blocks: scrolled(s, d, bw),
                ..self
            }
        }
    }

    /// How many score sounds frame `f` plays.
    pub open spec fn step_scored(self, f: Frame, g: int) -> int {
        if !self.game_started || self.player_died {
            0
        } else {
            count_crossings(self.spawned(f, g), (f.delta_ms / SCROLL_DIVISOR) as int, self.sizes.block_width) as int
        }
    }

    /// How many death sounds frame `f` plays.
    pub open spec fn step_deaths(self, f: Frame, g: int) -> int {
        if !self.game_started || self.player_died {
            0
        } else {
            (if self.hits_floor(f) || self.hits_ceiling(f) { 1int } else { 0int })
                + count_hits(self.spawned(f, g), (f.delta_ms / SCROLL_DIVISOR) as int, self.sizes.block_width, self.hit_row(f))
        }
    }

    /// What frame `f` needs of the machine's integers: the new position fits
    /// in an `i64`, and a running game's score cannot overflow.
    pub open spec fn frame_fits(self, f: Frame) -> bool {
        &&& self.game_started ==> i64::MIN <= fall(self.player_y, self.player_dir, f.delta_ms as int) <= i64::MAX
        &&& self.game_started && !self.player_died ==> self.score + self.blocks.len() + 2 <= u64::MAX
    }

    /// Whether frame `f` runs the world (the session started and the player
    /// is alive) and a spawn is due in it.
    pub open spec fn spawns_in(self, f: Frame) -> bool {
        self.game_started && !self.player_died && spawn_due(self.last_block, f.now_ms as int)
    }
}

/// Relies on rand's `Rng::gen_range` over the thread-local generator of
/// `rand::thread_rng`: a draw from `low..=high`. `gen_range` panics on an
/// empty range, which the `requires` rules out.
#[verifier::external_body]
fn random_in_range(low: i64, high: i64) -> (r: i64)
    requires
        low <= high,
    ensures
        low <= r <= high,
{
    rand::Rng::gen_range(&mut rand::thread_rng(), low..=high)
}

impl MyGame {
    /// A session that has not started, for sprites of the given sizes.
    pub fn new(sizes: SpriteSizes) -> (r: MyGame)
        requires
            sizes.ground_width > 0,
        ensures
            r@ == initial(sizes),
            r@.wf(),
    {
        MyGame {
            sizes,
            score: 0,
            offset_x: 0,
            game_started: false,
            player_y: START_Y,
            player_dir: MAX_FACTOR,
            player_died: false,
            last_block: 0,
            blocks_list: Vec::new(),
        }
    }

    /// Puts the session back in its initial state; the sprite sizes stay.
    pub fn reset_values(&mut self)
        ensures
            final(self)@ == initial(old(self).sizes),
    {
        self.offset_x = 0;
        self.score = 0;
        self.game_started = false;
        self.player_y = START_Y;
        self.player_dir = MAX_FACTOR;
        self.player_died = false;
        self.last_block = 0;
        self.blocks_list.clear();
        assert(self.blocks_list@ =~= Seq::<Block>::empty());
    }

    /// Appends an obstacle at column `width` whose gap is centered at `g`,
    /// which must lie in the window that the last obstacle allows.
    pub fn place_block(&mut self, width: u32, height: u32, g: i64)
        requires
            in_window(old(self)@.blocks, height, g as int),
        ensures
            final(self)@ == (GameView { blocks: old(self)@.blocks.push(Block { x: width as i64, gap_y: g }), ..old(self)@ }),
    {
        self.blocks_list.push(Block { x: width as i64, gap_y: g });
    }

    /// Appends an obstacle at column `width` with a gap center drawn
    /// uniformly from the window that the last obstacle allows.
    pub fn generate_new_block(&mut self, width: u32, height: u32)
        requires
            old(self)@.wf(),
            window_low(old(self)@.blocks) <= window_high(old(self)@.blocks, height),
        ensures
            in_window(old(self)@.blocks, height, final(self)@.blocks.last().gap_y as int),
            final(self)@ == (GameView {
                blocks: old(self)@.blocks.push(Block { x: width as i64, gap_y: final(self)@.blocks.last().gap_y }),
                ..old(self)@
            }),
    {
        let bounds = spawn_window(&self.blocks_list, height);
        let g = random_in_range(bounds.0, bounds.1);
        self.place_block(width, height, g);
    }

    /// Runs one frame `f`; `g` is the gap center of the obstacle spawned in
    /// it, if one is due.
    pub fn update_with(&mut self, f: Frame, g: i64) -> (r: FrameEvents)
        requires
            old(self)@.wf(),
            old(self)@.frame_fits(f),
            old(self).game_started && !old(self).player_died ==> f.now_ms >= old(self).last_block,
            old(self)@.spawns_in(f) ==> in_window(old(self)@.blocks, f.height, g as int),
        ensures
            final(self)@ == old(self)@.step(f, g as int),
            final(self)@.wf(),
            r.scored == old(self)@.step_scored(f, g as int),
            r.deaths == old(self)@.step_deaths(f, g as int),
    {
        if !self.game_started {
            return FrameEvents { scored: 0, deaths: 0 };
        }
        let ghost v = self@;
        let y: i64 = (self.player_y as i128 + self.player_dir as i128 * f.delta_ms as i128) as i64;
        let grown: i128 = self.player_dir as i128 + f.delta_ms as i128;
        let dir: i64 = if grown > MAX_FACTOR as i128 { MAX_FACTOR } else { grown as i64 };
        self.player_y = y;
        self.player_dir = dir;
        if self.player_died {
            return FrameEvents { scored: 0, deaths: 0 };
        }
        let d: u64 = f.delta_ms / SCROLL_DIVISOR;
        self.offset_x = (self.offset_x + d) % (self.sizes.ground_width as u64);
        let floor: i64 = (f.height as i64 - self.sizes.ground_height as i64) * POSITION_SCALE;
        let mut deaths: u64 = 0;
        if y > floor {
            self.player_dir = FLOOR_FACTOR;
            self.player_died = true;
            deaths = 1;
        } else if y < 0 {
            self.player_dir = CEILING_FACTOR;
            self.player_died = true;
            deaths = 1;
        }
        if f.now_ms - self.last_block > SPAWN_INTERVAL_MS || self.last_block == 0 {
            self.last_block = f.now_ms;
            self.place_block(f.width, f.height, g);
        }
        let ghost s = self.blocks_list@;
        assert(s == v.spawned(f, g as int));
        assert forall|i: int| 0 <= i < s.len() implies block_bounded(#[trigger] s[i], self.sizes.block_width) by {
            if i < v.blocks.len() {
                assert(s[i] == v.blocks[i]);
            } else {
                assert(window_low(v.blocks) >= MIN_GAP_CENTER);
                assert(window_high(v.blocks, f.height) <= f.height - GAP_BOTTOM_MARGIN);
            }
        }
        let row: i64 = if y >= 0 { y / POSITION_SCALE } else { -((-(y as i128)) / POSITION_SCALE as i128) as i64 };
        let scan = scroll_blocks(&self.blocks_list, d as i64, self.sizes.block_width, row);
        proof {
            lemma_counts_bounded(s, d as int, self.sizes.block_width, row as int);
            lemma_scrolled(s, d as int, self.sizes.block_width);
        }
        self.blocks_list = scan.0;
        self.score = self.score + scan.1 as u64;
        if scan.2 > 0 {
            self.player_died = true;
        }
        FrameEvents { scored: scan.1 as u64, deaths: deaths + scan.2 as u64 }
    }

    /// Runs one frame `f`, drawing the gap center of an obstacle spawned in
    /// it uniformly from the window that the last obstacle allows.
    pub fn update(&mut self, f: Frame) -> (r: FrameEvents)
        requires
            old(self)@.wf(),
            old(self)@.frame_fits(f),
            old(self).game_started && !old(self).player_died ==> f.now_ms >= old(self).last_block,
            old(self)@.spawns_in(f) ==> window_low(old(self)@.blocks) <= window_high(old(self)@.blocks, f.height),
        ensures
            final(self)@.wf(),
            exists|g: int|
                (old(self)@.spawns_in(f) ==> in_window(old(self)@.blocks, f.height, g))
                && final(self)@ == old(self)@.step(f, g)
                && r.scored == old(self)@.step_scored(f, g)
                && r.deaths == old(self)@.step_deaths(f, g),
    {
        let mut g: i64 = 0;
        if self.game_started && !self.player_died
            && (f.now_ms - self.last_block > SPAWN_INTERVAL_MS || self.last_block == 0) {
            let bounds = spawn_window(&self.blocks_list, f.height);
            g = random_in_range(bounds.0, bounds.1);
        }
        let ghost v = self@;
        let r = self.update_with(f, g);
        assert((v.spawns_in(f) ==> in_window(v.blocks, f.height, g as int)) && self@ == v.step(f, g as int));
        r
    }

    /// Reacts to a key press: a jump while alive sets the factor to -1.0
    /// and starts the session; a restart while dead resets it. Returns
    /// whether the jump sound plays.
    pub fn key_down_event(&mut self, key: Key) -> (jumped: bool)
        ensures
            jumped == (key == Key::Jump && !old(self).player_died),
            jumped ==> final(self)@ == (GameView { player_dir: JUMP_FACTOR as int, game_started: true, ..old(self)@ }),
            key == Key::Restart && old(self).player_died ==> final(self)@ == initial(old(self).sizes),
            !jumped && !(key == Key::Restart && old(self).player_died) ==> final(self)@ == old(self)@,
    {
        match key {
            Key::Jump => {
                if !self.player_died {
                    self.player_dir = JUMP_FACTOR;
                    if !self.game_started {
                        self.game_started = true;
                    }
                    return true;
                }
            },
            Key::Restart => {
                if self.player_died {
                    self.reset_values();
                }
            },
            Key::Other => {},
        }
        false
    }
}

} // verus!
