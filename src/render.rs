use vstd::prelude::*;
use crate::blocks::{BLOCK_SCALE, GAP_HALF};
use crate::game::{GameView, MAX_FACTOR, MyGame};

verus! {

/// Units of the player's rotation per radian.
pub const ROTATION_SCALE: i128 = 120_000;

/// The prompts shown over the playing field.
#[derive(Clone, Copy, Debug, PartialEq, Eq, Structural)]
pub enum Prompt {
    /// Before the session starts.
    Start,
    /// After the player died.
    Restart,
}

/// Rotation of the player's sprite, in units of 1/120000 radian: while
/// dead, the position (in pixels) divided by 100; while alive and not
/// falling at full speed, `(1 - |factor|) / 4`; otherwise none.
pub open spec fn rotation(v: GameView) -> int {
    if v.player_died {
        2 * v.player_y
    } else if v.player_dir < MAX_FACTOR {
        75 * (MAX_FACTOR - (if v.player_dir < 0 { -v.player_dir } else { v.player_dir }))
    } else {
        0
    }
}

/// Which prompt a session shows, if any.
pub open spec fn prompt_of(v: GameView) -> Option<Prompt> {
    if !v.game_started {
        Some(Prompt::Start)
    } else if v.player_died {
        Some(Prompt::Restart)
    } else {
        None
    }
}

/// How many of `start, start + step, ...` are at most `end`.
pub open spec fn run_len(start: int, end: int, step: int) -> int {
    if start <= end { (end - start) / step + 1 } else { 0 }
}

/// The values `start, start + step, start + 2 * step, ...` up to `end`
/// included.
pub fn ascending_run(start: i64, end: i64, step: i64) -> (r: Vec<i64>)
    requires
        step > 0,
    ensures
        r@.len() == run_len(start as int, end as int, step as int),
        forall|k: int| 0 <= k < r@.len() ==> #[trigger] r@[k] == start + k * step,
{
    let mut out: Vec<i64> = Vec::new();
    let mut cur: i128 = start as i128;
    assert(out@.len() * step == 0);
    while cur <= end as i128
        invariant
            step > 0,
            cur == start + out@.len() * step,
            out@.len() > 0 ==> start + (out@.len() - 1) * step <= end,
            forall|k: int| 0 <= k < out@.len() ==> #[trigger] out@[k] == start + k * step,
        decreases end - cur + step,
    {
        proof {
            assert((out@.len() + 1) * step == out@.len() * step + step) by (nonlinear_arith);
        }
        out.push(cur as i64);
        cur = cur + step as i128;
    }
    proof {
        let n = out@.len() as int;
        if n > 0 {
            let e = end - start;
            let s = step as int;
            assert((n - 1) * s <= e);
            assert(n * s > e);
            assert(e >= 0);
            assert(e / s == n - 1) by (nonlinear_arith)
                requires (n - 1) * s <= e, n * s > e, s > 0, e >= 0;
        } else {
            assert(start > end);
        }
    }
    out
}

/// The values `top, top - step, top - 2 * step, ...` down to 0 included.
pub fn descending_run(top: i64, step: i64) -> (r: Vec<i64>)
    requires
        step > 0,
    ensures
        r@.len() == run_len(0, top as int, step as int),
        forall|k: int| 0 <= k < r@.len() ==> #[trigger] r@[k] == top - k * step,
{
    let mut out: Vec<i64> = Vec::new();
    let mut cur: i128 = top as i128;
    assert(out@.len() * step == 0);
    while cur >= 0
        invariant
            step > 0,
            cur == top - out@.len() * step,
            out@.len() > 0 ==> top - (out@.len() - 1) * step >= 0,
            forall|k: int| 0 <= k < out@.len() ==> #[trigger] out@[k] == top - k * step,
        decreases cur + step,
    {
        proof {
            assert((out@.len() + 1) * step == out@.len() * step + step) by (nonlinear_arith);
        }
        out.push(cur as i64);
        cur = cur - step as i128;
    }
    proof {
        let n = out@.len() as int;
        if n > 0 {
            let e = top as int;
            let s = step as int;
            assert(e / s == n - 1) by (nonlinear_arith)
                requires (n - 1) * s <= e, n * s > e, s > 0, e >= 0;
        }
    }
    out
}

impl MyGame {
    /// Rotation of the player's sprite, in units of 1/120000 radian.
    pub fn player_rotation(&self) -> (r: i128)
        ensures
            r == rotation(self@),
    {
        if self.player_died {
            2 * self.player_y as i128
        } else if self.player_dir < MAX_FACTOR {
            let size: i128 = if self.player_dir < 0 { -(self.player_dir as i128) } else { self.player_dir as i128 };
            75 * (MAX_FACTOR as i128 - size)
        } else {
            0
        }
    }

    /// The prompt to show over the playing field, if any.
    pub fn prompt(&self) -> (r: Option<Prompt>)
        ensures
            r == prompt_of(self@),
    {
        if !self.game_started {
            Some(Prompt::Start)
        } else if self.player_died {
            Some(Prompt::Restart)
        } else {
            None
        }
    }

    /// Columns of the ground tiles that cover a viewport `screen_width`
    /// pixels wide, shifted left by the scroll offset.
    pub fn ground_tile_xs(&self, screen_width: u32) -> (r: Vec<i64>)
        requires
            self@.wf(),
        ensures
            r@.len() == (screen_width + self.offset_x) / (self.sizes.ground_width as int) + 1,
            forall|k: int| 0 <= k < r@.len() ==> #[trigger] r@[k] == k * self.sizes.ground_width - self.offset_x,
    {
        let offset: i64 = self.offset_x as i64;
        let r = ascending_run(-offset, screen_width as i64, self.sizes.ground_width as i64);
        r
    }
}

/// Rows at which the repeated body of an obstacle's lower pillar is drawn,
/// below its head, down to the bottom `screen_height` of the viewport.
pub fn lower_pillar_ys(gap_y: i64, head_height: u32, body_height: u32, screen_height: i64) -> (r: Vec<i64>)
    requires
        body_height > 0,
        -0x1_0000_0000 <= gap_y <= 0x1_0000_0000,
    ensures
        r@.len() == run_len(gap_y + GAP_HALF + BLOCK_SCALE * head_height, screen_height as int, BLOCK_SCALE * body_height),
        forall|k: int| 0 <= k < r@.len() ==> #[trigger] r@[k] == gap_y + GAP_HALF + BLOCK_SCALE * head_height + k * (BLOCK_SCALE * body_height),
{
    ascending_run(gap_y + GAP_HALF + BLOCK_SCALE * head_height as i64, screen_height, BLOCK_SCALE * body_height as i64)
}

/// Rows at which the repeated body of an obstacle's upper pillar is drawn,
/// above its head, up to the top of the viewport.
pub fn upper_pillar_ys(gap_y: i64, head_height: u32, body_height: u32) -> (r: Vec<i64>)
    requires
        body_height > 0,
        -0x1_0000_0000 <= gap_y <= 0x1_0000_0000,
    ensures
        r@.len() == run_len(0, gap_y - GAP_HALF - BLOCK_SCALE * head_height, BLOCK_SCALE * body_height),
        forall|k: int| 0 <= k < r@.len() ==> #[trigger] r@[k] == gap_y - GAP_HALF - BLOCK_SCALE * head_height - k * (BLOCK_SCALE * body_height),
{
    descending_run(gap_y - GAP_HALF - BLOCK_SCALE * head_height as i64, BLOCK_SCALE * body_height as i64)
}

} // verus!
