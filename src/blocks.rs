use vstd::prelude::*;

verus! {

/// Scale applied to the obstacle sprite's width to get an obstacle's width.
pub const BLOCK_SCALE: i64 = 5;

/// Lowest gap center an obstacle may be given.
pub const MIN_GAP_CENTER: i64 = 300;

/// Distance kept between the lowest gap center and the bottom of the viewport.
pub const GAP_BOTTOM_MARGIN: i64 = 200;

/// Largest vertical move of the gap center from one obstacle to the next.
pub const MAX_GAP_STEP: i64 = 100;

/// Half the height of an obstacle's gap.
pub const GAP_HALF: i64 = 100;

/// Left edge of the player's hit box (fixed screen column 200, minus 16).
pub const PLAYER_LEFT: i64 = 184;

/// Right edge of the player's hit box (fixed screen column 200, plus 16).
pub const PLAYER_RIGHT: i64 = 216;

/// Half the height of the player's hit box.
pub const PLAYER_HALF: i64 = 16;

/// One obstacle: a pair of pillars whose left edge is at `x`, with a gap
/// centered at `gap_y`.
#[derive(Clone, Copy, Debug, PartialEq, Eq, Structural)]
pub struct Block {
    pub x: i64,
    pub gap_y: i64,
}

/// Width of an obstacle whose sprite is `bw` pixels wide.
pub open spec fn block_width(bw: u32) -> int {
    BLOCK_SCALE * bw
}

/// Lowest gap center allowed for the next obstacle after `blocks`.
pub open spec fn window_low(blocks: Seq<Block>) -> int {
    if blocks.len() == 0 {
        MIN_GAP_CENTER as int
    } else {
        let prev = blocks.last().gap_y - MAX_GAP_STEP;
        if prev > MIN_GAP_CENTER { prev } else { MIN_GAP_CENTER as int }
    }
}

/// Highest gap center allowed for the next obstacle after `blocks`, in a
/// viewport `height` pixels high.
pub open spec fn window_high(blocks: Seq<Block>, height: u32) -> int {
    let bottom = height - GAP_BOTTOM_MARGIN;
    if blocks.len() == 0 {
        bottom
    } else {
        let prev = blocks.last().gap_y + MAX_GAP_STEP;
        if prev < bottom { prev } else { bottom }
    }
}

/// Whether `g` may be the gap center of the obstacle spawned after `blocks`.
pub open spec fn in_window(blocks: Seq<Block>, height: u32, g: int) -> bool {
    window_low(blocks) <= g <= window_high(blocks, height)
}

/// The obstacle `b` moved left by `d` pixels.
pub open spec fn shifted(b: Block, d: int) -> Block {
    Block { x: (b.x - d) as i64, gap_y: b.gap_y }
}

/// Whether `b` is still (partly) on screen: its right edge is past the left
/// edge of the viewport.
pub open spec fn visible(b: Block, bw: u32) -> bool {
    b.x > -block_width(bw)
}

/// Whether moving an obstacle whose left edge is at `x` left by `d` pixels
/// sweeps its right edge past the left edge of the player's hit box.
pub open spec fn edge_crosses(x: int, d: int, bw: u32) -> bool {
    PLAYER_LEFT < x + block_width(bw) && PLAYER_LEFT >= x - d + block_width(bw)
}

/// Whether moving `b` left by `d` pixels sweeps its right edge past the left
/// edge of the player's hit box.
pub open spec fn crosses(b: Block, d: int, bw: u32) -> bool {
    edge_crosses(b.x as int, d, bw)
}

/// Whether, once moved left by `d`, `b` overlaps the player's hit box
/// horizontally while the hit box (centered at row `py`) leaves the gap.
pub open spec fn hits(b: Block, d: int, bw: u32, py: int) -> bool {
    let left = b.x - d;
    let right = left + block_width(bw);
    &&& !crosses(b, d, bw)
    &&& PLAYER_RIGHT > left
    &&& PLAYER_LEFT < right
    &&& (py - PLAYER_HALF < b.gap_y - GAP_HALF || py + PLAYER_HALF > b.gap_y + GAP_HALF)
}

/// The obstacles of `s` moved left by `d`, in order, without those that
/// left the screen.
pub open spec fn scrolled(s: Seq<Block>, d: int, bw: u32) -> Seq<Block>
    decreases s.len(),
{
    if s.len() == 0 {
        Seq::empty()
    } else {
        let rest = scrolled(s.drop_last(), d, bw);
        let b = shifted(s.last(), d);
        if visible(b, bw) { rest.push(b) } else { rest }
    }
}

/// How many obstacles of `s` pass the player when moved left by `d`.
pub open spec fn count_crossings(s: Seq<Block>, d: int, bw: u32) -> nat
    decreases s.len(),
{
    if s.len() == 0 {
        0
    } else {
        count_crossings(s.drop_last(), d, bw) + if crosses(s.last(), d, bw) { 1nat } else { 0nat }
    }
}

/// How many obstacles of `s` the player (at row `py`) runs into when they
/// are moved left by `d`.
pub open spec fn count_hits(s: Seq<Block>, d: int, bw: u32, py: int) -> nat
    decreases s.len(),
{
    if s.len() == 0 {
        0
    } else {
        count_hits(s.drop_last(), d, bw, py) + if hits(s.last(), d, bw, py) { 1nat } else { 0nat }
    }
}

/// Bounds that every obstacle in play keeps: it is on screen, and it was
/// spawned at a column and row that a `u32` viewport can hold.
pub open spec fn block_ok(b: Block, bw: u32) -> bool {
    &&& visible(b, bw)
    &&& b.x <= u32::MAX
    &&& 0 <= b.gap_y <= u32::MAX
}

/// Bounds of an obstacle that a frame may scroll: what `block_ok` asks,
/// but it may stand at the very left edge of the screen (a spawn in a
/// viewport of width 0).
pub open spec fn block_bounded(b: Block, bw: u32) -> bool {
    &&& b.x >= -block_width(bw)
    &&& b.x <= u32::MAX
    &&& 0 <= b.gap_y <= u32::MAX
}

/// The gap center window for the obstacle spawned after `blocks`, as a pair
/// of bounds; it may be empty (low above high).
pub fn spawn_window(blocks: &Vec<Block>, height: u32) -> (r: (i64, i64))
    requires
        blocks.len() > 0 ==> 0 <= blocks@.last().gap_y <= u32::MAX,
    ensures
        r.0 == window_low(blocks@),
        r.1 == window_high(blocks@, height),
{
    let bottom: i64 = height as i64 - GAP_BOTTOM_MARGIN;
    if blocks.len() == 0 {
        (MIN_GAP_CENTER, bottom)
    } else {
        let prev: i64 = blocks[blocks.len() - 1].gap_y;
        let low: i64 = if prev - MAX_GAP_STEP > MIN_GAP_CENTER { prev - MAX_GAP_STEP } else { MIN_GAP_CENTER };
        let high: i64 = if prev + MAX_GAP_STEP < bottom { prev + MAX_GAP_STEP } else { bottom };
        (low, high)
    }
}

/// Every obstacle left after scrolling `s` by `d` is on screen, keeps the
/// bounds of the obstacles in play, and is one of those of `s` moved by `d`:
/// an obstacle that left the screen never comes back.
pub proof fn lemma_scrolled(s: Seq<Block>, d: int, bw: u32)
    requires
        0 <= d <= u64::MAX / 4,
        forall|i: int| 0 <= i < s.len() ==> block_bounded(#[trigger] s[i], bw),
    ensures
        forall|i: int| 0 <= i < scrolled(s, d, bw).len() ==> block_ok(#[trigger] scrolled(s, d, bw)[i], bw),
        forall|i: int| 0 <= i < scrolled(s, d, bw).len() ==> exists|j: int| 0 <= j < s.len()
            && #[trigger] scrolled(s, d, bw)[i] == shifted(s[j], d),
    decreases s.len(),
{
    if s.len() > 0 {
        let t = s.drop_last();
        assert forall|i: int| 0 <= i < t.len() implies block_bounded(#[trigger] t[i], bw) by {
            assert(t[i] == s[i]);
        }
        lemma_scrolled(t, d, bw);
        let rest = scrolled(t, d, bw);
        let b = shifted(s.last(), d);
        assert(block_bounded(s[s.len() - 1], bw));
        assert forall|i: int| 0 <= i < scrolled(s, d, bw).len() implies exists|j: int| 0 <= j < s.len()
            && #[trigger] scrolled(s, d, bw)[i] == shifted(s[j], d) by {
            if i < rest.len() {
                assert(scrolled(s, d, bw)[i] == rest[i]);
                let j = choose|j: int| 0 <= j < t.len() && rest[i] == shifted(t[j], d);
                assert(t[j] == s[j]);
            } else {
                assert(scrolled(s, d, bw)[i] == shifted(s[s.len() - 1], d));
            }
        }
        assert forall|i: int| 0 <= i < scrolled(s, d, bw).len() implies block_ok(#[trigger] scrolled(s, d, bw)[i], bw) by {
            if i < rest.len() {
                assert(scrolled(s, d, bw)[i] == rest[i]);
            }
        }
    }
}

pub proof fn lemma_counts_bounded(s: Seq<Block>, d: int, bw: u32, py: int)
    ensures
        count_crossings(s, d, bw) <= s.len(),
        count_hits(s, d, bw, py) <= s.len(),
    decreases s.len(),
{
    if s.len() > 0 {
        lemma_counts_bounded(s.drop_last(), d, bw, py);
    }
}

/// One frame of scrolling over `blocks`: moves every obstacle left by `d`,
/// drops those that left the screen, and counts the obstacles that the
/// player (hit box centered at row `py`) passed and ran into.
pub fn scroll_blocks(blocks: &Vec<Block>, d: i64, bw: u32, py: i64) -> (r: (Vec<Block>, usize, usize))
    requires
        0 <= d <= u64::MAX / 4,
        -0x1000_0000_0000_0000 <= py <= 0x1000_0000_0000_0000,
        forall|i: int| 0 <= i < blocks@.len() ==> block_bounded(#[trigger] blocks@[i], bw),
    ensures
        r.0@ == scrolled(blocks@, d as int, bw),
        r.1 == count_crossings(blocks@, d as int, bw),
        r.2 == count_hits(blocks@, d as int, bw, py as int),
{
    let width: i64 = BLOCK_SCALE * bw as i64;
    let mut out: Vec<Block> = Vec::new();
    let mut passed: usize = 0;
    let mut struck: usize = 0;
    let mut i: usize = 0;
    while i < blocks.len()
        invariant
            i <= blocks@.len(),
            width == block_width(bw),
            0 <= d <= u64::MAX / 4,
            -0x1000_0000_0000_0000 <= py <= 0x1000_0000_0000_0000,
            forall|k: int| 0 <= k < blocks@.len() ==> block_bounded(#[trigger] blocks@[k], bw),
            out@ == scrolled(blocks@.subrange(0, i as int), d as int, bw),
            passed == count_crossings(blocks@.subrange(0, i as int), d as int, bw),
            struck == count_hits(blocks@.subrange(0, i as int), d as int, bw, py as int),
            passed <= i,
            struck <= i,
        decreases blocks@.len() - i,
    {
        let b = blocks[i];
        assert(block_bounded(blocks@[i as int], bw));
        assert(blocks@.subrange(0, i as int + 1).drop_last() =~= blocks@.subrange(0, i as int));
        assert(blocks@.subrange(0, i as int + 1).last() == b);
        let prev_right: i64 = b.x + width;
        let left: i64 = b.x - d;
        let right: i64 = left + width;
        if PLAYER_LEFT < prev_right && PLAYER_LEFT >= right {
            passed = passed + 1;
        } else if PLAYER_RIGHT > left && PLAYER_LEFT < right {
            if py - PLAYER_HALF < b.gap_y - GAP_HALF || py + PLAYER_HALF > b.gap_y + GAP_HALF {
                struck = struck + 1;
            }
        }
        let moved = Block { x: left, gap_y: b.gap_y };
        if left > -width {
            out.push(moved);
        }
        i = i + 1;
    }
    assert(blocks@.subrange(0, blocks@.len() as int) =~= blocks@);
    (out, passed, struck)
}

} // verus!
