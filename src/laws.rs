use vstd::prelude::*;
use crate::blocks::{
    Block, PLAYER_LEFT, block_width, edge_crosses, GAP_BOTTOM_MARGIN, MAX_GAP_STEP, MIN_GAP_CENTER, block_bounded, block_ok,
    in_window, lemma_scrolled, shifted, visible, window_high, window_low,
};
use crate::game::{Frame, GameView, SCROLL_DIVISOR};

verus! {

/// A gap center drawn for a new obstacle lies between 300 and 200 pixels
/// above the bottom of the viewport, and at most 100 pixels above or below
/// the gap center of the obstacle before it.
pub proof fn lemma_gap_step(blocks: Seq<Block>, height: u32, g: int)
    requires
        in_window(blocks, height, g),
    ensures
        MIN_GAP_CENTER <= g <= height - GAP_BOTTOM_MARGIN,
        blocks.len() > 0 ==> -MAX_GAP_STEP <= g - blocks.last().gap_y <= MAX_GAP_STEP,
{
}

/// Total distance scrolled over frames that scroll by `ds`.
pub open spec fn total(ds: Seq<int>) -> int
    decreases ds.len(),
{
    if ds.len() == 0 { 0 } else { total(ds.drop_last()) + ds.last() }
}

/// In how many of the frames that scroll by `ds` an obstacle whose left edge
/// starts at `x` passes the player.
pub open spec fn frames_scoring(x: int, ds: Seq<int>, bw: u32) -> nat
    decreases ds.len(),
{
    if ds.len() == 0 {
        0
    } else {
        frames_scoring(x, ds.drop_last(), bw)
            + if edge_crosses(x - total(ds.drop_last()), ds.last(), bw) { 1nat } else { 0nat }
    }
}

/// Over any run of frames, an obstacle raises the score in exactly one frame
/// if its right edge starts right of the player's hit box's left edge and
/// ends at or left of it, and in none otherwise, whatever the frame times.
pub proof fn lemma_scores_exactly_once(x: int, ds: Seq<int>, bw: u32)
    requires
        forall|i: int| 0 <= i < ds.len() ==> #[trigger] ds[i] >= 0,
    ensures
        frames_scoring(x, ds, bw) == if x + block_width(bw) > PLAYER_LEFT
            && x - total(ds) + block_width(bw) <= PLAYER_LEFT { 1nat } else { 0nat },
    decreases ds.len(),
{
    if ds.len() > 0 {
        let t = ds.drop_last();
        assert forall|i: int| 0 <= i < t.len() implies #[trigger] t[i] >= 0 by {
            assert(t[i] == ds[i]);
        }
        assert(ds.last() == ds[ds.len() - 1]);
        lemma_scores_exactly_once(x, t, bw);
        lemma_total_nonneg(t);
    }
}

proof fn lemma_total_nonneg(ds: Seq<int>)
    requires
        forall|i: int| 0 <= i < ds.len() ==> #[trigger] ds[i] >= 0,
    ensures
        total(ds) >= 0,
    decreases ds.len(),
{
    if ds.len() > 0 {
        let t = ds.drop_last();
        assert forall|i: int| 0 <= i < t.len() implies #[trigger] t[i] >= 0 by {
            assert(t[i] == ds[i]);
        }
        assert(ds.last() == ds[ds.len() - 1]);
        lemma_total_nonneg(t);
    }
}

/// After any frame, every obstacle still in play is on screen, and is one
/// of the obstacles the frame started with (or the one it spawned) moved
/// left by the frame's scroll: an evicted obstacle never comes back.
pub proof fn lemma_eviction(v: GameView, f: Frame, g: int)
    requires
        v.wf(),
        v.spawns_in(f) ==> in_window(v.blocks, f.height, g),
    ensures
        forall|i: int| 0 <= i < v.step(f, g).blocks.len() ==> visible(#[trigger] v.step(f, g).blocks[i], v.sizes.block_width),
        v.game_started && !v.player_died ==> forall|i: int| 0 <= i < v.step(f, g).blocks.len() ==> exists|j: int|
            0 <= j < v.spawned(f, g).len()
            && #[trigger] v.step(f, g).blocks[i] == shifted(v.spawned(f, g)[j], (f.delta_ms / SCROLL_DIVISOR) as int),
{
    let bw = v.sizes.block_width;
    if v.game_started && !v.player_died {
        let s = v.spawned(f, g);
        assert forall|i: int| 0 <= i < s.len() implies block_bounded(#[trigger] s[i], bw) by {
            if i < v.blocks.len() {
                assert(s[i] == v.blocks[i]);
                assert(block_ok(v.blocks[i], bw));
            } else {
                assert(window_low(v.blocks) >= MIN_GAP_CENTER);
                assert(window_high(v.blocks, f.height) <= f.height - GAP_BOTTOM_MARGIN);
            }
        }
        lemma_scrolled(s, (f.delta_ms / SCROLL_DIVISOR) as int, bw);
    } else {
        assert forall|i: int| 0 <= i < v.step(f, g).blocks.len() implies visible(#[trigger] v.step(f, g).blocks[i], bw) by {
            assert(block_ok(v.blocks[i], bw));
        }
    }
}

/// Once the player is dead, frames leave the world alone until a restart:
/// the score, the scroll, the obstacles and the spawn clock stay as they
/// are, and the player stays dead.
pub proof fn lemma_dead_frozen(v: GameView, f: Frame, g: int)
    requires
        v.player_died,
    ensures
        v.step(f, g).score == v.score,
        v.step(f, g).offset_x == v.offset_x,
        v.step(f, g).blocks == v.blocks,
        v.step(f, g).last_block == v.last_block,
        v.step(f, g).player_died,
{
}

} // verus!
