use vstd::prelude::*;
use std::collections::HashMap;

verus! {

/// Easing curves between two values.
pub enum Transition {
    Linear,
    EaseIn,
    EaseInOut,
    EaseOut,
    EaseInCubic,
    EaseOutCubic,
    EaseInOutCubic,
}

/// The frames of an animation: for each animation type, its first frame and
/// its frame count; the type shown at first and the frame to start at.
#[verifier::reject_recursive_types(T)]
pub struct AnimationDef<T> {
    pub type_map: HashMap<T, (usize, usize)>,
    pub default: T,
    pub frame: usize,
}

/// The frame shown after `frame` by an animation of `count` frames that
/// start at `start`: the next one, and `start` again after the last one
/// (`start + count - 1`) or from outside the animation's frames.
pub open spec fn spec_next_frame(frame: int, start: int, count: int) -> int {
    if frame + 1 >= start + count {
        start
    } else {
        frame + 1
    }
}

/// The frame shown `ticks` ticks after `frame`.
pub open spec fn frame_after(frame: int, start: int, count: int, ticks: nat) -> int
    decreases ticks,
{
    if ticks == 0 {
        frame
    } else {
        spec_next_frame(frame_after(frame, start, count, (ticks - 1) as nat), start, count)
    }
}

/// An animation cycles through its frames: from its first frame, `k` ticks
/// later it shows frame `start + k` for every `k` below the frame count, and
/// after as many ticks as it has frames it shows its first frame again.
pub proof fn lemma_animation_cycles(start: int, count: int, k: nat)
    requires
        count >= 1,
        k <= count,
    ensures
        k < count ==> frame_after(start, start, count, k) == start + k,
        k == count ==> frame_after(start, start, count, k) == start,
    decreases k,
{
    if k > 0 {
        lemma_animation_cycles(start, count, (k - 1) as nat);
    }
}

/// Advances the frame of an animation by one tick.
pub fn next_frame(frame: usize, start: usize, count: usize) -> (r: usize)
    requires
        start + count <= usize::MAX,
    ensures
        r == spec_next_frame(frame as int, start as int, count as int),
        start <= frame < start + count ==> start <= r < start + count,
{
    if frame < start + count && frame + 1 < start + count {
        frame + 1
    } else {
        start
    }
}

/// The cell of the sprite sheet, `width` cells wide, that shows `frame`:
/// its column and its row.
pub fn frame_cell(frame: usize, width: usize) -> (r: (usize, usize))
    requires
        width > 0,
    ensures
        r.0 == frame % width,
        r.1 == frame / width,
        r.0 < width,
        r.1 * width + r.0 == frame,
{
    let r = (frame % width, frame / width);
    assert(r.1 * width + r.0 == frame) by (nonlinear_arith)
        requires
            width > 0,
            r.0 == frame % width,
            r.1 == frame / width,
    ;
    r
}

} // verus!
