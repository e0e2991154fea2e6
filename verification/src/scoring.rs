//! The rules of the game, stated over sequences of frames.
//!
//! Nothing here is executable: these functions say what recording a roll does
//! to the frames of a game and what each frame is worth. The executable game
//! is specified against them.

use vstd::prelude::*;
use crate::frame::FrameView;

verus! {

/// Number of frames that are scored. Frames recorded beyond it only lend
/// their rolls as bonus to the frames before them.
pub const SCORED_FRAMES: usize = 10;

/// The highest score a single frame can earn: a strike followed by two strikes.
pub const MAX_FRAME_SCORE: u8 = 30;

/// The highest total of a game: ten frames of thirty.
pub const MAX_TOTAL_SCORE: u16 = 300;

/// The frames of a game after one more roll has been recorded: the roll
/// completes the last frame if that frame is still open, and opens a new frame
/// otherwise.
pub open spec fn record_roll(frames: Seq<FrameView>, pin_fell: int) -> Seq<FrameView> {
    if frames.len() > 0 && !frames.last().is_complete() {
        frames.update(frames.len() - 1, frames.last().set_second_roll(pin_fell))
    } else {
        frames.push(FrameView::new(pin_fell))
    }
}

/// The frames that result from recording `rolls` one after the other in a new game.
pub open spec fn frames_of(rolls: Seq<int>) -> Seq<FrameView>
    decreases rolls.len(),
{
    if rolls.len() == 0 {
        Seq::empty()
    } else {
        record_roll(frames_of(rolls.drop_last()), rolls.last())
    }
}

/// All rolls of the given frames, in the order in which they were thrown.
pub open spec fn rolls_of(frames: Seq<FrameView>) -> Seq<int>
    decreases frames.len(),
{
    if frames.len() == 0 {
        Seq::empty()
    } else {
        rolls_of(frames.drop_last()) + frames.last().rolls()
    }
}

/// The roll at position `index` of `rolls`, if that many rolls were thrown.
pub open spec fn roll_at(rolls: Seq<int>, index: int) -> Option<int> {
    if 0 <= index < rolls.len() {
        Some(rolls[index])
    } else {
        None
    }
}

/// Only the last frame may still be open, and no strike has a second roll.
/// This holds of the frames of every game.
pub open spec fn well_formed(frames: Seq<FrameView>) -> bool {
    &&& forall|i: int| 0 <= i < frames.len() - 1 ==> (#[trigger] frames[i]).is_complete()
    &&& forall|i: int|
        0 <= i < frames.len() && (#[trigger] frames[i]).is_strike() ==> frames[i].second_roll is None
}

/// Every roll of every frame felled between zero and ten pins.
pub open spec fn in_range(frames: Seq<FrameView>) -> bool {
    forall|i: int| 0 <= i < frames.len() ==> (#[trigger] frames[i]).in_range()
}

/// The two rolls thrown after the frame at `frame_index`, as far as they are
/// known. The first is the first roll of the next frame. The second is the
/// second roll of the next frame or, where that frame has none, the first roll
/// of the frame after it.
pub open spec fn two_rolls_after(frames: Seq<FrameView>, frame_index: int) -> (
    Option<int>,
    Option<int>,
) {
    let next = frame_index + 1;
    let first = if 0 <= next < frames.len() {
        Some(frames[next].first_roll)
    } else {
        None
    };
    let second = if 0 <= next < frames.len() && frames[next].second_roll is Some {
        frames[next].second_roll
    } else if 0 <= next + 1 < frames.len() {
        Some(frames[next + 1].first_roll)
    } else {
        None
    };
    (first, second)
}

/// The score of the frame at `frame_index` alone, or `None` while the rolls
/// that its bonus depends on have not been thrown.
pub open spec fn frame_score(frames: Seq<FrameView>, frame_index: int) -> Option<int> {
    frames[frame_index].get_score(two_rolls_after(frames, frame_index))
}

/// How many of the frames are scored: all of them, up to ten.
pub open spec fn scored_frames(frames: Seq<FrameView>) -> nat {
    if frames.len() <= SCORED_FRAMES {
        frames.len()
    } else {
        SCORED_FRAMES as nat
    }
}

/// Every score that can be determined so far fits in a byte. With every roll
/// between zero and ten pins this always holds.
pub open spec fn scores_fit(frames: Seq<FrameView>) -> bool {
    forall|i: int|
        0 <= i < scored_frames(frames) ==> (#[trigger] frame_score(frames, i) matches Some(points)
            ==> points <= u8::MAX)
}

/// The score of each scored frame, in frame order.
pub open spec fn score_by_frame(frames: Seq<FrameView>) -> Seq<Option<int>> {
    Seq::new(scored_frames(frames), |i: int| frame_score(frames, i))
}

/// The sum of the scores that are present.
pub open spec fn sum_of_present(scores: Seq<Option<int>>) -> int
    decreases scores.len(),
{
    if scores.len() == 0 {
        0
    } else {
        sum_of_present(scores.drop_last()) + match scores.last() {
            Some(points) => points,
            None => 0,
        }
    }
}

/// The total of a game: the sum of the frame scores that can be determined so far.
pub open spec fn total_score(frames: Seq<FrameView>) -> int {
    sum_of_present(score_by_frame(frames))
}

} // verus!
