//! What follows from the rules: facts about recording rolls and about scores.

use vstd::prelude::*;
use crate::frame::ints_of;
use crate::frame::FrameView;
use crate::frame::ALL_PINS;
use crate::scoring::frame_score;
use crate::scoring::frames_of;
use crate::scoring::in_range;
use crate::scoring::record_roll;
use crate::scoring::roll_at;
use crate::scoring::rolls_of;
use crate::scoring::score_by_frame;
use crate::scoring::scored_frames;
use crate::scoring::scores_fit;
use crate::scoring::sum_of_present;
use crate::scoring::total_score;
use crate::scoring::two_rolls_after;
use crate::scoring::well_formed;
use crate::scoring::MAX_FRAME_SCORE;
use crate::scoring::MAX_TOTAL_SCORE;
use crate::scoring::SCORED_FRAMES;

verus! {

/// With every roll between zero and ten pins, a frame that has a score has one
/// between zero and thirty.
pub proof fn lemma_frame_score_bounds(frames: Seq<FrameView>, frame_index: int)
    requires
        in_range(frames),
        0 <= frame_index < frames.len(),
    ensures
        frame_score(frames, frame_index) matches Some(points) ==> 0 <= points <= MAX_FRAME_SCORE,
{
    if frame_index + 1 < frames.len() {
        assert(frames[frame_index + 1].in_range());
    }
    if frame_index + 2 < frames.len() {
        assert(frames[frame_index + 2].in_range());
    }
    assert(frames[frame_index].in_range());
}

/// With every roll between zero and ten pins, every score fits in a byte.
pub proof fn lemma_in_range_scores_fit(frames: Seq<FrameView>)
    requires
        in_range(frames),
    ensures
        scores_fit(frames),
{
    assert forall|i: int| 0 <= i < scored_frames(frames) implies (#[trigger] frame_score(frames, i)
        matches Some(points) ==> points <= u8::MAX) by {
        lemma_frame_score_bounds(frames, i);
    }
}

/// A sum of scores that each lie between zero and `bound` lies between zero
/// and `bound` times their number.
pub proof fn lemma_sum_of_present_bounds(scores: Seq<Option<int>>, bound: int)
    requires
        0 <= bound,
        forall|i: int|
            0 <= i < scores.len() ==> (#[trigger] scores[i] matches Some(points) ==> 0 <= points
                <= bound),
    ensures
        0 <= sum_of_present(scores) <= bound * scores.len(),
    decreases scores.len(),
{
    if scores.len() > 0 {
        let init = scores.drop_last();
        assert forall|i: int| 0 <= i < init.len() implies (#[trigger] init[i] matches Some(points)
            ==> 0 <= points <= bound) by {
            assert(init[i] == scores[i]);
        }
        lemma_sum_of_present_bounds(init, bound);
        assert(scores.last() == scores[scores.len() - 1]);
        assert(bound * scores.len() == bound * init.len() + bound) by (nonlinear_arith)
            requires
                scores.len() == init.len() + 1,
        ;
    }
}

/// With every roll between zero and ten pins, the total of a game lies
/// between zero and three hundred.
pub proof fn lemma_total_score_bounds(frames: Seq<FrameView>)
    requires
        in_range(frames),
    ensures
        0 <= total_score(frames) <= MAX_TOTAL_SCORE,
{
    let scores = score_by_frame(frames);
    assert forall|i: int| 0 <= i < scores.len() implies (#[trigger] scores[i] matches Some(points)
        ==> 0 <= points <= MAX_FRAME_SCORE) by {
        lemma_frame_score_bounds(frames, i);
    }
    lemma_sum_of_present_bounds(scores, MAX_FRAME_SCORE as int);
    assert(MAX_FRAME_SCORE * scores.len() <= MAX_TOTAL_SCORE) by (nonlinear_arith)
        requires
            scores.len() <= SCORED_FRAMES,
    ;
}

/// A game in which nothing has been rolled has no frame scores and a total of zero.
pub proof fn lemma_empty_game_scores(frames: Seq<FrameView>)
    requires
        frames.len() == 0,
    ensures
        score_by_frame(frames) == Seq::<Option<int>>::empty(),
        total_score(frames) == 0,
{
    assert(score_by_frame(frames) =~= Seq::<Option<int>>::empty());
}

/// Never more than ten frames are scored, however many have been recorded.
pub proof fn lemma_scored_frames_capped(frames: Seq<FrameView>)
    ensures
        score_by_frame(frames).len() == scored_frames(frames),
        scored_frames(frames) <= SCORED_FRAMES,
        scored_frames(frames) <= frames.len(),
        frames.len() >= SCORED_FRAMES ==> scored_frames(frames) == SCORED_FRAMES,
{
}

/// Frames beyond the twelfth have no influence on any score: the tenth frame
/// looks ahead no further than the twelfth.
pub proof fn lemma_frames_past_twelfth_ignored(frames: Seq<FrameView>, kept: int)
    requires
        SCORED_FRAMES + 2 <= kept <= frames.len(),
    ensures
        score_by_frame(frames.take(kept)) == score_by_frame(frames),
        total_score(frames.take(kept)) == total_score(frames),
{
    assert(score_by_frame(frames.take(kept)) =~= score_by_frame(frames));
}

/// Reading the scores is repeatable: whatever two readings of the same frames
/// return, per frame and in total, is the same.
pub proof fn lemma_scores_repeatable(
    frames: Seq<FrameView>,
    first_scores: Seq<Option<u8>>,
    second_scores: Seq<Option<u8>>,
    first_total: u16,
    second_total: u16,
)
    requires
        ints_of(first_scores) == score_by_frame(frames),
        ints_of(second_scores) == score_by_frame(frames),
        first_total as int == total_score(frames),
        second_total as int == total_score(frames),
    ensures
        first_scores == second_scores,
        first_total == second_total,
{
    assert(first_scores.len() == ints_of(first_scores).len());
    assert(second_scores.len() == ints_of(second_scores).len());
    assert forall|i: int| 0 <= i < first_scores.len() implies first_scores[i]
        == second_scores[i] by {
        assert(ints_of(first_scores)[i] == ints_of(second_scores)[i]);
    }
    assert(first_scores =~= second_scores);
}

/// Recording a roll adds that roll, and nothing else, to the rolls of the game.
pub proof fn lemma_record_roll_appends(frames: Seq<FrameView>, pin_fell: int)
    ensures
        rolls_of(record_roll(frames, pin_fell)) == rolls_of(frames).push(pin_fell),
{
    let after = record_roll(frames, pin_fell);
    if frames.len() > 0 && !frames.last().is_complete() {
        assert(after.drop_last() =~= frames.drop_last());
        assert(after.last().rolls() =~= frames.last().rolls().push(pin_fell));
        assert(rolls_of(after) =~= rolls_of(frames).push(pin_fell));
    } else {
        assert(after.drop_last() =~= frames);
        assert(rolls_of(after) =~= rolls_of(frames).push(pin_fell));
    }
}

/// Recording a roll never removes a frame and never alters a complete one; it
/// adds at most one frame.
pub proof fn lemma_record_roll_keeps_complete_frames(frames: Seq<FrameView>, pin_fell: int)
    ensures
        frames.len() <= record_roll(frames, pin_fell).len() <= frames.len() + 1,
        forall|i: int|
            0 <= i < frames.len() && (#[trigger] frames[i]).is_complete() ==> record_roll(
                frames,
                pin_fell,
            )[i] == frames[i],
        forall|i: int|
            0 <= i < frames.len() ==> record_roll(frames, pin_fell)[i].first_roll
                == (#[trigger] frames[i]).first_roll,
{
}

/// Recording a roll keeps the frames well formed.
pub proof fn lemma_record_roll_well_formed(frames: Seq<FrameView>, pin_fell: int)
    requires
        well_formed(frames),
    ensures
        well_formed(record_roll(frames, pin_fell)),
{
}

/// Recording a roll of zero to ten pins keeps every roll in that range.
pub proof fn lemma_record_roll_in_range(frames: Seq<FrameView>, pin_fell: int)
    requires
        in_range(frames),
        0 <= pin_fell <= ALL_PINS,
    ensures
        in_range(record_roll(frames, pin_fell)),
{
}

/// The frames built from any sequence of rolls are well formed, and their
/// rolls are the rolls they were built from.
pub proof fn lemma_frames_of_rolls(rolls: Seq<int>)
    ensures
        well_formed(frames_of(rolls)),
        rolls_of(frames_of(rolls)) == rolls,
    decreases rolls.len(),
{
    if rolls.len() > 0 {
        let init = rolls.drop_last();
        lemma_frames_of_rolls(init);
        lemma_record_roll_well_formed(frames_of(init), rolls.last());
        lemma_record_roll_appends(frames_of(init), rolls.last());
        assert(init.push(rolls.last()) =~= rolls);
    } else {
        assert(rolls_of(frames_of(rolls)) =~= rolls);
    }
}

/// Well-formed frames are determined by their rolls: recording those rolls
/// one after the other in a new game gives the same frames again.
pub proof fn lemma_frames_of_their_rolls(frames: Seq<FrameView>)
    requires
        well_formed(frames),
    ensures
        frames_of(rolls_of(frames)) == frames,
    decreases frames.len(),
{
    if frames.len() > 0 {
        let init = frames.drop_last();
        let last = frames.last();
        lemma_frames_of_their_rolls(init);
        let opened = init.push(FrameView::new(last.first_roll));
        let first_rolls = rolls_of(init).push(last.first_roll);
        assert(first_rolls.drop_last() =~= rolls_of(init));
        assert(frames_of(first_rolls) == opened);
        match last.second_roll {
            Some(second) => {
                let both_rolls = first_rolls.push(second);
                assert(both_rolls.drop_last() =~= first_rolls);
                assert(rolls_of(frames) =~= both_rolls);
                assert(!last.is_strike());
                assert(record_roll(opened, second) =~= frames);
            },
            None => {
                assert(rolls_of(frames) =~= first_rolls);
                assert(opened =~= frames);
            },
        }
    } else {
        assert(frames_of(rolls_of(frames)) =~= frames);
    }
}

/// The rolls of two runs of frames played one after the other are the rolls
/// of the first run followed by those of the second.
pub proof fn lemma_rolls_of_concat(earlier: Seq<FrameView>, later: Seq<FrameView>)
    ensures
        rolls_of(earlier + later) == rolls_of(earlier) + rolls_of(later),
    decreases later.len(),
{
    if later.len() == 0 {
        assert(earlier + later =~= earlier);
        assert(rolls_of(earlier) + rolls_of(later) =~= rolls_of(earlier));
    } else {
        lemma_rolls_of_concat(earlier, later.drop_last());
        assert((earlier + later).drop_last() =~= earlier + later.drop_last());
        assert((earlier + later).last() == later.last());
        assert(rolls_of(earlier + later) =~= rolls_of(earlier) + rolls_of(later));
    }
}

/// The rolls of a single frame on its own are the rolls of that frame.
pub proof fn lemma_rolls_of_one_frame(frame: FrameView)
    ensures
        rolls_of(seq![frame]) == frame.rolls(),
{
    let alone = seq![frame];
    assert(alone.drop_last() =~= Seq::<FrameView>::empty());
    assert(rolls_of(alone.drop_last()) =~= Seq::<int>::empty());
    assert(rolls_of(alone) =~= frame.rolls());
}

/// The rolls that a frame's bonus looks ahead to are the first two rolls
/// thrown after that frame, as far as they have been thrown.
pub proof fn lemma_two_rolls_after_are_next_rolls(frames: Seq<FrameView>, frame_index: int)
    requires
        0 <= frame_index < frames.len(),
    ensures
        rolls_of(frames) == rolls_of(frames.take(frame_index + 1)) + rolls_of(
            frames.skip(frame_index + 1),
        ),
        two_rolls_after(frames, frame_index) == (
            roll_at(rolls_of(frames.skip(frame_index + 1)), 0),
            roll_at(rolls_of(frames.skip(frame_index + 1)), 1),
        ),
{
    let played = frames.take(frame_index + 1);
    let rest = frames.skip(frame_index + 1);
    assert(played + rest =~= frames);
    lemma_rolls_of_concat(played, rest);
    if rest.len() > 0 {
        let next = seq![rest[0]];
        let others = rest.skip(1);
        assert(next + others =~= rest);
        lemma_rolls_of_concat(next, others);
        lemma_rolls_of_one_frame(rest[0]);
        if others.len() > 0 {
            let following = seq![others[0]];
            assert(following + others.skip(1) =~= others);
            lemma_rolls_of_concat(following, others.skip(1));
            lemma_rolls_of_one_frame(others[0]);
        }
    }
}

/// Once a complete frame has a score, recording further rolls does not change it.
pub proof fn lemma_settled_score_is_final(frames: Seq<FrameView>, frame_index: int, pin_fell: int)
    requires
        0 <= frame_index < frames.len(),
        frames[frame_index].is_complete(),
        frame_score(frames, frame_index) is Some,
    ensures
        frame_score(record_roll(frames, pin_fell), frame_index) == frame_score(
            frames,
            frame_index,
        ),
{
}

} // verus!
