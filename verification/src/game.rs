//! The game itself: records rolls and reports scores.

use vstd::prelude::*;
use crate::frame::ints_of;
use crate::frame::lookahead;
use crate::frame::Frame;
use crate::frame::FrameView;
use crate::frame::ALL_PINS;
use crate::lemmas::lemma_record_roll_appends;
use crate::lemmas::lemma_total_score_bounds;
use crate::scoring::in_range;
use crate::scoring::record_roll;
use crate::scoring::rolls_of;
use crate::scoring::score_by_frame;
use crate::scoring::scored_frames;
use crate::scoring::scores_fit;
use crate::scoring::sum_of_present;
use crate::scoring::total_score;
use crate::scoring::two_rolls_after;
use crate::scoring::well_formed;
use crate::scoring::MAX_TOTAL_SCORE;
use crate::scoring::SCORED_FRAMES;
use crate::scoring::frame_score;

verus! {

/// A game of ten-pin bowling in progress: the frames played so far, in order of play.
pub struct BowlingGame {
    frames: Vec<Frame>,
}

impl View for BowlingGame {
    type V = Seq<FrameView>;

    closed spec fn view(&self) -> Seq<FrameView> {
        self.frames@.map_values(|frame: Frame| frame@)
    }
}

impl BowlingGame {
    /// The structural invariant of a game: see [`well_formed`].
    pub open spec fn wf(&self) -> bool {
        well_formed(self@)
    }

    /// Every roll recorded so far felled at most ten pins.
    pub open spec fn in_range(&self) -> bool {
        in_range(self@)
    }

    /// Every score that can be determined so far fits in a byte: see [`scores_fit`].
    pub open spec fn scores_fit(&self) -> bool {
        scores_fit(self@)
    }

    /// The rolls recorded so far, in the order in which they were thrown.
    pub open spec fn rolls(&self) -> Seq<int> {
        rolls_of(self@)
    }

    /// A game in which nothing has been rolled yet.
    pub fn new() -> (game: BowlingGame)
        ensures
            game@ == Seq::<FrameView>::empty(),
            game.wf(),
            game.in_range(),
    {
        BowlingGame { frames: Vec::new() }
    }

    /// Records one roll that felled `pin_fell` pins. The pin count is taken as
    /// given: nothing is rejected.
    pub fn roll(&mut self, pin_fell: u8)
        ensures
            final(self)@ == record_roll(old(self)@, pin_fell as int),
            final(self).rolls() == old(self).rolls().push(pin_fell as int),
            old(self).wf() ==> final(self).wf(),
            old(self).in_range() && pin_fell <= ALL_PINS ==> final(self).in_range(),
    {
        let count: usize = self.frames.len();
        if count > 0 && !self.frames[count - 1].is_complete() {
            self.frames[count - 1].set_second_roll(pin_fell);
        } else {
            self.frames.push(Frame::new(pin_fell));
        }
        assert(self@ =~= record_roll(old(self)@, pin_fell as int));
        proof {
            lemma_record_roll_appends(old(self)@, pin_fell as int);
        }
    }

    /// The score of each of the first ten frames, in frame order. An entry is
    /// `None` while the rolls that the frame's bonus depends on have not been
    /// thrown; otherwise it is the score of that frame alone.
    pub fn get_score_by_frame(&self) -> (scores: Vec<Option<u8>>)
        requires
            self.scores_fit(),
        ensures
            ints_of(scores@) == score_by_frame(self@),
            scores@.len() == scored_frames(self@),
            scores@.len() <= SCORED_FRAMES,
    {
        let count: usize = if self.frames.len() < SCORED_FRAMES {
            self.frames.len()
        } else {
            SCORED_FRAMES
        };
        let mut scores: Vec<Option<u8>> = Vec::new();
        let mut index: usize = 0;
        while index < count
            invariant
                self.scores_fit(),
                count == scored_frames(self@),
                index <= count,
                scores@.len() == index,
                forall|i: int|
                    0 <= i < index ==> ints_of(scores@)[i] == #[trigger] frame_score(self@, i),
            decreases count - index,
        {
            assert(frame_score(self@, index as int) matches Some(points) ==> points <= u8::MAX);
            let score: Option<u8> = self.frames[index].get_score(self.get_two_rolls_after(index));
            scores.push(score);
            index += 1;
        }
        assert(ints_of(scores@) =~= score_by_frame(self@));
        scores
    }

    /// The sum of the frame scores that can be determined so far. A frame
    /// without a score contributes nothing.
    pub fn get_total_score(&self) -> (total: u16)
        requires
            self.scores_fit(),
        ensures
            total as int == total_score(self@),
            self.in_range() ==> total <= MAX_TOTAL_SCORE,
    {
        let scores: Vec<Option<u8>> = self.get_score_by_frame();
        let ghost points = ints_of(scores@);
        let mut total: u16 = 0;
        let mut index: usize = 0;
        while index < scores.len()
            invariant
                points == ints_of(scores@),
                points == score_by_frame(self@),
                scores@.len() == scored_frames(self@),
                index <= scores.len() <= SCORED_FRAMES,
                total as int == sum_of_present(points.take(index as int)),
                total <= u8::MAX * index,
            decreases scores.len() - index,
        {
            proof {
                assert(points.take(index as int + 1).drop_last() =~= points.take(index as int));
            }
            match scores[index] {
                Some(score) => {
                    total += score as u16;
                },
                None => {},
            }
            index += 1;
        }
        proof {
            assert(points.take(index as int) =~= points);
            if self.in_range() {
                lemma_total_score_bounds(self@);
            }
        }
        total
    }

    /// The two rolls thrown after the frame at `frame_index`, as far as they are known.
    pub fn get_two_rolls_after(&self, frame_index: usize) -> (next_two_rolls: (
        Option<u8>,
        Option<u8>,
    ))
        ensures
            lookahead(next_two_rolls) == two_rolls_after(self@, frame_index as int),
    {
        let count: usize = self.frames.len();
        if frame_index >= count || count - frame_index < 2 {
            return (None, None);
        }
        let next = &self.frames[frame_index + 1];
        let first_roll: Option<u8> = Some(next.first_roll());
        let second_roll: Option<u8> = match next.second_roll() {
            Some(second) => Some(second),
            None => if count - frame_index > 2 {
                Some(self.frames[frame_index + 2].first_roll())
            } else {
                None
            },
        };
        (first_roll, second_roll)
    }
}

impl Default for BowlingGame {
    /// A game in which nothing has been rolled yet.
    fn default() -> (game: Self)
        ensures
            game@ == Seq::<FrameView>::empty(),
            game.wf(),
            game.in_range(),
    {
        Self::new()
    }
}

} // verus!
