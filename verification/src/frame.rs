//! A single frame: one or two rolls, and the score it earns.

use vstd::prelude::*;

verus! {

/// Number of pins standing at the start of a frame.
pub const ALL_PINS: u8 = 10;

/// The mathematical content of a frame: the pins felled by its first roll and,
/// once it has been thrown, by its second.
pub struct FrameView {
    pub first_roll: int,
    pub second_roll: Option<int>,
}

/// A pin count or a score that may be absent, read as a mathematical integer.
pub open spec fn int_of(value: Option<u8>) -> Option<int> {
    match value {
        Some(v) => Some(v as int),
        None => None,
    }
}

/// A sequence of pin counts or scores, each read as a mathematical integer.
pub open spec fn ints_of(values: Seq<Option<u8>>) -> Seq<Option<int>> {
    values.map_values(|value: Option<u8>| int_of(value))
}

/// The pair of rolls that follow a frame, read as mathematical integers.
pub open spec fn lookahead(next_two_rolls: (Option<u8>, Option<u8>)) -> (Option<int>, Option<int>) {
    (int_of(next_two_rolls.0), int_of(next_two_rolls.1))
}

impl FrameView {
    /// The frame opened by a first roll of `first_roll` pins.
    pub open spec fn new(first_roll: int) -> FrameView {
        FrameView { first_roll, second_roll: None }
    }

    /// The same frame with `second_roll` recorded as its second roll.
    pub open spec fn set_second_roll(self, second_roll: int) -> FrameView {
        FrameView { first_roll: self.first_roll, second_roll: Some(second_roll) }
    }

    /// The first roll felled every pin.
    pub open spec fn is_strike(self) -> bool {
        self.first_roll == ALL_PINS
    }

    /// Pins felled by the rolls recorded so far.
    pub open spec fn pin_sum(self) -> int {
        self.first_roll + match self.second_roll {
            Some(second) => second,
            None => 0,
        }
    }

    /// The rolls of the frame together felled every pin, and the first alone did not.
    pub open spec fn is_spare(self) -> bool {
        !self.is_strike() && self.pin_sum() == ALL_PINS
    }

    /// The rolls of the frame, in the order in which they were thrown.
    pub open spec fn rolls(self) -> Seq<int> {
        match self.second_roll {
            Some(second) => seq![self.first_roll, second],
            None => seq![self.first_roll],
        }
    }

    /// No further roll belongs to this frame.
    pub open spec fn is_complete(self) -> bool {
        self.second_roll is Some || self.is_strike()
    }

    /// Every recorded pin count lies between zero and ten.
    pub open spec fn in_range(self) -> bool {
        &&& 0 <= self.first_roll <= ALL_PINS
        &&& self.second_roll matches Some(second) ==> 0 <= second <= ALL_PINS
    }

    /// The score of the frame, given the two rolls that follow it. A strike
    /// earns ten plus both following rolls and has no score until both are
    /// known; a spare earns ten plus the first following roll and has no score
    /// until that one is known; any other frame earns the pins it felled.
    pub open spec fn get_score(self, next_two_rolls: (Option<int>, Option<int>)) -> Option<int> {
        if self.is_strike() {
            match next_two_rolls {
                (Some(roll1), Some(roll2)) => Some(ALL_PINS + roll1 + roll2),
                _ => None,
            }
        } else if self.is_spare() {
            match next_two_rolls {
                (Some(roll1), _) => Some(ALL_PINS + roll1),
                _ => None,
            }
        } else {
            Some(self.pin_sum())
        }
    }
}

/// One frame of a game.
pub struct Frame {
    first_roll: u8,
    second_roll: Option<u8>,
}

impl View for Frame {
    type V = FrameView;

    closed spec fn view(&self) -> FrameView {
        FrameView { first_roll: self.first_roll as int, second_roll: int_of(self.second_roll) }
    }
}

impl Frame {
    /// Opens a frame with its first roll.
    pub fn new(first_roll: u8) -> (frame: Frame)
        ensures
            frame@ == FrameView::new(first_roll as int),
    {
        Frame { first_roll, second_roll: None }
    }

    /// Records the second roll of the frame.
    pub fn set_second_roll(&mut self, second_roll: u8)
        ensures
            final(self)@ == old(self)@.set_second_roll(second_roll as int),
    {
        self.second_roll = Some(second_roll)
    }

    /// Pins felled by the first roll.
    pub fn first_roll(&self) -> (first: u8)
        ensures
            first as int == self@.first_roll,
    {
        self.first_roll
    }

    /// Pins felled by the second roll, once it has been thrown.
    pub fn second_roll(&self) -> (second: Option<u8>)
        ensures
            int_of(second) == self@.second_roll,
    {
        self.second_roll
    }

    /// Whether no further roll belongs to this frame.
    pub fn is_complete(&self) -> (complete: bool)
        ensures
            complete == self@.is_complete(),
    {
        self.second_roll.is_some() || self.is_strike()
    }

    /// Whether the first roll felled every pin.
    pub fn is_strike(&self) -> (strike: bool)
        ensures
            strike == self@.is_strike(),
    {
        self.first_roll == ALL_PINS
    }

    /// Whether the rolls of the frame together felled every pin, and the
    /// first alone did not.
    pub fn is_spare(&self) -> (spare: bool)
        ensures
            spare == self@.is_spare(),
    {
        let second: u8 = self.second_roll.unwrap_or(0);
        !self.is_strike() && self.first_roll as u16 + second as u16 == ALL_PINS as u16
    }

    /// Scores the frame from the two rolls that follow it. The score has to
    /// fit in a byte, which it does whenever no roll felled more than ten pins.
    pub fn get_score(&self, next_two_rolls: (Option<u8>, Option<u8>)) -> (score: Option<u8>)
        requires
            self@.get_score(lookahead(next_two_rolls)) matches Some(points) ==> points <= u8::MAX,
        ensures
            int_of(score) == self@.get_score(lookahead(next_two_rolls)),
    {
        if self.is_strike() {
            return match next_two_rolls {
                (Some(roll1), Some(roll2)) => Some(ALL_PINS + roll1 + roll2),
                _ => None,
            };
        }
        if self.is_spare() {
            return match next_two_rolls {
                (Some(roll1), _) => Some(ALL_PINS + roll1),
                _ => None,
            };
        }
        Some(self.first_roll + self.second_roll.unwrap_or(0))
    }
}

} // verus!
