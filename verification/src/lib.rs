//! Ten-pin bowling score keeping.
//!
//! A [`BowlingGame`] records rolls one at a time, groups them into frames and
//! reports, on demand, the score of each of the first ten frames and their sum.
//! Strike and spare bonuses look ahead to the rolls that follow a frame; a
//! frame whose bonus rolls have not been thrown yet has no score.

pub mod frame;
pub mod game;
pub mod lemmas;
pub mod scoring;

pub use frame::Frame;
pub use game::BowlingGame;
pub use frame::FrameView;
