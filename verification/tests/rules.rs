use bowling::BowlingGame;

fn game_of(rolls: &[u8]) -> BowlingGame {
    let mut game = BowlingGame::new();
    for pin_fell in rolls {
        game.roll(*pin_fell);
    }
    game
}

#[test]
fn default_game_is_empty() {
    let game = BowlingGame::default();
    assert_eq!(game.get_score_by_frame(), Vec::<Option<u8>>::new());
    assert_eq!(game.get_total_score(), 0);
    assert_eq!(game.get_two_rolls_after(0), (None, None));
}

#[test]
fn second_roll_joins_the_open_frame() {
    let game = game_of(&[4, 5]);
    assert_eq!(game.get_score_by_frame().len(), 1);
}

#[test]
fn roll_after_a_complete_frame_opens_a_new_one() {
    let game = game_of(&[4, 5, 6]);
    assert_eq!(game.get_score_by_frame(), vec![Some(9), Some(6)]);
}

#[test]
fn roll_after_a_strike_opens_a_new_frame() {
    let game = game_of(&[10, 0]);
    assert_eq!(game.get_score_by_frame().len(), 2);
}

#[test]
fn gutter_rolls_fill_frames_in_pairs() {
    let game = game_of(&[0, 0, 0, 0, 0]);
    assert_eq!(game.get_score_by_frame(), vec![Some(0), Some(0), Some(0)]);
    assert_eq!(game.get_total_score(), 0);
}

#[test]
fn lookahead_of_the_last_frame_is_empty() {
    let game = game_of(&[10, 3, 4]);
    assert_eq!(game.get_two_rolls_after(1), (None, None));
    assert_eq!(game.get_two_rolls_after(2), (None, None));
    assert_eq!(game.get_two_rolls_after(usize::MAX), (None, None));
}

#[test]
fn lookahead_takes_both_rolls_of_the_next_frame() {
    let game = game_of(&[10, 3, 4, 5]);
    assert_eq!(game.get_two_rolls_after(0), (Some(3), Some(4)));
}

#[test]
fn lookahead_reaches_into_the_frame_after_a_strike() {
    let game = game_of(&[10, 10, 6]);
    assert_eq!(game.get_two_rolls_after(0), (Some(10), Some(6)));
    assert_eq!(game.get_two_rolls_after(1), (Some(6), None));
}

#[test]
fn lookahead_into_an_open_frame_knows_one_roll() {
    let game = game_of(&[3, 7, 2]);
    assert_eq!(game.get_two_rolls_after(0), (Some(2), None));
}

#[test]
fn strike_then_spare() {
    let game = game_of(&[10, 4, 6, 5]);
    assert_eq!(game.get_score_by_frame(), vec![Some(20), Some(15), Some(5)]);
    assert_eq!(game.get_total_score(), 40);
}

#[test]
fn spare_followed_by_a_strike() {
    let game = game_of(&[5, 5, 10]);
    assert_eq!(game.get_score_by_frame(), vec![Some(20), None]);
    assert_eq!(game.get_total_score(), 20);
}

#[test]
fn open_frame_that_turns_into_a_spare_loses_its_score() {
    let mut game = game_of(&[3]);
    assert_eq!(game.get_total_score(), 3);
    game.roll(7);
    assert_eq!(game.get_score_by_frame(), vec![None]);
    assert_eq!(game.get_total_score(), 0);
}

#[test]
fn score_of_a_complete_frame_stays_once_known() {
    let mut game = game_of(&[10, 3, 4]);
    let before = game.get_score_by_frame();
    assert_eq!(before[0], Some(17));
    assert_eq!(before[1], Some(7));
    for pin_fell in [10, 2, 8, 0, 9] {
        game.roll(pin_fell);
        let after = game.get_score_by_frame();
        assert_eq!(after[0], Some(17));
        assert_eq!(after[1], Some(7));
    }
}

#[test]
fn reading_twice_gives_the_same_scores() {
    let game = game_of(&[10, 3, 7, 4, 2, 10, 10, 1]);
    let first_scores = game.get_score_by_frame();
    let first_total = game.get_total_score();
    let second_scores = game.get_score_by_frame();
    let second_total = game.get_total_score();
    assert_eq!(first_scores, second_scores);
    assert_eq!(first_total, second_total);
    assert_eq!(first_scores, vec![Some(20), Some(14), Some(6), Some(21), None, Some(1)]);
    assert_eq!(first_total, 62);
}

#[test]
fn no_more_than_ten_frames_are_scored() {
    let mut game = BowlingGame::new();
    for played in 1..=30usize {
        game.roll(10);
        let expected = if played < 10 { played } else { 10 };
        assert_eq!(game.get_score_by_frame().len(), expected);
    }
}

#[test]
fn frames_past_the_twelfth_change_nothing() {
    let mut game = game_of(&[10; 12]);
    let scores = game.get_score_by_frame();
    let total = game.get_total_score();
    for pin_fell in [10, 3, 4, 0, 10] {
        game.roll(pin_fell);
        assert_eq!(game.get_score_by_frame(), scores);
        assert_eq!(game.get_total_score(), total);
    }
}

#[test]
fn tenth_frame_strike_waits_for_two_more_frames() {
    let mut game = game_of(&[10; 10]);
    assert_eq!(game.get_score_by_frame()[9], None);
    assert_eq!(game.get_total_score(), 240);
    game.roll(10);
    assert_eq!(game.get_score_by_frame()[9], None);
    assert_eq!(game.get_total_score(), 270);
    game.roll(10);
    assert_eq!(game.get_score_by_frame()[9], Some(30));
    assert_eq!(game.get_total_score(), 300);
}

#[test]
fn twenty_open_rolls_fill_ten_frames() {
    let game = game_of(&[4, 5, 4, 5, 4, 5, 4, 5, 4, 5, 4, 5, 4, 5, 4, 5, 4, 5, 4, 5]);
    assert_eq!(game.get_score_by_frame(), vec![Some(9); 10]);
    assert_eq!(game.get_total_score(), 90);
}

#[test]
fn eleventh_frame_is_not_reported() {
    let game = game_of(&[4, 5, 4, 5, 4, 5, 4, 5, 4, 5, 4, 5, 4, 5, 4, 5, 4, 5, 4, 5, 7, 1]);
    assert_eq!(game.get_score_by_frame(), vec![Some(9); 10]);
    assert_eq!(game.get_total_score(), 90);
}

#[test]
fn all_spares_with_a_final_bonus_roll() {
    let game = game_of(&[5; 21]);
    assert_eq!(game.get_score_by_frame(), vec![Some(15); 10]);
    assert_eq!(game.get_total_score(), 150);
}

#[test]
fn pin_counts_over_ten_are_taken_as_given() {
    let game = game_of(&[11, 5, 20]);
    assert_eq!(game.get_score_by_frame(), vec![Some(16), Some(20)]);
    assert_eq!(game.get_total_score(), 36);
}

#[test]
fn frame_sums_over_ten_are_taken_as_given() {
    let game = game_of(&[8, 8, 9, 9]);
    assert_eq!(game.get_score_by_frame(), vec![Some(16), Some(18)]);
    assert_eq!(game.get_total_score(), 34);
}

#[test]
fn total_counts_each_known_frame_once() {
    let game = game_of(&[10, 10, 4, 2]);
    assert_eq!(game.get_score_by_frame(), vec![Some(24), Some(16), Some(6)]);
    assert_eq!(game.get_total_score(), 46);
}
