//! The visibility state machine and the score tally.
use kana_kilo::game::score::Score;
use kana_kilo::hide_state::HideState;

#[test]
fn hide_state_walks_the_fade_cycle() {
    let mut state = HideState::new_visible();
    assert!(!state.is_hidden());
    assert_eq!(state.as_string(), "Initial");
    assert_eq!(state.display_none(), None);

    // fade out, then drop from layout
    state.toggle();
    assert!(state.is_hidden());
    assert_eq!(state.as_string(), "Hidden");
    assert_eq!(state.display_none(), None);
    state.toggle_display_none();
    assert!(state.is_hidden());
    assert_eq!(state.display_none(), Some(String::from("display: none;")));

    // marked visible again, then restored to layout to fade in
    state.toggle();
    assert!(!state.is_hidden());
    assert_eq!(state.as_string(), "Visible");
    assert_eq!(state.display_none(), Some(String::from("display: none;")));
    state.toggle_display_none();
    assert_eq!(state.display_none(), None);
}

#[test]
fn hide_state_new_hidden_starts_out_of_layout() {
    let state = HideState::new_hidden();
    assert!(state.is_hidden());
    assert_eq!(state.as_string(), "Initial");
    assert_eq!(state.display_none(), Some(String::from("display: none;")));
}

#[test]
fn score_counts_answers_and_correct_answers() {
    let mut score = Score::default();
    assert_eq!((score.correct, score.total), (0, 0));
    score.tally(true);
    score.tally(false);
    score.tally(true);
    assert_eq!((score.correct, score.total), (2, 3));
    score.reset();
    assert_eq!((score.correct, score.total), (0, 0));
}
