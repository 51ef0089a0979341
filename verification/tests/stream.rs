//! The practice line: sampling, matching, advancement, resampling.
use kana_kilo::game::kana::{Content, ContentGenerator, ContentState, KanaLine};
use kana_kilo::translations::{KanaTranslation, KanaTranslationList};

fn entry(kana: &str, romanji: &str, alt: Option<&str>) -> KanaTranslation {
    KanaTranslation {
        kana: String::from(kana),
        romanji: String::from(romanji),
        alt_romanji: alt.map(String::from),
    }
}

#[test]
fn generator_without_translations_yields_nothing() {
    let generator = ContentGenerator::default();
    assert!(generator.random().is_none());
}

#[test]
fn generator_samples_only_listed_translations() {
    let translations: KanaTranslationList =
        vec![entry("きゃ", "kya", None), entry("ん", "n", None)];
    let mut generator = ContentGenerator::default();
    generator.set_translations(translations);
    for _ in 0..32 {
        let content = generator.random().unwrap();
        assert!(content.translation.kana == "きゃ" || content.translation.kana == "ん");
        assert!(matches!(content.state, ContentState::Unanswered));
        assert_eq!(content.size, content.translation.kana.chars().count());
    }
}

#[test]
fn ambiguous_symbol_answers_on_any_non_empty_text() {
    let mut content = Content::new(entry("ん", "n", None));
    content.check(String::from("x"));
    assert!(matches!(content.state, ContentState::Answered(false)));

    let mut content = Content::new(entry("あ", "a", None));
    content.check(String::from("a"));
    assert!(matches!(content.state, ContentState::Answered(true)));
}

#[test]
fn shorter_text_never_transitions_a_multi_character_answer() {
    let mut content = Content::new(entry("きゃ", "kya", None));
    content.check(String::from("k"));
    assert!(matches!(content.state, ContentState::Unanswered));
    content.check(String::from("ky"));
    assert!(matches!(content.state, ContentState::Unanswered));
    content.check(String::from("kya"));
    assert!(matches!(content.state, ContentState::Answered(true)));
}

#[test]
fn same_length_mismatch_answers_incorrectly() {
    let mut content = Content::new(entry("きゃ", "kya", None));
    content.check(String::from("kyo"));
    assert!(matches!(content.state, ContentState::Answered(false)));
}

#[test]
fn alternate_answer_counts_as_correct() {
    let mut content = Content::new(entry("じ", "ji", Some("zi")));
    content.check(String::from("zi"));
    assert!(matches!(content.state, ContentState::Answered(true)));
}

#[test]
fn empty_text_never_transitions() {
    let mut content = Content::new(entry("ん", "n", None));
    content.check(String::new());
    assert!(matches!(content.state, ContentState::Unanswered));
}

#[test]
fn answered_state_is_terminal() {
    let mut content = Content::new(entry("ん", "n", None));
    content.check(String::from("n"));
    assert!(matches!(content.state, ContentState::Answered(true)));
    // a later check can never overwrite the stored correctness
    content.check(String::from("x"));
    assert!(matches!(content.state, ContentState::Answered(true)));
}

#[test]
fn single_symbol_window_end_to_end() {
    // active set {"ん"}, window of three
    let mut line = KanaLine::new(3);
    line.reinitialize(vec![entry("ん", "n", None)], false);
    assert_eq!(line.contents.len(), 3);
    for content in &line.contents {
        assert_eq!(content.translation.kana, "ん");
        assert!(matches!(content.state, ContentState::Unanswered));
    }
    // any single character answers the first item immediately
    let outcome = line.check("a");
    assert_eq!(outcome, Some(false));
    assert_eq!(line.index, 1);
    assert!(matches!(line.contents[0].state, ContentState::Answered(false)));
    assert!(matches!(line.contents[1].state, ContentState::Unanswered));
    assert!(matches!(line.contents[2].state, ContentState::Unanswered));
    // the correct answer on the next item; the advanced cursor reaches
    // half the window, so the front third (one item) is evicted
    let outcome = line.check("n");
    assert_eq!(outcome, Some(true));
    assert_eq!(line.contents.len(), 3);
    assert_eq!(line.index, 1);
    assert!(matches!(line.contents[0].state, ContentState::Answered(true)));
    assert!(matches!(line.contents[1].state, ContentState::Unanswered));
    assert!(matches!(line.contents[2].state, ContentState::Unanswered));
}

#[test]
fn matching_is_case_insensitive() {
    let mut line = KanaLine::new(2);
    line.reinitialize(vec![entry("ん", "n", None)], false);
    // "N" lowercases to the primary answer; if the input were matched
    // unlowered this would answer incorrectly
    assert_eq!(line.check("N"), Some(true));
}

#[test]
fn empty_selection_leaves_the_window_empty() {
    let mut line = KanaLine::new(5);
    line.reinitialize(Vec::new(), false);
    assert_eq!(line.contents.len(), 0);
    assert_eq!(line.check("a"), None);
    assert_eq!(line.index, 0);
}

#[test]
fn hiding_clears_the_window() {
    let mut line = KanaLine::new(5);
    line.reinitialize(vec![entry("ん", "n", None)], false);
    assert_eq!(line.contents.len(), 5);
    line.reinitialize(vec![entry("ん", "n", None)], true);
    assert_eq!(line.contents.len(), 0);
    assert_eq!(line.index, 0);
}

#[test]
fn answering_into_the_middle_slides_the_window() {
    let mut line = KanaLine::new(6);
    line.reinitialize(vec![entry("ん", "n", None)], false);
    // the first two answers leave the cursor short of the middle
    assert_eq!(line.check("n"), Some(true));
    assert_eq!(line.check("n"), Some(true));
    assert_eq!(line.index, 2);
    assert_eq!(line.contents.len(), 6);
    // the third answer advances the cursor to the middle: a third of the
    // window (two items) is evicted from the front, replaced at the back,
    // and the cursor follows its logical item
    assert_eq!(line.check("n"), Some(true));
    assert_eq!(line.contents.len(), 6);
    assert_eq!(line.index, 1);
    assert!(matches!(line.contents[0].state, ContentState::Answered(true)));
    for content in &line.contents[1..] {
        assert!(matches!(content.state, ContentState::Unanswered));
    }
}

#[test]
fn resample_evicts_the_front_third_when_triggered() {
    // a window of six with the cursor at the middle, built directly
    let mut generator = ContentGenerator::default();
    generator.set_translations(vec![entry("ん", "n", None)]);
    let mut contents = Vec::new();
    for i in 0..6 {
        let mut content = Content::new(entry("ん", "n", None));
        if i < 3 {
            content.check(String::from("n"));
        }
        contents.push(content);
    }
    let mut line = KanaLine {
        length: 6,
        content_generator: generator,
        contents,
        index: 3,
        shifted: false,
    };
    assert!(line.resample());
    assert_eq!(line.contents.len(), 6);
    assert_eq!(line.index, 1);
    assert!(matches!(line.contents[0].state, ContentState::Answered(true)));
    for content in &line.contents[1..] {
        assert!(matches!(content.state, ContentState::Unanswered));
    }
}

#[test]
fn resample_below_the_middle_does_nothing() {
    let mut line = KanaLine::new(6);
    line.reinitialize(vec![entry("ん", "n", None)], false);
    assert_eq!(line.check("n"), Some(true));
    assert_eq!(line.index, 1);
    let slid = line.resample();
    assert!(!slid);
    assert_eq!(line.contents.len(), 6);
    assert_eq!(line.index, 1);
}

#[test]
fn unanswered_keystroke_only_clears_the_shifted_mark() {
    let mut line = KanaLine::new(4);
    line.reinitialize(vec![entry("きゃ", "kya", None)], false);
    assert_eq!(line.check("kya"), Some(true));
    assert!(line.shifted);
    // a keystroke that does not answer leaves the window and cursor alone
    assert_eq!(line.check("k"), None);
    assert!(!line.shifted);
    assert_eq!(line.contents.len(), 4);
    assert_eq!(line.index, 1);
}

#[test]
fn geometry_tracks_widths_in_half_units() {
    let mut line = KanaLine::new(3);
    line.reinitialize(vec![entry("きゃ", "kya", None)], false);
    // three items of width two
    assert_eq!(line.get_width(), 6);
    // cursor at the front: half the first item's width
    assert_eq!(line.get_margin_halves(), 2);
    assert_eq!(line.check("kya"), Some(true));
    // one full item plus half of the current one
    assert_eq!(line.get_margin_halves(), 2 * 2 + 2);
}

#[test]
fn empty_window_has_no_geometry() {
    let line = KanaLine::new(3);
    assert_eq!(line.get_width(), 0);
    assert_eq!(line.get_margin_halves(), 0);
}
