//! The hierarchical selection tree: derived activity, toggles, void leaves.
use kana_kilo::kana::button::KanaButton;
use kana_kilo::kana::chart::KanaChart;
use kana_kilo::kana::enums::{ChartVersion, SyllabaryVersion};
use kana_kilo::kana::row::KanaRow;
use kana_kilo::kana::screen::{KanaMessage, KanaSelector};
use kana_kilo::kana::syllabary::KanaSyllabary;

const HIRAGANA_BASIC: [&str; 46] = [
    "あ", "い", "う", "え", "お", "か", "き", "く", "け", "こ", "さ", "し", "す", "せ", "そ",
    "た", "ち", "つ", "て", "と", "な", "に", "ぬ", "ね", "の", "は", "ひ", "ふ", "へ", "ほ",
    "ま", "み", "む", "め", "も", "や", "ゆ", "よ", "ら", "り", "る", "れ", "ろ", "わ", "を",
    "ん",
];

#[test]
fn selector_starts_with_basic_hiragana_selected() {
    let selector = KanaSelector::new();
    let selected = selector.get_selected_kana();
    assert_eq!(selected, HIRAGANA_BASIC.to_vec());
}

#[test]
fn void_button_never_becomes_active() {
    let mut button = KanaButton::new(" ");
    assert!(!button.is_active());
    button.toggle();
    assert!(!button.is_active());
    button.set_active(true);
    assert!(!button.is_active());
    button.toggle();
    assert!(!button.is_active());
}

#[test]
fn kana_button_toggles_between_active_and_inactive() {
    let mut button = KanaButton::new("き");
    assert!(!button.is_active());
    button.toggle();
    assert!(button.is_active());
    button.toggle();
    assert!(!button.is_active());
}

#[test]
fn row_toggle_selects_all_non_void_symbols_or_none() {
    let mut row = KanaRow::new("や ゆ よ");
    assert!(!row.is_active());
    assert_eq!(row.get_selected_kana(), Vec::<String>::new());
    row.toggle();
    assert!(row.is_active());
    // the two space placeholders are void and stay out
    assert_eq!(row.get_selected_kana(), vec!["や", "ゆ", "よ"]);
    row.toggle();
    assert!(!row.is_active());
    assert_eq!(row.get_selected_kana(), Vec::<String>::new());
}

#[test]
fn row_with_one_active_button_counts_as_active() {
    let mut row = KanaRow::new("あいうえお");
    row.buttons[2].toggle();
    assert!(row.is_active());
    assert_eq!(row.get_selected_kana(), vec!["う"]);
}

#[test]
fn chart_toggle_is_the_complement_of_its_previous_selection() {
    let mut chart = KanaChart::new(ChartVersion::Basic, SyllabaryVersion::Hirigana);
    assert!(!chart.is_active());
    chart.toggle();
    assert!(chart.is_active());
    assert_eq!(chart.get_selected_kana(), HIRAGANA_BASIC.to_vec());
    // a partially selected chart still empties out completely
    chart.rows[0].toggle();
    assert!(chart.is_active());
    chart.toggle();
    assert!(!chart.is_active());
    assert_eq!(chart.get_selected_kana(), Vec::<String>::new());
}

#[test]
fn syllabary_aggregates_chart_activity() {
    let mut syllabary = KanaSyllabary::new(SyllabaryVersion::Katakana);
    assert!(!syllabary.is_active());
    syllabary.charts[1].rows[0].buttons[0].toggle();
    assert!(syllabary.is_active());
    assert_eq!(syllabary.get_selected_kana(), vec!["ガ"]);
    syllabary.toggle();
    assert!(!syllabary.is_active());
    assert_eq!(syllabary.get_selected_kana(), Vec::<String>::new());
}

#[test]
fn selector_routes_toggle_events_to_the_addressed_node() {
    let mut selector = KanaSelector::new();
    // the basic hiragana chart is on; toggling it empties the tree
    selector.update(KanaMessage::ChartToggle(
        ChartVersion::Basic,
        SyllabaryVersion::Hirigana,
    ));
    assert_eq!(selector.get_selected_kana(), Vec::<String>::new());
    // toggling one row selects exactly that row
    selector.update(KanaMessage::RowToggle(
        0,
        ChartVersion::Basic,
        SyllabaryVersion::Hirigana,
    ));
    assert_eq!(selector.get_selected_kana(), vec!["あ", "い", "う", "え", "お"]);
    // toggling one button within it removes just that symbol
    selector.update(KanaMessage::ButtonToggle(
        0,
        0,
        ChartVersion::Basic,
        SyllabaryVersion::Hirigana,
    ));
    assert_eq!(selector.get_selected_kana(), vec!["い", "う", "え", "お"]);
    // siblings are untouched: the katakana syllabary is still empty
    selector.update(KanaMessage::SyllabaryToggle(SyllabaryVersion::Katakana));
    let selected = selector.get_selected_kana();
    // 46 basic + 26 dakuon + 47 combo katakana symbols joined the 4 hiragana
    assert_eq!(selected.len(), 4 + 46 + 26 + 47);
    assert_eq!(&selected[..4], ["い", "う", "え", "お"]);
    assert_eq!(selected[4], "ア");
    assert_eq!(selected[selected.len() - 1], "ヴォ");
    // toggling the whole syllabary again clears only it
    selector.update(KanaMessage::SyllabaryToggle(SyllabaryVersion::Katakana));
    assert_eq!(selector.get_selected_kana(), vec!["い", "う", "え", "お"]);
}

#[test]
fn selection_output_is_duplicate_free() {
    let mut selector = KanaSelector::new();
    // every leaf on: hiragana starts partly on, so off first, then all on
    selector.update(KanaMessage::SyllabaryToggle(SyllabaryVersion::Hirigana));
    selector.update(KanaMessage::SyllabaryToggle(SyllabaryVersion::Hirigana));
    selector.update(KanaMessage::SyllabaryToggle(SyllabaryVersion::Katakana));
    let mut selected = selector.get_selected_kana();
    // 104 hiragana and 119 katakana symbols, no symbol twice
    assert_eq!(selected.len(), 104 + 119);
    selected.sort();
    selected.dedup();
    assert_eq!(selected.len(), 104 + 119);
}

#[test]
fn enums_report_their_names() {
    assert_eq!(ChartVersion::Basic.as_string(), "Basic");
    assert_eq!(ChartVersion::Dakuon.as_string(), "Dakuon");
    assert_eq!(ChartVersion::Combo.as_string(), "Combo");
    assert_eq!(SyllabaryVersion::Hirigana.as_string(), "Hirigana");
    assert_eq!(SyllabaryVersion::Katakana.as_string(), "Katakana");
}
