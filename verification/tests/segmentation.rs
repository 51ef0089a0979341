//! Segmentation of kana strings into syllabogram units.
use kana_kilo::syllabograms::{new_syllabograms, SyllabogramCursor};
use kana_kilo::SyllabogramSegmentation;

fn collect_units(s: &str) -> Vec<String> {
    let mut iter = s.syllabograms();
    let mut units = Vec::new();
    loop {
        match iter.next() {
            Some(unit) => units.push(String::from(unit)),
            None => break,
        }
    }
    units
}

#[test]
fn segments_digraphs_as_single_units() {
    assert_eq!(collect_units("きゃきゅきょ"), vec!["きゃ", "きゅ", "きょ"]);
}

#[test]
fn segments_plain_kana_one_unit_per_codepoint() {
    assert_eq!(collect_units("あいうえお"), vec!["あ", "い", "う", "え", "お"]);
}

#[test]
fn segments_empty_string_to_no_units() {
    assert_eq!(collect_units(""), Vec::<String>::new());
}

#[test]
fn small_kana_merges_only_after_a_base() {
    // a small kana at the start of a unit is consumed as a base itself
    assert_eq!(collect_units("ゃあ"), vec!["ゃ", "あ"]);
    // and may then fuse with a following small kana
    assert_eq!(collect_units("ゃゃ"), vec!["ゃゃ"]);
    // a trailing base with nothing after it stands alone
    assert_eq!(collect_units("きゃき"), vec!["きゃ", "き"]);
}

#[test]
fn concatenating_units_reproduces_the_input() {
    for s in ["きゃきゅきょ", "あいうえお", "んゃウィン", "ヴァヴィヴェヴォ", "や ゆ よ"] {
        let joined: String = collect_units(s).concat();
        assert_eq!(joined, s);
    }
}

#[test]
fn as_str_returns_the_unconsumed_tail() {
    let mut iter = new_syllabograms("きゃあ");
    assert_eq!(iter.as_str(), "きゃあ");
    assert_eq!(iter.next(), Some("きゃ"));
    assert_eq!(iter.as_str(), "あ");
    assert_eq!(iter.next(), Some("あ"));
    assert_eq!(iter.as_str(), "");
    assert_eq!(iter.next(), None);
}

#[test]
fn cursor_reports_unit_boundaries() {
    // positions count codepoints: きゃ|あ
    let text = "きゃあ";
    let mut cursor = SyllabogramCursor::new(0, 3);
    assert_eq!(cursor.cur_cursor(), 0);
    assert_eq!(cursor.next_boundary(text, 0), Ok(Some(2)));
    assert_eq!(cursor.cur_cursor(), 2);
    assert_eq!(cursor.next_boundary(text, 0), Ok(Some(3)));
    assert_eq!(cursor.next_boundary(text, 0), Ok(None));
    assert_eq!(cursor.cur_cursor(), 3);
}
