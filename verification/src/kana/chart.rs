//! One chart of a syllabary: the basic grid, the voiced (dakuon) grid, or
//! the digraph (combo) grid. A chart owns a fixed list of rows.
use vstd::prelude::*;
use vstd::string::*;

use crate::kana::button::{any_active, non_void_symbols, selected_of, set_to, KanaButton};
use crate::kana::button::{lemma_selected_concat, lemma_toggle_complement};
use crate::kana::enums::{ChartVersion, SyllabaryVersion};
use crate::kana::row::{
    buttons_of_rows, lemma_buttons_of_rows_take_succ, lemma_rows_any_active, lemma_rows_set_to,
    row_fresh, rows_set_to, KanaRow,
};

verus! {

pub struct KanaChart {
    pub title: String,
    pub rows: Vec<KanaRow>,
}

/// The fixed row strings of each chart. Spaces hold grid positions open
/// where a row has no symbol; they become void buttons.
pub open spec fn chart_rows(version: ChartVersion, syllabary: SyllabaryVersion) -> Seq<
    Seq<char>,
> {
    match (syllabary, version) {
        (SyllabaryVersion::Hirigana, ChartVersion::Basic) => seq![
            "あいうえお"@,
            "かきくけこ"@,
            "さしすせそ"@,
            "たちつてと"@,
            "なにぬねの"@,
            "はひふへほ"@,
            "まみむめも"@,
            "や ゆ よ"@,
            "らりるれろ"@,
            "わ   を"@,
            "ん    "@,
        ],
        (SyllabaryVersion::Hirigana, ChartVersion::Dakuon) => seq![
            "がぎぐげご"@,
            "ざじずぜぞ"@,
            "だぢづでど"@,
            "ばびぶべぼ"@,
            "ぱぴぷぺぽ"@,
        ],
        (SyllabaryVersion::Hirigana, ChartVersion::Combo) => seq![
            "きゃきゅきょ"@,
            "しゃしゅしょ"@,
            "ちゃちゅちょ"@,
            "にゃにゅにょ"@,
            "ひゃひゅひょ"@,
            "みゃみゅみょ"@,
            "りゃりゅりょ"@,
            "ぎゃぎゅぎょ"@,
            "じゃじゅじょ"@,
            "びゃびゅびょ"@,
            "ぴゃぴゅぴょ"@,
        ],
        (SyllabaryVersion::Katakana, ChartVersion::Basic) => seq![
            "アイウエオ"@,
            "カキクケコ"@,
            "サシスセソ"@,
            "タチツテト"@,
            "ナニヌネノ"@,
            "ハヒフヘホ"@,
            "マミムメモ"@,
            "ヤ ユ ヨ"@,
            "ラリルレロ"@,
            "ワ   ヲ"@,
            "ン    "@,
        ],
        (SyllabaryVersion::Katakana, ChartVersion::Dakuon) => seq![
            "ガギグゲゴ"@,
            "ザジズゼゾ"@,
            "ダヂヅデド"@,
            "バビブベボ"@,
            "パピプペポ"@,
            "ヴ    "@,
        ],
        (SyllabaryVersion::Katakana, ChartVersion::Combo) => seq![
            "キャキュキョ"@,
            "ニャニュニョ"@,
            "ヒャヒュヒョ"@,
            "ミャミュミョ"@,
            "リャリュリョ"@,
            "ギャギュギョ"@,
            "ビャビュビョ"@,
            "ピャピュピョ"@,
            "ウィウェウォ"@,
            "シャシュシェショ"@,
            "チャチュチェチョ"@,
            "ファフィフェフォ"@,
            "ジャジュジェジョ"@,
            "ヴァヴィヴェヴォ"@,
        ],
    }
}

/// A chart as after toggling it on from everywhere-off: every row all on.
pub open spec fn chart_all_on(
    chart: KanaChart,
    version: ChartVersion,
    syllabary: SyllabaryVersion,
) -> bool {
    &&& chart.rows@.len() == chart_rows(version, syllabary).len()
    &&& forall|i: int|
        0 <= i < chart.rows@.len() ==> crate::kana::row::row_all_on(
            #[trigger] chart.rows@[i],
            chart_rows(version, syllabary)[i],
        )
}

/// Toggling a chart selects all of its non-void symbols or none of them,
/// always the complement of whether anything was selected before.
pub proof fn lemma_chart_toggle_selected(pre: KanaChart, post: KanaChart)
    requires
        rows_set_to(pre.rows@, post.rows@, !any_active(pre.leaves())),
    ensures
        any_active(pre.leaves()) ==> selected_of(post.leaves()) == Seq::<Seq<char>>::empty(),
        !any_active(pre.leaves()) ==> selected_of(post.leaves()) == non_void_symbols(
            pre.leaves(),
        ),
{
    lemma_rows_set_to(pre.rows@, post.rows@, !any_active(pre.leaves()));
    lemma_toggle_complement(pre.leaves(), post.leaves());
}

/// A freshly built chart has no active leaf.
pub proof fn lemma_chart_fresh_inactive(
    chart: KanaChart,
    version: ChartVersion,
    syllabary: SyllabaryVersion,
)
    requires
        chart_fresh(chart, version, syllabary),
    ensures
        !any_active(chart.leaves()),
{
    lemma_rows_any_active(chart.rows@);
    assert forall|j: int|
        0 <= j < chart.rows@.len() implies !any_active((#[trigger] chart.rows@[j]).buttons@) by {
        if any_active(chart.rows@[j].buttons@) {
            let i = choose|i: int|
                0 <= i < chart.rows@[j].buttons@.len() && (#[trigger] chart.rows@[j].buttons@[i]).active;
        }
    }
}

/// A freshly built chart: one fresh row per fixed row string.
pub open spec fn chart_fresh(
    chart: KanaChart,
    version: ChartVersion,
    syllabary: SyllabaryVersion,
) -> bool {
    &&& chart.rows@.len() == chart_rows(version, syllabary).len()
    &&& forall|i: int|
        0 <= i < chart.rows@.len() ==> row_fresh(
            #[trigger] chart.rows@[i],
            chart_rows(version, syllabary)[i],
        )
}

impl KanaChart {
    pub open spec fn wf(self) -> bool {
        forall|i: int| 0 <= i < self.rows@.len() ==> (#[trigger] self.rows@[i]).wf()
    }

    /// All leaf buttons of this chart, in row order.
    pub open spec fn leaves(self) -> Seq<KanaButton> {
        buttons_of_rows(self.rows@)
    }

    pub fn new(version: ChartVersion, syllabary: SyllabaryVersion) -> (r: KanaChart)
        ensures
            r.title@ == version.spec_name(),
            chart_fresh(r, version, syllabary),
            r.wf(),
    {
        let ghost spec_rows = chart_rows(version, syllabary);
        let mut symbols: Vec<&str> = Vec::new();
        match (syllabary, version) {
            (SyllabaryVersion::Hirigana, ChartVersion::Basic) => {
                symbols.push("あいうえお");
                symbols.push("かきくけこ");
                symbols.push("さしすせそ");
                symbols.push("たちつてと");
                symbols.push("なにぬねの");
                symbols.push("はひふへほ");
                symbols.push("まみむめも");
                symbols.push("や ゆ よ");
                symbols.push("らりるれろ");
                symbols.push("わ   を");
                symbols.push("ん    ");
                proof {
                    assert(symbols@.map_values(|s: &str| s@) =~= spec_rows);
                }
            },
            (SyllabaryVersion::Hirigana, ChartVersion::Dakuon) => {
                symbols.push("がぎぐげご");
                symbols.push("ざじずぜぞ");
                symbols.push("だぢづでど");
                symbols.push("ばびぶべぼ");
                symbols.push("ぱぴぷぺぽ");
                proof {
                    assert(symbols@.map_values(|s: &str| s@) =~= spec_rows);
                }
            },
            (SyllabaryVersion::Hirigana, ChartVersion::Combo) => {
                symbols.push("きゃきゅきょ");
                symbols.push("しゃしゅしょ");
                symbols.push("ちゃちゅちょ");
                symbols.push("にゃにゅにょ");
                symbols.push("ひゃひゅひょ");
                symbols.push("みゃみゅみょ");
                symbols.push("りゃりゅりょ");
                symbols.push("ぎゃぎゅぎょ");
                symbols.push("じゃじゅじょ");
                symbols.push("びゃびゅびょ");
                symbols.push("ぴゃぴゅぴょ");
                proof {
                    assert(symbols@.map_values(|s: &str| s@) =~= spec_rows);
                }
            },
            (SyllabaryVersion::Katakana, ChartVersion::Basic) => {
                symbols.push("アイウエオ");
                symbols.push("カキクケコ");
                symbols.push("サシスセソ");
                symbols.push("タチツテト");
                symbols.push("ナニヌネノ");
                symbols.push("ハヒフヘホ");
                symbols.push("マミムメモ");
                symbols.push("ヤ ユ ヨ");
                symbols.push("ラリルレロ");
                symbols.push("ワ   ヲ");
                symbols.push("ン    ");
                proof {
                    assert(symbols@.map_values(|s: &str| s@) =~= spec_rows);
                }
            },
            (SyllabaryVersion::Katakana, ChartVersion::Dakuon) => {
                symbols.push("ガギグゲゴ");
                symbols.push("ザジズゼゾ");
                symbols.push("ダヂヅデド");
                symbols.push("バビブベボ");
                symbols.push("パピプペポ");
                symbols.push("ヴ    ");
                proof {
                    assert(symbols@.map_values(|s: &str| s@) =~= spec_rows);
                }
            },
            (SyllabaryVersion::Katakana, ChartVersion::Combo) => {
                symbols.push("キャキュキョ");
                symbols.push("ニャニュニョ");
                symbols.push("ヒャヒュヒョ");
                symbols.push("ミャミュミョ");
                symbols.push("リャリュリョ");
                symbols.push("ギャギュギョ");
                symbols.push("ビャビュビョ");
                symbols.push("ピャピュピョ");
                symbols.push("ウィウェウォ");
                symbols.push("シャシュシェショ");
                symbols.push("チャチュチェチョ");
                symbols.push("ファフィフェフォ");
                symbols.push("ジャジュジェジョ");
                symbols.push("ヴァヴィヴェヴォ");
                proof {
                    assert(symbols@.map_values(|s: &str| s@) =~= spec_rows);
                }
            },
        }
        let mut rows: Vec<KanaRow> = Vec::new();
        let n = symbols.len();
        let mut i: usize = 0;
        while i < n
            invariant
                n == symbols@.len(),
                symbols@.map_values(|s: &str| s@) == spec_rows,
                i <= n,
                rows@.len() == i,
                forall|j: int|
                    0 <= j < i ==> row_fresh(#[trigger] rows@[j], spec_rows[j])
                        && rows@[j].wf(),
            decreases n - i,
        {
            let row = KanaRow::new(symbols[i]);
            proof {
                assert(symbols@.map_values(|s: &str| s@)[i as int] == symbols@[i as int]@);
            }
            rows.push(row);
            i += 1;
        }
        KanaChart { title: version.as_string(), rows }
    }

    pub fn get_selected_kana(&self) -> (r: Vec<String>)
        ensures
            r@.map_values(|s: String| s@) == selected_of(self.leaves()),
    {
        let mut r: Vec<String> = Vec::new();
        let n = self.rows.len();
        let mut i: usize = 0;
        while i < n
            invariant
                n == self.rows@.len(),
                i <= n,
                r@.map_values(|s: String| s@) == selected_of(
                    buttons_of_rows(self.rows@.take(i as int)),
                ),
            decreases n - i,
        {
            let ghost prev = r@;
            let mut part = self.rows[i].get_selected_kana();
            let ghost part_view = part@;
            r.append(&mut part);
            proof {
                lemma_buttons_of_rows_take_succ(self.rows@, i as int);
                lemma_selected_concat(
                    buttons_of_rows(self.rows@.take(i as int)),
                    self.rows@[i as int].buttons@,
                );
                assert(r@.map_values(|s: String| s@) =~= prev.map_values(|s: String| s@)
                    + part_view.map_values(|s: String| s@));
            }
            i += 1;
        }
        proof {
            assert(self.rows@.take(n as int) =~= self.rows@);
        }
        r
    }

    pub fn is_active(&self) -> (r: bool)
        ensures
            r == any_active(self.leaves()),
    {
        let n = self.rows.len();
        let mut i: usize = 0;
        while i < n
            invariant
                n == self.rows@.len(),
                i <= n,
                forall|j: int| 0 <= j < i ==> !any_active((#[trigger] self.rows@[j]).buttons@),
            decreases n - i,
        {
            if self.rows[i].is_active() {
                proof {
                    lemma_rows_any_active(self.rows@);
                }
                return true;
            }
            i += 1;
        }
        proof {
            lemma_rows_any_active(self.rows@);
        }
        false
    }

    pub fn set_active(&mut self, active: bool)
        ensures
            rows_set_to(old(self).rows@, final(self).rows@, active),
            set_to(old(self).leaves(), final(self).leaves(), active),
            final(self).title == old(self).title,
            final(self).wf(),
    {
        let n = self.rows.len();
        let mut i: usize = 0;
        while i < n
            invariant
                n == self.rows@.len(),
                self.rows@.len() == old(self).rows@.len(),
                self.title == old(self).title,
                i <= n,
                forall|j: int|
                    0 <= j < i ==> set_to(
                        old(self).rows@[j].buttons@,
                        (#[trigger] self.rows@[j]).buttons@,
                        active,
                    ) && self.rows@[j].wf(),
                forall|j: int| i <= j < n ==> self.rows@[j] == old(self).rows@[j],
            decreases n - i,
        {
            let row = &mut self.rows[i];
            row.set_active(active);
            i += 1;
        }
        proof {
            lemma_rows_set_to(old(self).rows@, self.rows@, active);
        }
    }

    pub fn toggle(&mut self)
        ensures
            rows_set_to(old(self).rows@, final(self).rows@, !any_active(old(self).leaves())),
            set_to(
                old(self).leaves(),
                final(self).leaves(),
                !any_active(old(self).leaves()),
            ),
            final(self).title == old(self).title,
            final(self).wf(),
    {
        let active = !self.is_active();
        self.set_active(active)
    }
}

} // verus!
