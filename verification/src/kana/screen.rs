//! The top of the selection tree: both syllabaries, and the routing of
//! toggle events down to the addressed node. Every toggle leaves the tree
//! ready to emit its full selected-symbol set.
use vstd::prelude::*;
use vstd::string::*;

use crate::kana::button::{
    any_active, buttons_wf, distinct_non_void_symbols, lemma_same_symbols_concat,
    lemma_same_symbols_distinct, lemma_selected_concat, lemma_selected_no_duplicates,
    lemma_set_to_same_symbols, same_symbols, selected_of, set_to, KanaButton,
};
use crate::kana::chart::{chart_all_on, chart_fresh, lemma_chart_fresh_inactive, KanaChart};
use crate::kana::enums::{ChartVersion, SyllabaryVersion};
use crate::kana::row::{
    lemma_rows_buttons_wf, lemma_rows_same_symbols, row_all_on, rows_set_to, KanaRow,
};
use crate::kana::syllabary::{
    charts_set_to, leaves_of_charts, lemma_charts_buttons_wf, lemma_charts_same_symbols,
    syllabary_fresh, KanaSyllabary,
};

verus! {

/// A toggle event addressed to one node of the tree. Indices count from the
/// top: a row within its chart, a button within its row.
pub enum KanaMessage {
    SyllabaryToggle(SyllabaryVersion),
    ChartToggle(ChartVersion, SyllabaryVersion),
    RowToggle(usize, ChartVersion, SyllabaryVersion),
    ButtonToggle(usize, usize, ChartVersion, SyllabaryVersion),
}

/// The syllabary held at position `i` of the selector's list.
pub open spec fn syllabary_version_at(i: int) -> SyllabaryVersion {
    if i == 0 {
        SyllabaryVersion::Hirigana
    } else {
        SyllabaryVersion::Katakana
    }
}

/// The leaves of a list of syllabaries, in order.
pub open spec fn leaves_of_syllabaries(syls: Seq<KanaSyllabary>) -> Seq<KanaButton>
    decreases syls.len(),
{
    if syls.len() == 0 {
        Seq::empty()
    } else {
        leaves_of_syllabaries(syls.drop_last()) + syls.last().leaves()
    }
}

pub proof fn lemma_leaves_of_syllabaries_take_succ(syls: Seq<KanaSyllabary>, i: int)
    requires
        0 <= i < syls.len(),
    ensures
        leaves_of_syllabaries(syls.take(i + 1)) == leaves_of_syllabaries(syls.take(i))
            + syls[i].leaves(),
{
    assert(syls.take(i + 1).drop_last() =~= syls.take(i));
    assert(syls.take(i + 1).last() == syls[i]);
}

/// Well-formed syllabaries flatten to a well-formed leaf list.
pub proof fn lemma_syllabaries_buttons_wf(syls: Seq<KanaSyllabary>)
    requires
        forall|j: int| 0 <= j < syls.len() ==> (#[trigger] syls[j]).wf(),
    ensures
        buttons_wf(leaves_of_syllabaries(syls)),
    decreases syls.len(),
{
    if syls.len() == 0 {
    } else {
        assert forall|j: int|
            0 <= j < syls.drop_last().len() implies (#[trigger] syls.drop_last()[j]).wf() by {
            assert(syls.drop_last()[j] == syls[j]);
        }
        lemma_syllabaries_buttons_wf(syls.drop_last());
        lemma_charts_buttons_wf(syls.last().charts@);
        let a = leaves_of_syllabaries(syls.drop_last());
        let b = syls.last().leaves();
        assert forall|i: int| 0 <= i < (a + b).len() implies (#[trigger] (a + b)[i]).wf() by {
            if i < a.len() {
                assert((a + b)[i] == a[i]);
            } else {
                assert((a + b)[i] == b[i - a.len()]);
            }
        }
    }
}

/// Syllabaries that keep their leaves' symbols flatten to a leaf list that
/// keeps its symbols.
pub proof fn lemma_syllabaries_same_symbols(pre: Seq<KanaSyllabary>, post: Seq<KanaSyllabary>)
    requires
        post.len() == pre.len(),
        forall|j: int|
            0 <= j < pre.len() ==> same_symbols(pre[j].leaves(), (#[trigger] post[j]).leaves()),
    ensures
        same_symbols(leaves_of_syllabaries(pre), leaves_of_syllabaries(post)),
    decreases pre.len(),
{
    if pre.len() == 0 {
    } else {
        assert forall|j: int|
            0 <= j < pre.drop_last().len() implies same_symbols(
            pre.drop_last()[j].leaves(),
            (#[trigger] post.drop_last()[j]).leaves(),
        ) by {
            assert(pre.drop_last()[j] == pre[j]);
            assert(post.drop_last()[j] == post[j]);
        }
        lemma_syllabaries_same_symbols(pre.drop_last(), post.drop_last());
        assert(same_symbols(pre[pre.len() - 1].leaves(), post[pre.len() - 1].leaves()));
        lemma_same_symbols_concat(
            leaves_of_syllabaries(pre.drop_last()),
            leaves_of_syllabaries(post.drop_last()),
            pre.last().leaves(),
            post.last().leaves(),
        );
    }
}

pub struct KanaSelector {
    pub syllabaries: Vec<KanaSyllabary>,
}

/// What one toggle event does to the tree: the addressed node's whole
/// subtree is set to the complement of its derived active state, and every
/// node outside that subtree is untouched.
pub open spec fn update_rel(pre: KanaSelector, post: KanaSelector, m: KanaMessage) -> bool {
    &&& post.syllabaries@.len() == pre.syllabaries@.len()
    &&& match m {
        KanaMessage::SyllabaryToggle(syl) => {
            let si = syl.spec_index();
            let p = pre.syllabaries@[si];
            let q = post.syllabaries@[si];
            &&& forall|j: int|
                0 <= j < pre.syllabaries@.len() && j != si ==> (#[trigger] post.syllabaries@[j])
                    == pre.syllabaries@[j]
            &&& q.title == p.title
            &&& charts_set_to(p.charts@, q.charts@, !any_active(p.leaves()))
        },
        KanaMessage::ChartToggle(chart, syl) => {
            let si = syl.spec_index();
            let ci = chart.spec_index();
            let p = pre.syllabaries@[si];
            let q = post.syllabaries@[si];
            let pc = p.charts@[ci];
            let qc = q.charts@[ci];
            &&& forall|j: int|
                0 <= j < pre.syllabaries@.len() && j != si ==> (#[trigger] post.syllabaries@[j])
                    == pre.syllabaries@[j]
            &&& q.title == p.title
            &&& q.charts@.len() == p.charts@.len()
            &&& forall|j: int|
                0 <= j < p.charts@.len() && j != ci ==> (#[trigger] q.charts@[j]) == p.charts@[j]
            &&& qc.title == pc.title
            &&& rows_set_to(pc.rows@, qc.rows@, !any_active(pc.leaves()))
        },
        KanaMessage::RowToggle(row, chart, syl) => {
            let si = syl.spec_index();
            let ci = chart.spec_index();
            let ri = row as int;
            let p = pre.syllabaries@[si];
            let q = post.syllabaries@[si];
            let pc = p.charts@[ci];
            let qc = q.charts@[ci];
            let pr = pc.rows@[ri];
            let qr = qc.rows@[ri];
            &&& forall|j: int|
                0 <= j < pre.syllabaries@.len() && j != si ==> (#[trigger] post.syllabaries@[j])
                    == pre.syllabaries@[j]
            &&& q.title == p.title
            &&& q.charts@.len() == p.charts@.len()
            &&& forall|j: int|
                0 <= j < p.charts@.len() && j != ci ==> (#[trigger] q.charts@[j]) == p.charts@[j]
            &&& qc.title == pc.title
            &&& qc.rows@.len() == pc.rows@.len()
            &&& forall|j: int|
                0 <= j < pc.rows@.len() && j != ri ==> (#[trigger] qc.rows@[j]) == pc.rows@[j]
            &&& set_to(pr.buttons@, qr.buttons@, !any_active(pr.buttons@))
        },
        KanaMessage::ButtonToggle(button, row, chart, syl) => {
            let si = syl.spec_index();
            let ci = chart.spec_index();
            let ri = row as int;
            let bi = button as int;
            let p = pre.syllabaries@[si];
            let q = post.syllabaries@[si];
            let pc = p.charts@[ci];
            let qc = q.charts@[ci];
            let pr = pc.rows@[ri];
            let qr = qc.rows@[ri];
            let pb = pr.buttons@[bi];
            let qb = qr.buttons@[bi];
            &&& forall|j: int|
                0 <= j < pre.syllabaries@.len() && j != si ==> (#[trigger] post.syllabaries@[j])
                    == pre.syllabaries@[j]
            &&& q.title == p.title
            &&& q.charts@.len() == p.charts@.len()
            &&& forall|j: int|
                0 <= j < p.charts@.len() && j != ci ==> (#[trigger] q.charts@[j]) == p.charts@[j]
            &&& qc.title == pc.title
            &&& qc.rows@.len() == pc.rows@.len()
            &&& forall|j: int|
                0 <= j < pc.rows@.len() && j != ri ==> (#[trigger] qc.rows@[j]) == pc.rows@[j]
            &&& qr.buttons@.len() == pr.buttons@.len()
            &&& forall|j: int|
                0 <= j < pr.buttons@.len() && j != bi ==> (#[trigger] qr.buttons@[j])
                    == pr.buttons@[j]
            &&& qb.symbol == pb.symbol
            &&& qb.void == pb.void
            &&& qb.active == (!pb.active && !pb.void)
        },
    }
}

impl KanaSelector {
    pub open spec fn wf(self) -> bool {
        &&& self.syllabaries@.len() == 2
        &&& forall|i: int|
            0 <= i < self.syllabaries@.len() ==> (#[trigger] self.syllabaries@[i]).wf()
    }

    /// All leaf buttons of the whole tree, in order.
    pub open spec fn leaves(self) -> Seq<KanaButton> {
        leaves_of_syllabaries(self.syllabaries@)
    }

    /// The toggle event addresses an existing node.
    pub open spec fn message_in_bounds(self, m: KanaMessage) -> bool {
        match m {
            KanaMessage::SyllabaryToggle(_) => true,
            KanaMessage::ChartToggle(_, _) => true,
            KanaMessage::RowToggle(row, chart, syl) => row
                < self.syllabaries@[syl.spec_index()].charts@[chart.spec_index()].rows@.len(),
            KanaMessage::ButtonToggle(button, row, chart, syl) => {
                let rows = self.syllabaries@[syl.spec_index()].charts@[chart.spec_index()].rows@;
                &&& row < rows.len()
                &&& button < rows[row as int].buttons@.len()
            },
        }
    }

    /// Both syllabaries, built fresh, with the whole basic chart of the
    /// hiragana syllabary started active and everything else inactive.
    pub fn new() -> (r: KanaSelector)
        ensures
            r.wf(),
            r.syllabaries@[0].title@ == SyllabaryVersion::Hirigana.spec_name(),
            r.syllabaries@[0].charts@.len() == 3,
            chart_all_on(
                r.syllabaries@[0].charts@[0],
                ChartVersion::Basic,
                SyllabaryVersion::Hirigana,
            ),
            r.syllabaries@[0].charts@[0].title@ == ChartVersion::Basic.spec_name(),
            chart_fresh(
                r.syllabaries@[0].charts@[1],
                ChartVersion::Dakuon,
                SyllabaryVersion::Hirigana,
            ),
            chart_fresh(
                r.syllabaries@[0].charts@[2],
                ChartVersion::Combo,
                SyllabaryVersion::Hirigana,
            ),
            syllabary_fresh(r.syllabaries@[1], SyllabaryVersion::Katakana),
    {
        let mut syllabaries: Vec<KanaSyllabary> = Vec::new();
        syllabaries.push(KanaSyllabary::new(SyllabaryVersion::Hirigana));
        syllabaries.push(KanaSyllabary::new(SyllabaryVersion::Katakana));
        let ghost fresh_hira = syllabaries@[0];
        // the basic hiragana chart starts fully selected
        let hiragana = &mut syllabaries[0];
        let basic = &mut hiragana.charts[0];
        proof {
            lemma_chart_fresh_inactive(
                fresh_hira.charts@[0],
                ChartVersion::Basic,
                SyllabaryVersion::Hirigana,
            );
        }
        basic.toggle();
        let r = KanaSelector { syllabaries };
        proof {
            let c0 = fresh_hira.charts@[0];
            let c1 = r.syllabaries@[0].charts@[0];
            assert(rows_set_to(c0.rows@, c1.rows@, true));
            assert forall|i: int| 0 <= i < c1.rows@.len() implies row_all_on(
                #[trigger] c1.rows@[i],
                crate::kana::chart::chart_rows(
                    ChartVersion::Basic,
                    SyllabaryVersion::Hirigana,
                )[i],
            ) by {
                assert(set_to(c0.rows@[i].buttons@, c1.rows@[i].buttons@, true));
            }
        }
        r
    }

    /// All currently selected symbols, across both syllabaries, in tree
    /// order.
    pub fn get_selected_kana(&self) -> (r: Vec<String>)
        ensures
            r@.map_values(|s: String| s@) == selected_of(self.leaves()),
    {
        let mut r: Vec<String> = Vec::new();
        let n = self.syllabaries.len();
        let mut i: usize = 0;
        while i < n
            invariant
                n == self.syllabaries@.len(),
                i <= n,
                r@.map_values(|s: String| s@) == selected_of(
                    leaves_of_syllabaries(self.syllabaries@.take(i as int)),
                ),
            decreases n - i,
        {
            let ghost prev = r@;
            let mut part = self.syllabaries[i].get_selected_kana();
            let ghost part_view = part@;
            r.append(&mut part);
            proof {
                lemma_leaves_of_syllabaries_take_succ(self.syllabaries@, i as int);
                lemma_selected_concat(
                    leaves_of_syllabaries(self.syllabaries@.take(i as int)),
                    self.syllabaries@[i as int].leaves(),
                );
                assert(r@.map_values(|s: String| s@) =~= prev.map_values(|s: String| s@)
                    + part_view.map_values(|s: String| s@));
            }
            i += 1;
        }
        proof {
            assert(self.syllabaries@.take(n as int) =~= self.syllabaries@);
        }
        r
    }

    /// Route one toggle event to the addressed node.
    pub fn update(&mut self, message: KanaMessage)
        requires
            old(self).wf(),
            old(self).message_in_bounds(message),
        ensures
            final(self).wf(),
            update_rel(*old(self), *final(self), message),
    {
        match message {
            KanaMessage::SyllabaryToggle(syllabary) => {
                let si = syllabary.index();
                let syl = &mut self.syllabaries[si];
                syl.toggle();
            },
            KanaMessage::ChartToggle(chart, syllabary) => {
                let si = syllabary.index();
                let ci = chart.index();
                let syl = &mut self.syllabaries[si];
                let ch = &mut syl.charts[ci];
                ch.toggle();
            },
            KanaMessage::RowToggle(row, chart, syllabary) => {
                let si = syllabary.index();
                let ci = chart.index();
                let syl = &mut self.syllabaries[si];
                let ch = &mut syl.charts[ci];
                let rw = &mut ch.rows[row];
                rw.toggle();
            },
            KanaMessage::ButtonToggle(button, row, chart, syllabary) => {
                let si = syllabary.index();
                let ci = chart.index();
                let syl = &mut self.syllabaries[si];
                let ch = &mut syl.charts[ci];
                let rw = &mut ch.rows[row];
                let bt = &mut rw.buttons[button];
                bt.toggle();
            },
        }
    }
}

/// A toggle event rewrites no symbol and no void mark anywhere in the
/// tree, so the pairwise distinctness of its non-void symbols is invariant
/// under every update.
pub proof fn lemma_update_keeps_symbols(pre: KanaSelector, post: KanaSelector, m: KanaMessage)
    requires
        pre.wf(),
        pre.message_in_bounds(m),
        update_rel(pre, post, m),
    ensures
        same_symbols(pre.leaves(), post.leaves()),
        distinct_non_void_symbols(post.leaves()) <==> distinct_non_void_symbols(pre.leaves()),
{
    match m {
        KanaMessage::SyllabaryToggle(syl) => {
            let si = syl.spec_index();
            let p = pre.syllabaries@[si];
            let q = post.syllabaries@[si];
            let a = !any_active(p.leaves());
            assert forall|j: int|
                0 <= j < p.charts@.len() implies same_symbols(
                p.charts@[j].leaves(),
                (#[trigger] q.charts@[j]).leaves(),
            ) by {
                assert(rows_set_to(p.charts@[j].rows@, q.charts@[j].rows@, a));
                assert forall|r: int|
                    0 <= r < p.charts@[j].rows@.len() implies same_symbols(
                    p.charts@[j].rows@[r].buttons@,
                    (#[trigger] q.charts@[j].rows@[r]).buttons@,
                ) by {
                    lemma_set_to_same_symbols(
                        p.charts@[j].rows@[r].buttons@,
                        q.charts@[j].rows@[r].buttons@,
                        a,
                    );
                }
                lemma_rows_same_symbols(p.charts@[j].rows@, q.charts@[j].rows@);
            }
            lemma_charts_same_symbols(p.charts@, q.charts@);
            assert forall|j: int|
                0 <= j < pre.syllabaries@.len() implies same_symbols(
                pre.syllabaries@[j].leaves(),
                (#[trigger] post.syllabaries@[j]).leaves(),
            ) by {
                if j != si {
                    assert(post.syllabaries@[j] == pre.syllabaries@[j]);
                }
            }
            lemma_syllabaries_same_symbols(pre.syllabaries@, post.syllabaries@);
        },
        KanaMessage::ChartToggle(chart, syl) => {
            let si = syl.spec_index();
            let ci = chart.spec_index();
            let p = pre.syllabaries@[si];
            let q = post.syllabaries@[si];
            let pc = p.charts@[ci];
            let qc = q.charts@[ci];
            let a = !any_active(pc.leaves());
            assert forall|r: int|
                0 <= r < pc.rows@.len() implies same_symbols(
                pc.rows@[r].buttons@,
                (#[trigger] qc.rows@[r]).buttons@,
            ) by {
                lemma_set_to_same_symbols(pc.rows@[r].buttons@, qc.rows@[r].buttons@, a);
            }
            lemma_rows_same_symbols(pc.rows@, qc.rows@);
            assert forall|j: int|
                0 <= j < p.charts@.len() implies same_symbols(
                p.charts@[j].leaves(),
                (#[trigger] q.charts@[j]).leaves(),
            ) by {
                if j != ci {
                    assert(q.charts@[j] == p.charts@[j]);
                }
            }
            lemma_charts_same_symbols(p.charts@, q.charts@);
            assert forall|j: int|
                0 <= j < pre.syllabaries@.len() implies same_symbols(
                pre.syllabaries@[j].leaves(),
                (#[trigger] post.syllabaries@[j]).leaves(),
            ) by {
                if j != si {
                    assert(post.syllabaries@[j] == pre.syllabaries@[j]);
                }
            }
            lemma_syllabaries_same_symbols(pre.syllabaries@, post.syllabaries@);
        },
        KanaMessage::RowToggle(row, chart, syl) => {
            let si = syl.spec_index();
            let ci = chart.spec_index();
            let ri = row as int;
            let p = pre.syllabaries@[si];
            let q = post.syllabaries@[si];
            let pc = p.charts@[ci];
            let qc = q.charts@[ci];
            assert forall|r: int|
                0 <= r < pc.rows@.len() implies same_symbols(
                pc.rows@[r].buttons@,
                (#[trigger] qc.rows@[r]).buttons@,
            ) by {
                if r == ri {
                    lemma_set_to_same_symbols(
                        pc.rows@[ri].buttons@,
                        qc.rows@[ri].buttons@,
                        !any_active(pc.rows@[ri].buttons@),
                    );
                } else {
                    assert(qc.rows@[r] == pc.rows@[r]);
                }
            }
            lemma_rows_same_symbols(pc.rows@, qc.rows@);
            assert forall|j: int|
                0 <= j < p.charts@.len() implies same_symbols(
                p.charts@[j].leaves(),
                (#[trigger] q.charts@[j]).leaves(),
            ) by {
                if j != ci {
                    assert(q.charts@[j] == p.charts@[j]);
                }
            }
            lemma_charts_same_symbols(p.charts@, q.charts@);
            assert forall|j: int|
                0 <= j < pre.syllabaries@.len() implies same_symbols(
                pre.syllabaries@[j].leaves(),
                (#[trigger] post.syllabaries@[j]).leaves(),
            ) by {
                if j != si {
                    assert(post.syllabaries@[j] == pre.syllabaries@[j]);
                }
            }
            lemma_syllabaries_same_symbols(pre.syllabaries@, post.syllabaries@);
        },
        KanaMessage::ButtonToggle(button, row, chart, syl) => {
            let si = syl.spec_index();
            let ci = chart.spec_index();
            let ri = row as int;
            let bi = button as int;
            let p = pre.syllabaries@[si];
            let q = post.syllabaries@[si];
            let pc = p.charts@[ci];
            let qc = q.charts@[ci];
            let pr = pc.rows@[ri];
            let qr = qc.rows@[ri];
            assert forall|i: int|
                0 <= i < pr.buttons@.len() implies (#[trigger] qr.buttons@[i]).symbol
                == pr.buttons@[i].symbol && qr.buttons@[i].void == pr.buttons@[i].void by {
                if i != bi {
                    assert(qr.buttons@[i] == pr.buttons@[i]);
                }
            }
            assert forall|r: int|
                0 <= r < pc.rows@.len() implies same_symbols(
                pc.rows@[r].buttons@,
                (#[trigger] qc.rows@[r]).buttons@,
            ) by {
                if r != ri {
                    assert(qc.rows@[r] == pc.rows@[r]);
                }
            }
            lemma_rows_same_symbols(pc.rows@, qc.rows@);
            assert forall|j: int|
                0 <= j < p.charts@.len() implies same_symbols(
                p.charts@[j].leaves(),
                (#[trigger] q.charts@[j]).leaves(),
            ) by {
                if j != ci {
                    assert(q.charts@[j] == p.charts@[j]);
                }
            }
            lemma_charts_same_symbols(p.charts@, q.charts@);
            assert forall|j: int|
                0 <= j < pre.syllabaries@.len() implies same_symbols(
                pre.syllabaries@[j].leaves(),
                (#[trigger] post.syllabaries@[j]).leaves(),
            ) by {
                if j != si {
                    assert(post.syllabaries@[j] == pre.syllabaries@[j]);
                }
            }
            lemma_syllabaries_same_symbols(pre.syllabaries@, post.syllabaries@);
        },
    }
    lemma_same_symbols_distinct(pre.leaves(), post.leaves());
}

/// The selected-symbol output never repeats a symbol, as long as the
/// tree's non-void symbols are pairwise distinct — which holds of the
/// fixed charts and which, by `lemma_update_keeps_symbols`, no sequence of
/// toggle events disturbs.
pub proof fn lemma_selector_selection_duplicate_free(sel: KanaSelector)
    requires
        sel.wf(),
        distinct_non_void_symbols(sel.leaves()),
    ensures
        selected_of(sel.leaves()).no_duplicates(),
{
    lemma_syllabaries_buttons_wf(sel.syllabaries@);
    lemma_selected_no_duplicates(sel.leaves());
}

} // verus!
