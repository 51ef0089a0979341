//! One syllabary of the selection tree, owning its three charts in a fixed
//! order: basic, dakuon, combo.
use vstd::prelude::*;
use vstd::string::*;

use crate::kana::button::{
    any_active, buttons_wf, lemma_any_active_concat, lemma_same_symbols_concat,
    lemma_selected_concat, lemma_set_to_concat, lemma_toggle_complement, non_void_symbols,
    same_symbols, selected_of, set_to, KanaButton,
};
use crate::kana::chart::{chart_fresh, chart_rows, KanaChart};
use crate::kana::enums::{ChartVersion, SyllabaryVersion};
use crate::kana::row::{
    lemma_rows_buttons_wf, lemma_rows_same_symbols, lemma_rows_set_to, rows_set_to,
};

verus! {

/// The chart held at position `i` of every syllabary's chart list.
pub open spec fn chart_version_at(i: int) -> ChartVersion {
    if i == 0 {
        ChartVersion::Basic
    } else if i == 1 {
        ChartVersion::Dakuon
    } else {
        ChartVersion::Combo
    }
}

/// The leaves of a list of charts, in order.
pub open spec fn leaves_of_charts(charts: Seq<KanaChart>) -> Seq<KanaButton>
    decreases charts.len(),
{
    if charts.len() == 0 {
        Seq::empty()
    } else {
        leaves_of_charts(charts.drop_last()) + charts.last().leaves()
    }
}

pub proof fn lemma_leaves_of_charts_take_succ(charts: Seq<KanaChart>, i: int)
    requires
        0 <= i < charts.len(),
    ensures
        leaves_of_charts(charts.take(i + 1)) == leaves_of_charts(charts.take(i))
            + charts[i].leaves(),
{
    assert(charts.take(i + 1).drop_last() =~= charts.take(i));
    assert(charts.take(i + 1).last() == charts[i]);
}

/// A chart list has an active leaf exactly when one of its charts does.
pub proof fn lemma_charts_any_active(charts: Seq<KanaChart>)
    ensures
        any_active(leaves_of_charts(charts)) == exists|j: int|
            0 <= j < charts.len() && any_active((#[trigger] charts[j]).leaves()),
    decreases charts.len(),
{
    if charts.len() == 0 {
    } else {
        lemma_charts_any_active(charts.drop_last());
        lemma_any_active_concat(leaves_of_charts(charts.drop_last()), charts.last().leaves());
        if exists|j: int|
            0 <= j < charts.len() - 1 && any_active((#[trigger] charts.drop_last()[j]).leaves()) {
            let j = choose|j: int|
                0 <= j < charts.len() - 1 && any_active(
                    (#[trigger] charts.drop_last()[j]).leaves(),
                );
            assert(any_active(charts[j].leaves()));
        }
        if any_active(charts.last().leaves()) {
            assert(any_active(charts[charts.len() - 1].leaves()));
        }
        if exists|j: int| 0 <= j < charts.len() && any_active((#[trigger] charts[j]).leaves()) {
            let j = choose|j: int|
                0 <= j < charts.len() && any_active((#[trigger] charts[j]).leaves());
            if j < charts.len() - 1 {
                assert(any_active(charts.drop_last()[j].leaves()));
            }
        }
    }
}

/// Every chart of `post` is the matching chart of `pre` with all its leaves
/// set to `a`.
pub open spec fn charts_set_to(pre: Seq<KanaChart>, post: Seq<KanaChart>, a: bool) -> bool {
    &&& post.len() == pre.len()
    &&& forall|j: int|
        0 <= j < pre.len() ==> {
            &&& (#[trigger] post[j]).title == pre[j].title
            &&& rows_set_to(pre[j].rows@, post[j].rows@, a)
        }
}

/// Setting every chart pointwise sets the whole flattened leaf list.
pub proof fn lemma_charts_set_to(pre: Seq<KanaChart>, post: Seq<KanaChart>, a: bool)
    requires
        charts_set_to(pre, post, a),
    ensures
        set_to(leaves_of_charts(pre), leaves_of_charts(post), a),
    decreases pre.len(),
{
    if pre.len() == 0 {
    } else {
        assert forall|j: int| 0 <= j < pre.drop_last().len() implies {
            &&& (#[trigger] post.drop_last()[j]).title == pre.drop_last()[j].title
            &&& rows_set_to(pre.drop_last()[j].rows@, post.drop_last()[j].rows@, a)
        } by {
            assert(pre.drop_last()[j] == pre[j]);
            assert(post.drop_last()[j] == post[j]);
        }
        lemma_charts_set_to(pre.drop_last(), post.drop_last(), a);
        assert(rows_set_to(pre[pre.len() - 1].rows@, post[pre.len() - 1].rows@, a));
        lemma_rows_set_to(pre.last().rows@, post.last().rows@, a);
        lemma_set_to_concat(
            leaves_of_charts(pre.drop_last()),
            leaves_of_charts(post.drop_last()),
            pre.last().leaves(),
            post.last().leaves(),
            a,
        );
    }
}

/// Toggling a syllabary selects all of its non-void symbols or none of
/// them, always the complement of whether anything was selected before.
pub proof fn lemma_syllabary_toggle_selected(pre: KanaSyllabary, post: KanaSyllabary)
    requires
        charts_set_to(pre.charts@, post.charts@, !any_active(pre.leaves())),
    ensures
        any_active(pre.leaves()) ==> selected_of(post.leaves()) == Seq::<Seq<char>>::empty(),
        !any_active(pre.leaves()) ==> selected_of(post.leaves()) == non_void_symbols(
            pre.leaves(),
        ),
{
    lemma_charts_set_to(pre.charts@, post.charts@, !any_active(pre.leaves()));
    lemma_toggle_complement(pre.leaves(), post.leaves());
}

/// Well-formed charts flatten to a well-formed leaf list.
pub proof fn lemma_charts_buttons_wf(charts: Seq<KanaChart>)
    requires
        forall|j: int| 0 <= j < charts.len() ==> (#[trigger] charts[j]).wf(),
    ensures
        buttons_wf(leaves_of_charts(charts)),
    decreases charts.len(),
{
    if charts.len() == 0 {
    } else {
        assert forall|j: int|
            0 <= j < charts.drop_last().len() implies (#[trigger] charts.drop_last()[
            j
        ]).wf() by {
            assert(charts.drop_last()[j] == charts[j]);
        }
        lemma_charts_buttons_wf(charts.drop_last());
        lemma_rows_buttons_wf(charts.last().rows@);
        let a = leaves_of_charts(charts.drop_last());
        let b = charts.last().leaves();
        assert forall|i: int| 0 <= i < (a + b).len() implies (#[trigger] (a + b)[i]).wf() by {
            if i < a.len() {
                assert((a + b)[i] == a[i]);
            } else {
                assert((a + b)[i] == b[i - a.len()]);
            }
        }
    }
}

/// Charts that keep their leaves' symbols flatten to a leaf list that
/// keeps its symbols.
pub proof fn lemma_charts_same_symbols(pre: Seq<KanaChart>, post: Seq<KanaChart>)
    requires
        post.len() == pre.len(),
        forall|j: int|
            0 <= j < pre.len() ==> same_symbols(pre[j].leaves(), (#[trigger] post[j]).leaves()),
    ensures
        same_symbols(leaves_of_charts(pre), leaves_of_charts(post)),
    decreases pre.len(),
{
    if pre.len() == 0 {
    } else {
        assert forall|j: int|
            0 <= j < pre.drop_last().len() implies same_symbols(
            pre.drop_last()[j].leaves(),
            (#[trigger] post.drop_last()[j]).leaves(),
        ) by {
            assert(pre.drop_last()[j] == pre[j]);
            assert(post.drop_last()[j] == post[j]);
        }
        lemma_charts_same_symbols(pre.drop_last(), post.drop_last());
        assert(same_symbols(pre[pre.len() - 1].leaves(), post[pre.len() - 1].leaves()));
        lemma_same_symbols_concat(
            leaves_of_charts(pre.drop_last()),
            leaves_of_charts(post.drop_last()),
            pre.last().leaves(),
            post.last().leaves(),
        );
    }
}

/// A freshly built syllabary: the three charts, fresh, in their fixed order.
pub open spec fn syllabary_fresh(syl: KanaSyllabary, version: SyllabaryVersion) -> bool {
    &&& syl.title@ == version.spec_name()
    &&& syl.charts@.len() == 3
    &&& forall|i: int|
        0 <= i < 3 ==> chart_fresh(#[trigger] syl.charts@[i], chart_version_at(i), version)
            && syl.charts@[i].title@ == chart_version_at(i).spec_name()
}

pub struct KanaSyllabary {
    pub title: String,
    pub charts: Vec<KanaChart>,
}

impl KanaSyllabary {
    pub open spec fn wf(self) -> bool {
        &&& self.charts@.len() == 3
        &&& forall|i: int| 0 <= i < self.charts@.len() ==> (#[trigger] self.charts@[i]).wf()
    }

    /// All leaf buttons of this syllabary, in chart order.
    pub open spec fn leaves(self) -> Seq<KanaButton> {
        leaves_of_charts(self.charts@)
    }

    pub fn new(version: SyllabaryVersion) -> (r: KanaSyllabary)
        ensures
            syllabary_fresh(r, version),
            r.wf(),
    {
        let mut charts: Vec<KanaChart> = Vec::new();
        charts.push(KanaChart::new(ChartVersion::Basic, version));
        charts.push(KanaChart::new(ChartVersion::Dakuon, version));
        charts.push(KanaChart::new(ChartVersion::Combo, version));
        KanaSyllabary { title: version.as_string(), charts }
    }

    pub fn get_selected_kana(&self) -> (r: Vec<String>)
        ensures
            r@.map_values(|s: String| s@) == selected_of(self.leaves()),
    {
        let mut r: Vec<String> = Vec::new();
        let n = self.charts.len();
        let mut i: usize = 0;
        while i < n
            invariant
                n == self.charts@.len(),
                i <= n,
                r@.map_values(|s: String| s@) == selected_of(
                    leaves_of_charts(self.charts@.take(i as int)),
                ),
            decreases n - i,
        {
            let ghost prev = r@;
            let mut part = self.charts[i].get_selected_kana();
            let ghost part_view = part@;
            r.append(&mut part);
            proof {
                lemma_leaves_of_charts_take_succ(self.charts@, i as int);
                lemma_selected_concat(
                    leaves_of_charts(self.charts@.take(i as int)),
                    self.charts@[i as int].leaves(),
                );
                assert(r@.map_values(|s: String| s@) =~= prev.map_values(|s: String| s@)
                    + part_view.map_values(|s: String| s@));
            }
            i += 1;
        }
        proof {
            assert(self.charts@.take(n as int) =~= self.charts@);
        }
        r
    }

    pub fn is_active(&self) -> (r: bool)
        ensures
            r == any_active(self.leaves()),
    {
        let n = self.charts.len();
        let mut i: usize = 0;
        while i < n
            invariant
                n == self.charts@.len(),
                i <= n,
                forall|j: int| 0 <= j < i ==> !any_active((#[trigger] self.charts@[j]).leaves()),
            decreases n - i,
        {
            if self.charts[i].is_active() {
                proof {
                    lemma_charts_any_active(self.charts@);
                }
                return true;
            }
            i += 1;
        }
        proof {
            lemma_charts_any_active(self.charts@);
        }
        false
    }

    pub fn toggle(&mut self)
        requires
            old(self).wf(),
        ensures
            charts_set_to(
                old(self).charts@,
                final(self).charts@,
                !any_active(old(self).leaves()),
            ),
            set_to(
                old(self).leaves(),
                final(self).leaves(),
                !any_active(old(self).leaves()),
            ),
            final(self).title == old(self).title,
            final(self).wf(),
    {
        let active = !self.is_active();
        let n = self.charts.len();
        let mut i: usize = 0;
        while i < n
            invariant
                n == self.charts@.len(),
                self.charts@.len() == old(self).charts@.len(),
                self.title == old(self).title,
                i <= n,
                forall|j: int|
                    0 <= j < i ==> {
                        &&& (#[trigger] self.charts@[j]).title == old(self).charts@[j].title
                        &&& rows_set_to(old(self).charts@[j].rows@, self.charts@[j].rows@, active)
                        &&& self.charts@[j].wf()
                    },
                forall|j: int| i <= j < n ==> self.charts@[j] == old(self).charts@[j],
            decreases n - i,
        {
            let chart = &mut self.charts[i];
            chart.set_active(active);
            i += 1;
        }
        proof {
            lemma_charts_set_to(old(self).charts@, self.charts@, active);
        }
    }
}

} // verus!
