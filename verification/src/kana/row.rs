//! One row of symbol buttons, built by segmenting a fixed row string into
//! syllabogram units.
use vstd::prelude::*;
use vstd::string::*;
use vstd::utf8::is_ascii_chars;

use crate::kana::button::{
    any_active, buttons_wf, lemma_any_active_concat, lemma_same_symbols_concat,
    lemma_set_to_concat, lemma_toggle_complement, non_void_symbols, same_symbols, selected_of,
    set_to, KanaButton,
};
use crate::syllabograms::{new_syllabograms, segment};

verus! {

/// The leaves of a list of rows, in order.
pub open spec fn buttons_of_rows(rows: Seq<KanaRow>) -> Seq<KanaButton>
    decreases rows.len(),
{
    if rows.len() == 0 {
        Seq::empty()
    } else {
        buttons_of_rows(rows.drop_last()) + rows.last().buttons@
    }
}

pub proof fn lemma_buttons_of_rows_take_succ(rows: Seq<KanaRow>, i: int)
    requires
        0 <= i < rows.len(),
    ensures
        buttons_of_rows(rows.take(i + 1)) == buttons_of_rows(rows.take(i)) + rows[i].buttons@,
{
    assert(rows.take(i + 1).drop_last() =~= rows.take(i));
    assert(rows.take(i + 1).last() == rows[i]);
}

/// A row list has an active leaf exactly when one of its rows does.
pub proof fn lemma_rows_any_active(rows: Seq<KanaRow>)
    ensures
        any_active(buttons_of_rows(rows)) == exists|j: int|
            0 <= j < rows.len() && any_active((#[trigger] rows[j]).buttons@),
    decreases rows.len(),
{
    if rows.len() == 0 {
    } else {
        lemma_rows_any_active(rows.drop_last());
        lemma_any_active_concat(buttons_of_rows(rows.drop_last()), rows.last().buttons@);
        if exists|j: int| 0 <= j < rows.len() - 1 && any_active((#[trigger] rows.drop_last()[j]).buttons@) {
            let j = choose|j: int|
                0 <= j < rows.len() - 1 && any_active((#[trigger] rows.drop_last()[j]).buttons@);
            assert(any_active(rows[j].buttons@));
        }
        if any_active(rows.last().buttons@) {
            assert(any_active(rows[rows.len() - 1].buttons@));
        }
        if exists|j: int| 0 <= j < rows.len() && any_active((#[trigger] rows[j]).buttons@) {
            let j = choose|j: int| 0 <= j < rows.len() && any_active((#[trigger] rows[j]).buttons@);
            if j < rows.len() - 1 {
                assert(any_active(rows.drop_last()[j].buttons@));
            }
        }
    }
}

/// Well-formed rows flatten to a well-formed leaf list.
pub proof fn lemma_rows_buttons_wf(rows: Seq<KanaRow>)
    requires
        forall|j: int| 0 <= j < rows.len() ==> (#[trigger] rows[j]).wf(),
    ensures
        buttons_wf(buttons_of_rows(rows)),
    decreases rows.len(),
{
    if rows.len() == 0 {
    } else {
        assert forall|j: int| 0 <= j < rows.drop_last().len() implies (#[trigger] rows.drop_last()[
            j
        ]).wf() by {
            assert(rows.drop_last()[j] == rows[j]);
        }
        lemma_rows_buttons_wf(rows.drop_last());
        let a = buttons_of_rows(rows.drop_last());
        let b = rows.last().buttons@;
        assert forall|i: int| 0 <= i < (a + b).len() implies (#[trigger] (a + b)[i]).wf() by {
            if i < a.len() {
                assert((a + b)[i] == a[i]);
            } else {
                assert((a + b)[i] == b[i - a.len()]);
            }
        }
    }
}

/// Rows that keep their symbols pointwise flatten to a leaf list that
/// keeps its symbols.
pub proof fn lemma_rows_same_symbols(pre: Seq<KanaRow>, post: Seq<KanaRow>)
    requires
        post.len() == pre.len(),
        forall|j: int|
            0 <= j < pre.len() ==> same_symbols(pre[j].buttons@, (#[trigger] post[j]).buttons@),
    ensures
        same_symbols(buttons_of_rows(pre), buttons_of_rows(post)),
    decreases pre.len(),
{
    if pre.len() == 0 {
    } else {
        assert forall|j: int|
            0 <= j < pre.drop_last().len() implies same_symbols(
            pre.drop_last()[j].buttons@,
            (#[trigger] post.drop_last()[j]).buttons@,
        ) by {
            assert(pre.drop_last()[j] == pre[j]);
            assert(post.drop_last()[j] == post[j]);
        }
        lemma_rows_same_symbols(pre.drop_last(), post.drop_last());
        assert(same_symbols(pre[pre.len() - 1].buttons@, post[pre.len() - 1].buttons@));
        lemma_same_symbols_concat(
            buttons_of_rows(pre.drop_last()),
            buttons_of_rows(post.drop_last()),
            pre.last().buttons@,
            post.last().buttons@,
        );
    }
}

/// Every row of `post` is the matching row of `pre` with all its buttons
/// set to `a` (voids staying off).
pub open spec fn rows_set_to(pre: Seq<KanaRow>, post: Seq<KanaRow>, a: bool) -> bool {
    &&& post.len() == pre.len()
    &&& forall|j: int|
        0 <= j < pre.len() ==> set_to(pre[j].buttons@, (#[trigger] post[j]).buttons@, a)
}

/// Setting every row pointwise sets the whole flattened leaf list.
pub proof fn lemma_rows_set_to(pre: Seq<KanaRow>, post: Seq<KanaRow>, a: bool)
    requires
        rows_set_to(pre, post, a),
    ensures
        set_to(buttons_of_rows(pre), buttons_of_rows(post), a),
    decreases pre.len(),
{
    if pre.len() == 0 {
    } else {
        assert forall|j: int|
            0 <= j < pre.drop_last().len() implies set_to(
            pre.drop_last()[j].buttons@,
            (#[trigger] post.drop_last()[j]).buttons@,
            a,
        ) by {
            assert(pre.drop_last()[j] == pre[j]);
            assert(post.drop_last()[j] == post[j]);
        }
        lemma_rows_set_to(pre.drop_last(), post.drop_last(), a);
        assert(set_to(pre[pre.len() - 1].buttons@, post[pre.len() - 1].buttons@, a));
        lemma_set_to_concat(
            buttons_of_rows(pre.drop_last()),
            buttons_of_rows(post.drop_last()),
            pre.last().buttons@,
            post.last().buttons@,
            a,
        );
    }
}

pub struct KanaRow {
    pub buttons: Vec<KanaButton>,
}

/// Toggling a row selects all of its non-void symbols or none of them,
/// always the complement of whether anything was selected before.
pub proof fn lemma_row_toggle_selected(pre: KanaRow, post: KanaRow)
    requires
        set_to(pre.buttons@, post.buttons@, !any_active(pre.buttons@)),
    ensures
        any_active(pre.buttons@) ==> selected_of(post.buttons@) == Seq::<Seq<char>>::empty(),
        !any_active(pre.buttons@) ==> selected_of(post.buttons@) == non_void_symbols(
            pre.buttons@,
        ),
{
    lemma_toggle_complement(pre.buttons@, post.buttons@);
}

/// A row as after toggling it on from everywhere-off: every non-void button
/// active, voids off, symbols as segmented from `symbols`.
pub open spec fn row_all_on(row: KanaRow, symbols: Seq<char>) -> bool {
    &&& row.buttons@.len() == segment(symbols).len()
    &&& forall|i: int|
        0 <= i < row.buttons@.len() ==> {
            let u = segment(symbols)[i];
            &&& (#[trigger] row.buttons@[i]).symbol@ == u
            &&& row.buttons@[i].void == is_ascii_chars(u)
            &&& row.buttons@[i].active == !is_ascii_chars(u)
        }
}

/// The buttons of a freshly built row: one inactive button per syllabogram
/// unit of `symbols`, void exactly where the unit is ASCII filler.
pub open spec fn row_fresh(row: KanaRow, symbols: Seq<char>) -> bool {
    &&& row.buttons@.len() == segment(symbols).len()
    &&& forall|i: int|
        0 <= i < row.buttons@.len() ==> {
            let u = segment(symbols)[i];
            &&& (#[trigger] row.buttons@[i]).symbol@ == u
            &&& row.buttons@[i].active == false
            &&& row.buttons@[i].void == is_ascii_chars(u)
        }
}

impl KanaRow {
    pub open spec fn wf(self) -> bool {
        buttons_wf(self.buttons@)
    }

    pub fn new(symbols: &str) -> (r: KanaRow)
        ensures
            row_fresh(r, symbols@),
            r.wf(),
    {
        let ghost units = segment(symbols@);
        let mut buttons: Vec<KanaButton> = Vec::new();
        let mut iter = new_syllabograms(symbols);
        let ghost mut done: int = 0;
        loop
            invariant
                iter.wf(),
                iter.string@ == symbols@,
                0 <= done <= units.len(),
                buttons@.len() == done,
                segment(iter.remaining()) == units.subrange(done, units.len() as int),
                forall|i: int|
                    0 <= i < done ==> {
                        let u = units[i];
                        &&& (#[trigger] buttons@[i]).symbol@ == u
                        &&& buttons@[i].active == false
                        &&& buttons@[i].void == is_ascii_chars(u)
                    },
            ensures
                done == units.len(),
                buttons@.len() == done,
                forall|i: int|
                    0 <= i < done ==> {
                        let u = units[i];
                        &&& (#[trigger] buttons@[i]).symbol@ == u
                        &&& buttons@[i].active == false
                        &&& buttons@[i].void == is_ascii_chars(u)
                    },
            decreases iter.remaining().len(),
        {
            let next = iter.next();
            match next {
                None => {
                    proof {
                        assert(units.subrange(done, units.len() as int).len() == 0);
                    }
                    break;
                },
                Some(t) => {
                    proof {
                        assert(segment(iter.remaining()) =~= units.subrange(
                            done + 1,
                            units.len() as int,
                        ));
                        assert(t@ == units[done]);
                    }
                    buttons.push(KanaButton::new(t));
                    proof {
                        done = done + 1;
                    }
                },
            }
        }
        KanaRow { buttons }
    }

    pub fn get_selected_kana(&self) -> (r: Vec<String>)
        ensures
            r@.map_values(|s: String| s@) == selected_of(self.buttons@),
    {
        let mut r: Vec<String> = Vec::new();
        let n = self.buttons.len();
        let mut i: usize = 0;
        while i < n
            invariant
                n == self.buttons@.len(),
                i <= n,
                r@.map_values(|s: String| s@) == selected_of(self.buttons@.take(i as int)),
            decreases n - i,
        {
            let b = &self.buttons[i];
            let ghost prev = r@;
            if b.is_active() {
                r.push(b.symbol.clone());
            }
            proof {
                crate::kana::button::lemma_selected_take_succ(self.buttons@, i as int);
                if self.buttons@[i as int].active {
                    assert(r@.map_values(|s: String| s@) =~= prev.map_values(|s: String| s@)
                        + seq![self.buttons@[i as int].symbol@]);
                }
            }
            i += 1;
        }
        proof {
            assert(self.buttons@.take(n as int) =~= self.buttons@);
        }
        r
    }

    pub fn is_active(&self) -> (r: bool)
        ensures
            r == any_active(self.buttons@),
    {
        let n = self.buttons.len();
        let mut i: usize = 0;
        while i < n
            invariant
                n == self.buttons@.len(),
                i <= n,
                forall|j: int| 0 <= j < i ==> !(#[trigger] self.buttons@[j]).active,
            decreases n - i,
        {
            if self.buttons[i].is_active() {
                return true;
            }
            i += 1;
        }
        false
    }

    pub fn set_active(&mut self, active: bool)
        ensures
            set_to(old(self).buttons@, final(self).buttons@, active),
            final(self).wf(),
    {
        let n = self.buttons.len();
        let mut i: usize = 0;
        while i < n
            invariant
                n == self.buttons@.len(),
                i <= n,
                forall|j: int|
                    0 <= j < i ==> {
                        &&& (#[trigger] self.buttons@[j]).symbol == old(self).buttons@[j].symbol
                        &&& self.buttons@[j].void == old(self).buttons@[j].void
                        &&& self.buttons@[j].active == (active && !old(self).buttons@[j].void)
                    },
                forall|j: int| i <= j < n ==> self.buttons@[j] == old(self).buttons@[j],
            decreases n - i,
        {
            let b = &mut self.buttons[i];
            b.set_active(active);
            i += 1;
        }
    }

    pub fn toggle(&mut self)
        ensures
            set_to(old(self).buttons@, final(self).buttons@, !any_active(old(self).buttons@)),
            final(self).wf(),
    {
        let active = !self.is_active();
        self.set_active(active)
    }
}

} // verus!
