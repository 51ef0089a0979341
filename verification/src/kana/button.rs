//! A leaf of the selection tree: one symbol button. The stored `active` bit
//! of the leaves is the only selection state in the whole tree.
use vstd::prelude::*;
use vstd::string::*;
use vstd::utf8::is_ascii_chars;

verus! {

/// One selectable symbol. A button is `void` when its text is plain ASCII
/// filler holding a grid position open rather than a kana symbol; a void
/// button can never become active.
pub struct KanaButton {
    pub active: bool,
    pub void: bool,
    pub symbol: String,
}

impl KanaButton {
    /// Void placeholders are never active.
    pub open spec fn wf(self) -> bool {
        self.void ==> !self.active
    }

    pub fn new(symbol: &str) -> (r: KanaButton)
        ensures
            r.symbol@ == symbol@,
            r.active == false,
            r.void == is_ascii_chars(symbol@),
            r.wf(),
    {
        KanaButton { active: false, void: symbol.is_ascii(), symbol: symbol.to_owned() }
    }

    pub fn is_active(&self) -> (r: bool)
        ensures
            r == self.active,
    {
        self.active
    }

    pub fn set_active(&mut self, active: bool)
        ensures
            final(self).active == (active && !old(self).void),
            final(self).void == old(self).void,
            final(self).symbol == old(self).symbol,
            final(self).wf(),
    {
        self.active = active && !self.void
    }

    pub fn toggle(&mut self)
        ensures
            final(self).active == (!old(self).active && !old(self).void),
            final(self).void == old(self).void,
            final(self).symbol == old(self).symbol,
            final(self).wf(),
    {
        let flipped = self.active ^ true;
        self.set_active(flipped)
    }
}

/// All buttons satisfy the leaf invariant.
pub open spec fn buttons_wf(bs: Seq<KanaButton>) -> bool {
    forall|i: int| 0 <= i < bs.len() ==> (#[trigger] bs[i]).wf()
}

/// At least one button is active.
pub open spec fn any_active(bs: Seq<KanaButton>) -> bool {
    exists|i: int| 0 <= i < bs.len() && (#[trigger] bs[i]).active
}

/// The symbols of the active buttons, in order.
pub open spec fn selected_of(bs: Seq<KanaButton>) -> Seq<Seq<char>>
    decreases bs.len(),
{
    if bs.len() == 0 {
        Seq::empty()
    } else {
        selected_of(bs.drop_last()) + if bs.last().active {
            seq![bs.last().symbol@]
        } else {
            Seq::empty()
        }
    }
}

/// The symbols of the non-void buttons, in order.
pub open spec fn non_void_symbols(bs: Seq<KanaButton>) -> Seq<Seq<char>>
    decreases bs.len(),
{
    if bs.len() == 0 {
        Seq::empty()
    } else {
        non_void_symbols(bs.drop_last()) + if !bs.last().void {
            seq![bs.last().symbol@]
        } else {
            Seq::empty()
        }
    }
}

/// `post` is `pre` with every button's stored bit set to `a`, except that
/// void buttons always stay off.
pub open spec fn set_to(pre: Seq<KanaButton>, post: Seq<KanaButton>, a: bool) -> bool {
    &&& post.len() == pre.len()
    &&& forall|i: int|
        0 <= i < pre.len() ==> {
            &&& (#[trigger] post[i]).symbol == pre[i].symbol
            &&& post[i].void == pre[i].void
            &&& post[i].active == (a && !pre[i].void)
        }
}

pub proof fn lemma_selected_take_succ(bs: Seq<KanaButton>, i: int)
    requires
        0 <= i < bs.len(),
    ensures
        selected_of(bs.take(i + 1)) == selected_of(bs.take(i)) + if bs[i].active {
            seq![bs[i].symbol@]
        } else {
            Seq::<Seq<char>>::empty()
        },
{
    assert(bs.take(i + 1).drop_last() =~= bs.take(i));
    assert(bs.take(i + 1).last() == bs[i]);
}

/// Selections concatenate along button lists.
pub proof fn lemma_selected_concat(a: Seq<KanaButton>, b: Seq<KanaButton>)
    ensures
        selected_of(a + b) == selected_of(a) + selected_of(b),
    decreases b.len(),
{
    if b.len() == 0 {
        assert(a + b =~= a);
        assert(selected_of(a) + Seq::<Seq<char>>::empty() =~= selected_of(a));
    } else {
        lemma_selected_concat(a, b.drop_last());
        assert((a + b).drop_last() =~= a + b.drop_last());
        assert((a + b).last() == b.last());
        assert(selected_of(a) + selected_of(b.drop_last()) + if b.last().active {
            seq![b.last().symbol@]
        } else {
            Seq::<Seq<char>>::empty()
        } =~= selected_of(a) + selected_of(b));
    }
}

/// No two non-void buttons carry the same symbol text. This holds of the
/// fixed charts and is never disturbed: no operation rewrites a symbol.
pub open spec fn distinct_non_void_symbols(bs: Seq<KanaButton>) -> bool {
    forall|i: int, j: int|
        #![trigger bs[i], bs[j]]
        0 <= i < j < bs.len() && !bs[i].void && !bs[j].void ==> bs[i].symbol@ != bs[j].symbol@
}

/// `post` carries the same symbols and void marks as `pre`, position by
/// position; only the active bits may differ.
pub open spec fn same_symbols(pre: Seq<KanaButton>, post: Seq<KanaButton>) -> bool {
    &&& post.len() == pre.len()
    &&& forall|i: int|
        0 <= i < pre.len() ==> (#[trigger] post[i]).symbol == pre[i].symbol && post[i].void
            == pre[i].void
}

/// Symbol distinctness only depends on the symbols and void marks.
pub proof fn lemma_same_symbols_distinct(pre: Seq<KanaButton>, post: Seq<KanaButton>)
    requires
        same_symbols(pre, post),
    ensures
        distinct_non_void_symbols(post) <==> distinct_non_void_symbols(pre),
{
    if distinct_non_void_symbols(pre) {
        assert forall|i: int, j: int|
            0 <= i < j < post.len() && !post[i].void && !post[j].void implies post[i].symbol@
            != post[j].symbol@ by {
            assert(pre[i].symbol == post[i].symbol && pre[j].symbol == post[j].symbol);
        }
    }
    if distinct_non_void_symbols(post) {
        assert forall|i: int, j: int|
            0 <= i < j < pre.len() && !pre[i].void && !pre[j].void implies pre[i].symbol@
            != pre[j].symbol@ by {
            assert(post[i].symbol == pre[i].symbol && post[j].symbol == pre[j].symbol);
        }
    }
}

/// Symbol frames concatenate.
pub proof fn lemma_same_symbols_concat(
    a1: Seq<KanaButton>,
    b1: Seq<KanaButton>,
    a2: Seq<KanaButton>,
    b2: Seq<KanaButton>,
)
    requires
        same_symbols(a1, b1),
        same_symbols(a2, b2),
    ensures
        same_symbols(a1 + a2, b1 + b2),
{
    assert forall|i: int|
        0 <= i < (a1 + a2).len() implies (#[trigger] (b1 + b2)[i]).symbol == (a1 + a2)[i].symbol
        && (b1 + b2)[i].void == (a1 + a2)[i].void by {
        if i < a1.len() {
            assert((b1 + b2)[i] == b1[i]);
            assert((a1 + a2)[i] == a1[i]);
        } else {
            assert((b1 + b2)[i] == b2[i - a1.len()]);
            assert((a1 + a2)[i] == a2[i - a1.len()]);
        }
    }
}

/// A subtree-wide set keeps every symbol and every void mark.
pub proof fn lemma_set_to_same_symbols(pre: Seq<KanaButton>, post: Seq<KanaButton>, a: bool)
    requires
        set_to(pre, post, a),
    ensures
        same_symbols(pre, post),
{
    assert forall|i: int|
        0 <= i < pre.len() implies (#[trigger] post[i]).symbol == pre[i].symbol && post[i].void
        == pre[i].void by {}
}

/// Every selected symbol is the symbol of some active button.
pub proof fn lemma_selected_membership(bs: Seq<KanaButton>, m: int)
    requires
        0 <= m < selected_of(bs).len(),
    ensures
        exists|i: int|
            0 <= i < bs.len() && (#[trigger] bs[i]).active && bs[i].symbol@ == selected_of(
                bs,
            )[m],
    decreases bs.len(),
{
    if bs.len() == 0 {
    } else {
        let prefix = selected_of(bs.drop_last());
        if m < prefix.len() {
            lemma_selected_membership(bs.drop_last(), m);
            let i = choose|i: int|
                0 <= i < bs.drop_last().len() && (#[trigger] bs.drop_last()[i]).active
                    && bs.drop_last()[i].symbol@ == prefix[m];
            assert(bs[i].active && bs[i].symbol@ == selected_of(bs)[m]);
        } else {
            assert(bs.last().active);
            assert(bs[bs.len() - 1].active && bs[bs.len() - 1].symbol@ == selected_of(bs)[m]);
        }
    }
}

/// With pairwise distinct non-void symbols, the selection never repeats a
/// symbol: the selected-symbol set is duplicate-free.
pub proof fn lemma_selected_no_duplicates(bs: Seq<KanaButton>)
    requires
        buttons_wf(bs),
        distinct_non_void_symbols(bs),
    ensures
        selected_of(bs).no_duplicates(),
    decreases bs.len(),
{
    if bs.len() == 0 {
    } else {
        assert forall|i: int| 0 <= i < bs.drop_last().len() implies (#[trigger] bs.drop_last()[
            i
        ]).wf() by {
            assert(bs.drop_last()[i] == bs[i]);
        }
        assert forall|i: int, j: int|
            #![trigger bs.drop_last()[i], bs.drop_last()[j]]
            0 <= i < j < bs.drop_last().len() && !bs.drop_last()[i].void && !bs.drop_last()[
                j
            ].void implies bs.drop_last()[i].symbol@ != bs.drop_last()[j].symbol@ by {
            assert(bs.drop_last()[i] == bs[i]);
            assert(bs.drop_last()[j] == bs[j]);
        }
        lemma_selected_no_duplicates(bs.drop_last());
        let prefix = selected_of(bs.drop_last());
        let s = selected_of(bs);
        if bs.last().active {
            assert(s =~= prefix.push(bs.last().symbol@));
            assert forall|m: int| 0 <= m < prefix.len() implies prefix[m] != bs.last().symbol@ by {
                lemma_selected_membership(bs.drop_last(), m);
                let i = choose|i: int|
                    0 <= i < bs.drop_last().len() && (#[trigger] bs.drop_last()[i]).active
                        && bs.drop_last()[i].symbol@ == prefix[m];
                assert(bs.drop_last()[i] == bs[i]);
                assert(!bs[i].void);
                assert(!bs[bs.len() - 1].void);
            }
            assert forall|m1: int, m2: int|
                0 <= m1 < s.len() && 0 <= m2 < s.len() && m1 != m2 implies s[m1] != s[m2] by {
                if m1 < prefix.len() && m2 < prefix.len() {
                    assert(s[m1] == prefix[m1] && s[m2] == prefix[m2]);
                } else if m1 < prefix.len() {
                    assert(s[m1] == prefix[m1] && s[m2] == bs.last().symbol@);
                } else {
                    assert(s[m2] == prefix[m2] && s[m1] == bs.last().symbol@);
                }
            }
        } else {
            assert(s =~= prefix);
        }
    }
}

/// A void leaf stays inactive through any subtree-wide set, whatever state
/// was asked for; so no sequence of toggles at any level ever activates a
/// placeholder.
pub proof fn lemma_void_leaves_stay_inactive(
    pre: Seq<KanaButton>,
    post: Seq<KanaButton>,
    a: bool,
)
    requires
        set_to(pre, post, a),
    ensures
        forall|i: int| 0 <= i < post.len() && pre[i].void ==> !(#[trigger] post[i]).active,
{
}

/// Activity distributes over concatenation of button lists.
pub proof fn lemma_any_active_concat(a: Seq<KanaButton>, b: Seq<KanaButton>)
    ensures
        any_active(a + b) == (any_active(a) || any_active(b)),
{
    if any_active(a) {
        let i = choose|i: int| 0 <= i < a.len() && (#[trigger] a[i]).active;
        assert((a + b)[i].active);
    }
    if any_active(b) {
        let i = choose|i: int| 0 <= i < b.len() && (#[trigger] b[i]).active;
        assert((a + b)[a.len() + i].active);
    }
    if any_active(a + b) {
        let i = choose|i: int| 0 <= i < (a + b).len() && (#[trigger] (a + b)[i]).active;
        if i < a.len() {
            assert(a[i].active);
        } else {
            assert(b[i - a.len()].active);
        }
    }
}

/// Pointwise setting distributes over concatenation of button lists.
pub proof fn lemma_set_to_concat(
    a1: Seq<KanaButton>,
    b1: Seq<KanaButton>,
    a2: Seq<KanaButton>,
    b2: Seq<KanaButton>,
    a: bool,
)
    requires
        set_to(a1, b1, a),
        set_to(a2, b2, a),
    ensures
        set_to(a1 + a2, b1 + b2, a),
{
    assert forall|i: int| 0 <= i < (a1 + a2).len() implies {
        &&& (#[trigger] (b1 + b2)[i]).symbol == (a1 + a2)[i].symbol
        &&& (b1 + b2)[i].void == (a1 + a2)[i].void
        &&& (b1 + b2)[i].active == (a && !(a1 + a2)[i].void)
    } by {
        if i < a1.len() {
            assert((b1 + b2)[i] == b1[i]);
            assert((a1 + a2)[i] == a1[i]);
        } else {
            assert((b1 + b2)[i] == b2[i - a1.len()]);
            assert((a1 + a2)[i] == a2[i - a1.len()]);
        }
    }
}

/// A selection is non-empty exactly when some button is active.
pub proof fn lemma_selected_nonempty_iff_active(bs: Seq<KanaButton>)
    ensures
        selected_of(bs).len() != 0 <==> any_active(bs),
    decreases bs.len(),
{
    if bs.len() == 0 {
    } else {
        lemma_selected_nonempty_iff_active(bs.drop_last());
        if bs.last().active {
            assert(bs[bs.len() - 1].active);
        } else if any_active(bs) {
            let i = choose|i: int| 0 <= i < bs.len() && (#[trigger] bs[i]).active;
            assert(bs.drop_last()[i] == bs[i]);
        }
    }
}

/// Setting every leaf to one value selects either every non-void symbol or
/// nothing at all.
pub proof fn lemma_set_to_selected(pre: Seq<KanaButton>, post: Seq<KanaButton>, a: bool)
    requires
        set_to(pre, post, a),
    ensures
        selected_of(post) == if a {
            non_void_symbols(pre)
        } else {
            Seq::<Seq<char>>::empty()
        },
    decreases pre.len(),
{
    if pre.len() == 0 {
        assert(post.len() == 0);
    } else {
        assert(set_to(pre.drop_last(), post.drop_last(), a)) by {
            assert forall|i: int| 0 <= i < pre.drop_last().len() implies {
                &&& (#[trigger] post.drop_last()[i]).symbol == pre.drop_last()[i].symbol
                &&& post.drop_last()[i].void == pre.drop_last()[i].void
                &&& post.drop_last()[i].active == (a && !pre.drop_last()[i].void)
            } by {
                assert(post.drop_last()[i] == post[i]);
                assert(pre.drop_last()[i] == pre[i]);
            }
        }
        lemma_set_to_selected(pre.drop_last(), post.drop_last(), a);
        assert(post.last() == post[pre.len() - 1]);
        assert(pre.last() == pre[pre.len() - 1]);
        if a {
            assert(selected_of(post) =~= non_void_symbols(pre));
        } else {
            assert(selected_of(post) =~= Seq::<Seq<char>>::empty());
        }
    }
}

/// Toggling a whole subtree flips its selection to the complement: a subtree
/// with any active leaf empties out; one with none lights every non-void
/// leaf. Never a partial mix.
pub proof fn lemma_toggle_complement(pre: Seq<KanaButton>, post: Seq<KanaButton>)
    requires
        set_to(pre, post, !any_active(pre)),
    ensures
        any_active(pre) ==> selected_of(post) == Seq::<Seq<char>>::empty(),
        !any_active(pre) ==> selected_of(post) == non_void_symbols(pre),
{
    lemma_set_to_selected(pre, post, !any_active(pre));
}

} // verus!
