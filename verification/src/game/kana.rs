//! The practice line: a sliding window of quiz items sampled from the
//! selected symbols, matched one at a time against the typed text.
use vstd::prelude::*;
use vstd::string::*;

use crate::translations::{KanaTranslation, KanaTranslationList};

verus! {

// --- the trusted boundary ---

/// Relies on rand::random: one draw of process-wide entropy. Nothing can be
/// promised of the value.
#[verifier::external_body]
fn random_usize() -> usize {
    rand::random::<usize>()
}

/// What str::to_lowercase returns for a given character sequence; the
/// result depends on the characters alone.
pub uninterp spec fn lower_of(s: Seq<char>) -> Seq<char>;

/// Relies on str::to_lowercase: Unicode lowercasing. Every character
/// lowercases to at least one character, so exactly the empty string
/// lowercases to the empty string.
#[verifier::external_body]
fn lowercase(s: &str) -> (r: String)
    ensures
        r@ == lower_of(s@),
        (r@.len() == 0) == (s@.len() == 0),
{
    s.to_lowercase()
}

// --- quiz items ---

#[derive(Clone, Copy, Debug, PartialEq, Eq, Structural)]
pub enum ContentState {
    Unanswered,
    Answered(bool),
}

/// One in-flight quiz item: a symbol table entry, the symbol's width in
/// characters, and whether it has been answered. An item transitions at
/// most once, from `Unanswered` to `Answered`, and is then only ever
/// evicted.
pub struct Content {
    pub translation: KanaTranslation,
    pub size: usize,
    pub state: ContentState,
}

/// The single-glyph symbols whose accepted answers vary in length: the
/// vowels and the nasal n of both syllabaries. Any non-empty input is
/// matched against these immediately rather than waiting for the input to
/// reach the answer's length.
pub open spec fn is_ambiguous_char(c: char) -> bool {
    ||| c == 'あ'
    ||| c == 'い'
    ||| c == 'う'
    ||| c == 'え'
    ||| c == 'お'
    ||| c == 'ん'
    ||| c == 'ア'
    ||| c == 'イ'
    ||| c == 'ウ'
    ||| c == 'エ'
    ||| c == 'オ'
    ||| c == 'ン'
}

pub fn ambiguous_char(c: char) -> (r: bool)
    ensures
        r == is_ambiguous_char(c),
{
    c == 'あ' || c == 'い' || c == 'う' || c == 'え' || c == 'お' || c == 'ん' || c == 'ア'
        || c == 'イ' || c == 'ウ' || c == 'エ' || c == 'オ' || c == 'ン'
}

pub open spec fn spec_is_ambiguous(sym: Seq<char>) -> bool {
    sym.len() == 1 && is_ambiguous_char(sym[0])
}

/// Whether `text` is checked against the item at all: non-empty, and either
/// the symbol is ambiguous-length or the text has reached the primary
/// answer's length.
pub open spec fn spec_answers(c: Content, text: Seq<char>) -> bool {
    text.len() > 0 && (spec_is_ambiguous(c.translation.kana@) || text.len()
        == c.translation.romanji@.len())
}

/// Whether `text` is an accepted answer: the primary one, or the alternate
/// one when the entry has it.
pub open spec fn spec_correct(c: Content, text: Seq<char>) -> bool {
    ||| text == c.translation.romanji@
    ||| (c.translation.alt_romanji matches Some(alt) && text == alt@)
}

/// The item's state after checking `text` against it. `Answered` is
/// terminal: an item transitions at most once, and a later check can never
/// overwrite the stored correctness.
pub open spec fn spec_check(c: Content, text: Seq<char>) -> ContentState {
    if c.state is Unanswered && spec_answers(c, text) {
        ContentState::Answered(spec_correct(c, text))
    } else {
        c.state
    }
}

impl Content {
    pub open spec fn wf(self) -> bool {
        self.size == self.translation.kana@.len()
    }

    pub fn new(translation: KanaTranslation) -> (r: Content)
        ensures
            r.translation == translation,
            r.size == translation.kana@.len(),
            r.state == ContentState::Unanswered,
            r.wf(),
    {
        let size = translation.kana.as_str().unicode_len();
        Content { translation, size, state: ContentState::Unanswered }
    }

    /// Check already-lowercased text against this item. Exactly when the
    /// item is still unanswered, the text is non-empty, and the symbol is
    /// ambiguous-length or the text has the primary answer's length, the
    /// item becomes answered, correctly exactly when the text is one of the
    /// accepted answers. A shorter text never transitions the item, and an
    /// answered item never changes again.
    pub fn check(&mut self, text: String)
        ensures
            final(self).translation == old(self).translation,
            final(self).size == old(self).size,
            final(self).state == spec_check(*old(self), text@),
    {
        if matches!(self.state, ContentState::Answered(_)) {
            return ;
        }
        if text.as_str().is_empty() {
            return ;
        }
        let ambiguous = {
            let kana = self.translation.kana.as_str();
            if kana.unicode_len() == 1 {
                ambiguous_char(kana.get_char(0))
            } else {
                false
            }
        };
        if ambiguous || text.as_str().unicode_len()
            == self.translation.romanji.as_str().unicode_len() {
            let mut is_correct = self.translation.romanji == text;
            match &self.translation.alt_romanji {
                Some(alt_romanji) => {
                    if *alt_romanji == text {
                        is_correct = true;
                    }
                },
                None => {},
            }
            self.state = ContentState::Answered(is_correct);
        }
    }
}

/// An answered item is terminal: no further check moves it or rewrites its
/// stored correctness.
pub proof fn lemma_answered_is_terminal(c: Content, text: Seq<char>)
    requires
        c.state is Answered,
    ensures
        spec_check(c, text) == c.state,
{
}

/// The matching rule in one place: an ambiguous-length symbol answers on
/// any non-empty text; otherwise a text whose length differs from the
/// primary answer's never transitions the item; a text of the answer's
/// length transitions it, correctly exactly when it is an accepted answer.
pub proof fn lemma_check_matching(c: Content, text: Seq<char>)
    requires
        c.state is Unanswered,
        text.len() > 0,
    ensures
        spec_is_ambiguous(c.translation.kana@) ==> spec_check(c, text) is Answered,
        !spec_is_ambiguous(c.translation.kana@) && text.len() != c.translation.romanji@.len()
            ==> spec_check(c, text) is Unanswered,
        spec_answers(c, text) ==> spec_check(c, text) == ContentState::Answered(
            spec_correct(c, text),
        ),
{
}

// --- sampling ---

/// Draws items uniformly, with replacement, from the translations of the
/// currently selected symbols.
pub struct ContentGenerator {
    pub translations: KanaTranslationList,
}

/// `c` is a fresh, unanswered quiz item drawn from `ts`.
pub open spec fn is_sample_of(c: Content, ts: Seq<KanaTranslation>) -> bool {
    &&& exists|i: int| 0 <= i < ts.len() && c.translation == ts[i]
    &&& c.size == c.translation.kana@.len()
    &&& c.state == ContentState::Unanswered
}

impl Default for ContentGenerator {
    fn default() -> (r: ContentGenerator)
        ensures
            r.translations@.len() == 0,
    {
        ContentGenerator { translations: Vec::new() }
    }
}

impl ContentGenerator {
    /// A fresh item for one of the selected symbols, or nothing when the
    /// selection is empty. Which symbol comes back is up to the random
    /// draw; every outcome is an entry of the list.
    pub fn random(&self) -> (r: Option<Content>)
        ensures
            r is None <==> self.translations@.len() == 0,
            r matches Some(c) ==> is_sample_of(c, self.translations@),
    {
        if self.translations.is_empty() {
            return None;
        }
        let index = random_usize() % self.translations.len();
        let translation = self.translations[index].clone();
        Some(Content::new(translation))
    }

    pub fn set_translations(&mut self, translations: KanaTranslationList)
        ensures
            final(self).translations == translations,
    {
        self.translations = translations;
    }
}

// --- the sliding window ---

/// The sum of the items' character widths.
pub open spec fn total_width(cs: Seq<Content>) -> nat
    decreases cs.len(),
{
    if cs.len() == 0 {
        0
    } else {
        total_width(cs.drop_last()) + cs.last().size as nat
    }
}

pub proof fn lemma_total_width_take_succ(cs: Seq<Content>, i: int)
    requires
        0 <= i < cs.len(),
    ensures
        total_width(cs.take(i + 1)) == total_width(cs.take(i)) + cs[i].size,
{
    assert(cs.take(i + 1).drop_last() =~= cs.take(i));
    assert(cs.take(i + 1).last() == cs[i]);
}

pub proof fn lemma_total_width_take_le(cs: Seq<Content>, i: int)
    requires
        0 <= i <= cs.len(),
    ensures
        total_width(cs.take(i)) <= total_width(cs),
    decreases cs.len() - i,
{
    if i == cs.len() {
        assert(cs.take(i) =~= cs);
    } else {
        lemma_total_width_take_succ(cs, i);
        lemma_total_width_take_le(cs, i + 1);
    }
}

/// The practice line: a window of `length` in-flight items, a cursor at the
/// item currently receiving input, and the sampler feeding the window.
pub struct KanaLine {
    pub length: usize,
    pub content_generator: ContentGenerator,
    pub contents: Vec<Content>,
    pub index: usize,
    pub shifted: bool,
}

/// The window and cursor after the amortized slide: when the cursor has
/// reached at least half the window's length, the front third is evicted,
/// as many fresh samples are appended at the back, and the cursor moves
/// back by the evicted count, still pointing at the same logical item;
/// otherwise both stay as they are.
pub open spec fn slide_rel_on(
    pre_contents: Seq<Content>,
    pre_index: int,
    ts: Seq<KanaTranslation>,
    post_contents: Seq<Content>,
    post_index: int,
) -> bool {
    if pre_contents.len() > 0 && 2 * pre_index >= pre_contents.len() {
        let n = pre_contents.len() as int;
        let k = n / 3;
        &&& post_contents.len() == n
        &&& post_contents.subrange(0, n - k) == pre_contents.subrange(k, n)
        &&& forall|j: int|
            n - k <= j < n ==> is_sample_of(#[trigger] post_contents[j], ts)
        &&& post_index == pre_index - k
    } else {
        &&& post_contents == pre_contents
        &&& post_index == pre_index
    }
}

/// The slide, between two whole line states.
pub open spec fn slide_rel(pre: KanaLine, post: KanaLine) -> bool {
    slide_rel_on(
        pre.contents@,
        pre.index as int,
        pre.content_generator.translations@,
        post.contents@,
        post.index as int,
    )
}

/// A slide, with everything else unchanged.
pub open spec fn resample_rel(pre: KanaLine, post: KanaLine) -> bool {
    &&& post.length == pre.length
    &&& post.content_generator == pre.content_generator
    &&& post.shifted == pre.shifted
    &&& slide_rel(pre, post)
}

impl KanaLine {
    /// The window is either empty or filled to its configured length; items
    /// before the cursor are answered, the cursor item and everything after
    /// it are not; a non-empty window implies a non-empty sampling pool.
    pub open spec fn wf(self) -> bool {
        &&& self.index <= self.contents@.len()
        &&& self.contents@.len() == 0 || self.contents@.len() == self.length
        &&& self.contents@.len() > 0 ==> self.content_generator.translations@.len() > 0
        &&& forall|i: int|
            0 <= i < self.index ==> (#[trigger] self.contents@[i]).state is Answered
        &&& forall|i: int|
            self.index <= i < self.contents@.len() ==> (#[trigger] self.contents@[i]).state
                is Unanswered
        &&& forall|i: int| 0 <= i < self.contents@.len() ==> (#[trigger] self.contents@[i]).wf()
    }

    /// An empty line that will keep a window of `length` items once given a
    /// non-empty selection.
    pub fn new(length: usize) -> (r: KanaLine)
        ensures
            r.length == length,
            r.contents@.len() == 0,
            r.index == 0,
            r.shifted == false,
            r.content_generator.translations@.len() == 0,
            r.wf(),
    {
        KanaLine {
            length,
            content_generator: ContentGenerator::default(),
            contents: Vec::with_capacity(length),
            index: 0,
            shifted: false,
        }
    }

    /// Rebuild the window for a new selection or visibility change: clear
    /// it, and, when shown and the selection is non-empty, fill it back to
    /// `length` fresh samples; the cursor returns to the front. An empty
    /// selection leaves the window empty rather than failing.
    pub fn reinitialize(&mut self, translations: KanaTranslationList, hidden: bool)
        ensures
            final(self).length == old(self).length,
            final(self).shifted == old(self).shifted,
            final(self).index == 0,
            final(self).content_generator.translations == translations,
            hidden || translations@.len() == 0 ==> final(self).contents@.len() == 0,
            !hidden && translations@.len() > 0 ==> {
                &&& final(self).contents@.len() == old(self).length
                &&& forall|i: int|
                    0 <= i < final(self).contents@.len() ==> is_sample_of(
                        #[trigger] final(self).contents@[i],
                        translations@,
                    )
            },
            final(self).wf(),
    {
        self.content_generator.set_translations(translations);
        self.contents.clear();
        let ghost ts = self.content_generator.translations@;
        if !hidden {
            let length = self.length;
            let mut n: usize = 0;
            while n < length
                invariant
                    n <= length,
                    length == self.length,
                    self.length == old(self).length,
                    self.shifted == old(self).shifted,
                    self.index == old(self).index,
                    self.content_generator.translations@ == ts,
                    self.content_generator.translations == translations,
                    self.contents@.len() == n,
                    n > 0 ==> ts.len() > 0,
                    forall|i: int|
                        0 <= i < n ==> is_sample_of(#[trigger] self.contents@[i], ts),
                ensures
                    self.length == old(self).length,
                    self.shifted == old(self).shifted,
                    self.index == old(self).index,
                    self.content_generator.translations == translations,
                    self.contents@.len() == if ts.len() == 0 {
                        0int
                    } else {
                        length as int
                    },
                    forall|i: int|
                        0 <= i < self.contents@.len() ==> is_sample_of(
                            #[trigger] self.contents@[i],
                            ts,
                        ),
                decreases length - n,
            {
                let sample = self.content_generator.random();
                match sample {
                    Some(content) => {
                        self.contents.push(content);
                    },
                    None => {
                        // empty selection: leave the window empty
                        break ;
                    },
                }
                n += 1;
            }
        }
        self.index = 0;
    }

    /// Match the typed text against the cursor item. No-op on an empty
    /// window or empty text. When the item answers, report its correctness,
    /// advance the cursor, mark the window shifted, and slide the window
    /// when the advanced cursor has reached at least half the window's
    /// length; otherwise only clear the shifted mark.
    pub fn check(&mut self, text: &str) -> (outcome: Option<bool>)
        requires
            old(self).wf(),
            old(self).contents@.len() == 0 || text@.len() == 0 || old(self).index < old(
                self,
            ).contents@.len(),
        ensures
            final(self).wf(),
            old(self).contents@.len() == 0 || text@.len() == 0 ==> *final(self) == *old(self)
                && outcome is None,
            old(self).contents@.len() > 0 && text@.len() > 0 ==> lower_of(text@).len() > 0,
            old(self).contents@.len() > 0 && text@.len() > 0 ==> ({
                let lt = lower_of(text@);
                let cur = old(self).contents@[old(self).index as int];
                &&& final(self).length == old(self).length
                &&& final(self).content_generator == old(self).content_generator
                &&& if spec_answers(cur, lt) {
                    &&& outcome == Some(spec_correct(cur, lt))
                    &&& final(self).shifted == true
                    &&& slide_rel_on(
                        old(self).contents@.update(
                            old(self).index as int,
                            (Content {
                                state: ContentState::Answered(spec_correct(cur, lt)),
                                ..cur
                            }),
                        ),
                        old(self).index + 1,
                        old(self).content_generator.translations@,
                        final(self).contents@,
                        final(self).index as int,
                    )
                } else {
                    &&& outcome is None
                    &&& final(self).shifted == false
                    &&& final(self).contents@ == old(self).contents@
                    &&& final(self).index == old(self).index
                }
            }),
    {
        if self.contents.is_empty() || text.is_empty() {
            return None;
        }
        let lowered = lowercase(text);
        let ghost pre = *self;
        let index = self.index;
        let current = &mut self.contents[index];
        current.check(lowered);
        let state = current.state;
        match state {
            ContentState::Unanswered => {
                proof {
                    assert(self.contents@ =~= pre.contents@);
                }
                self.shifted = false;
                None
            },
            ContentState::Answered(is_correct) => {
                self.index = self.index + 1;
                self.shifted = true;
                let ghost mid = *self;
                self.resample();
                proof {
                    assert(slide_rel(mid, *self));
                    assert(slide_rel_on(
                        mid.contents@,
                        mid.index as int,
                        mid.content_generator.translations@,
                        self.contents@,
                        self.index as int,
                    ));
                }
                Some(is_correct)
            },
        }
    }

    /// Slide the window when the cursor has reached at least half of its
    /// length: evict the front third, append as many fresh samples, and
    /// pull the cursor back by the evicted count. Returns whether the
    /// window slid.
    pub fn resample(&mut self) -> (r: bool)
        requires
            old(self).wf(),
        ensures
            final(self).wf(),
            resample_rel(*old(self), *final(self)),
            r == (old(self).contents@.len() > 0 && 2 * old(self).index >= old(
                self,
            ).contents@.len()),
    {
        if !self.contents.is_empty() && self.contents.len() - self.index <= self.index {
            let k = self.contents.len() / 3;
            let ghost pre = *self;
            let ghost n = pre.contents@.len() as int;
            let mut t: usize = 0;
            while t < k
                invariant
                    pre.wf(),
                    k == n / 3,
                    n == pre.contents@.len(),
                    n > 0,
                    2 * pre.index >= n,
                    pre.index <= n,
                    pre.content_generator.translations@.len() > 0,
                    t <= k,
                    self.length == pre.length,
                    self.content_generator == pre.content_generator,
                    self.shifted == pre.shifted,
                    self.contents@.len() == n,
                    self.index == pre.index - t,
                    self.contents@.subrange(0, n - t) == pre.contents@.subrange(t as int, n),
                    forall|j: int|
                        n - t <= j < n ==> is_sample_of(
                            #[trigger] self.contents@[j],
                            pre.content_generator.translations@,
                        ),
                decreases k - t,
            {
                let ghost before = self.contents@;
                self.contents.remove(0);
                let fresh = self.content_generator.random().unwrap();
                self.contents.push(fresh);
                self.index = self.index - 1;
                proof {
                    assert forall|j: int| 0 <= j < n - (t + 1) implies self.contents@[j]
                        == pre.contents@[t + 1 + j] by {
                        assert(self.contents@[j] == before[j + 1]);
                        assert(before.subrange(0, n - t)[j + 1] == pre.contents@.subrange(
                            t as int,
                            n,
                        )[j + 1]);
                    }
                    assert(self.contents@.subrange(0, n - (t + 1)) =~= pre.contents@.subrange(
                        t + 1,
                        n,
                    ));
                }
                t += 1;
            }
            proof {
                let k_ = n / 3;
                assert forall|j: int| 0 <= j < n - k_ implies self.contents@[j]
                    == pre.contents@[j + k_] by {
                    assert(self.contents@.subrange(0, n - k_)[j] == pre.contents@.subrange(
                        k_,
                        n,
                    )[j]);
                }
            }
            return true;
        }
        false
    }

    /// Twice the left offset that centers the cursor item: the widths of
    /// the items before the cursor, plus half the cursor item's width, in
    /// half-character units. Zero for an empty window.
    pub fn get_margin_halves(&self) -> (r: usize)
        requires
            self.contents@.len() == 0 || self.index < self.contents@.len(),
            2 * total_width(self.contents@) <= usize::MAX,
        ensures
            self.contents@.len() == 0 ==> r == 0,
            self.contents@.len() > 0 ==> r == 2 * total_width(
                self.contents@.take(self.index as int),
            ) + self.contents@[self.index as int].size,
    {
        if self.contents.is_empty() {
            return 0;
        }
        let index = self.index;
        let mut sum: usize = 0;
        let mut i: usize = 0;
        while i < index
            invariant
                index < self.contents@.len(),
                i <= index,
                sum == total_width(self.contents@.take(i as int)),
                total_width(self.contents@) <= usize::MAX,
            decreases index - i,
        {
            proof {
                lemma_total_width_take_succ(self.contents@, i as int);
                lemma_total_width_take_le(self.contents@, i + 1);
            }
            sum = sum + self.contents[i].size;
            i += 1;
        }
        proof {
            lemma_total_width_take_succ(self.contents@, index as int);
            lemma_total_width_take_le(self.contents@, index as int + 1);
        }
        2 * sum + self.contents[index].size
    }

    /// The total width of the window, in character units.
    pub fn get_width(&self) -> (r: usize)
        requires
            total_width(self.contents@) <= usize::MAX,
        ensures
            r == total_width(self.contents@),
    {
        let n = self.contents.len();
        let mut sum: usize = 0;
        let mut i: usize = 0;
        while i < n
            invariant
                n == self.contents@.len(),
                i <= n,
                sum == total_width(self.contents@.take(i as int)),
                total_width(self.contents@) <= usize::MAX,
            decreases n - i,
        {
            proof {
                lemma_total_width_take_succ(self.contents@, i as int);
                lemma_total_width_take_le(self.contents@, i + 1);
            }
            sum = sum + self.contents[i].size;
            i += 1;
        }
        proof {
            assert(self.contents@.take(n as int) =~= self.contents@);
        }
        sum
    }
}

/// The window invariants of a slide, read off `resample_rel`: the length is
/// unchanged (so a full window stays at its configured capacity), the
/// cursor still points at the same logical item, and no item at or after
/// the cursor is evicted.
pub proof fn lemma_resample_window(pre: KanaLine, post: KanaLine)
    requires
        pre.wf(),
        resample_rel(pre, post),
        pre.contents@.len() > 0,
        2 * pre.index >= pre.contents@.len(),
        pre.index < pre.contents@.len(),
    ensures
        post.contents@.len() == pre.contents@.len(),
        post.contents@.len() == pre.length,
        post.contents@[post.index as int] == pre.contents@[pre.index as int],
        forall|j: int|
            pre.index <= j < pre.contents@.len() ==> post.contents@[
                j - pre.contents@.len() / 3
            ] == pre.contents@[j],
{
    let n = pre.contents@.len() as int;
    let k = n / 3;
    assert forall|j: int| pre.index <= j < n implies post.contents@[j - k]
        == pre.contents@[j] by {
        assert(post.contents@.subrange(0, n - k)[j - k] == pre.contents@.subrange(k, n)[j - k]);
    }
}

} // verus!
