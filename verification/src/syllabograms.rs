//! Segmentation of kana text into syllabogram units.
//!
//! A syllabogram is one base codepoint, fused with the following codepoint
//! when that codepoint is one of the small-kana modifier forms. The cursor
//! walks the text left to right, so every character of the input lands in
//! exactly one unit.
use vstd::prelude::*;
use vstd::string::*;

verus! {

/// The small-kana modifier codepoints: the small ya/yu/yo forms of both
/// syllabaries and the small vowels used in katakana extensions
/// (U+3083/85/87, U+30E3/E5/E7, U+30A1/A3/A5/A7/A9).
pub open spec fn is_small_kana(c: char) -> bool {
    ||| c == '\u{3083}'
    ||| c == '\u{3085}'
    ||| c == '\u{3087}'
    ||| c == '\u{30E3}'
    ||| c == '\u{30E5}'
    ||| c == '\u{30E7}'
    ||| c == '\u{30A1}'
    ||| c == '\u{30A3}'
    ||| c == '\u{30A5}'
    ||| c == '\u{30A7}'
    ||| c == '\u{30A9}'
}

/// Whether `c` is a small-kana modifier codepoint.
pub fn small_kana(c: char) -> (r: bool)
    ensures
        r == is_small_kana(c),
{
    c == '\u{3083}' || c == '\u{3085}' || c == '\u{3087}' || c == '\u{30E3}' || c == '\u{30E5}'
        || c == '\u{30E7}' || c == '\u{30A1}' || c == '\u{30A3}' || c == '\u{30A5}'
        || c == '\u{30A7}' || c == '\u{30A9}'
}

/// Length of the first syllabogram unit of `s`: two codepoints when a
/// small-kana modifier immediately follows the base, one otherwise.
pub open spec fn first_unit_len(s: Seq<char>) -> int {
    if s.len() >= 2 && is_small_kana(s[1]) {
        2
    } else {
        1
    }
}

/// The segmentation of `s` into syllabogram units, in order.
pub open spec fn segment(s: Seq<char>) -> Seq<Seq<char>>
    decreases s.len(),
{
    if s.len() == 0 {
        Seq::empty()
    } else {
        let k = first_unit_len(s);
        seq![s.subrange(0, k)] + segment(s.subrange(k, s.len() as int))
    }
}

/// Segmentation is lossless: concatenating the units reproduces the input.
pub proof fn lemma_segment_concat(s: Seq<char>)
    ensures
        segment(s).flatten() =~= s,
    decreases s.len(),
{
    if s.len() == 0 {
    } else {
        let k = first_unit_len(s);
        let u = s.subrange(0, k);
        let rest = s.subrange(k, s.len() as int);
        lemma_segment_concat(rest);
        let sgs = segment(s);
        assert(sgs.drop_first() =~= segment(rest));
        assert(sgs.flatten() == u + sgs.drop_first().flatten());
    }
}

/// Each unit of a segmentation sits at a definite position of the input:
/// unit `k` is the slice of `s` starting where the earlier units end, and its
/// length is two exactly when a small-kana codepoint immediately follows its
/// base codepoint there. So a small-kana codepoint is fused into a unit if
/// and only if it directly follows a freshly consumed base.
pub proof fn lemma_segment_unit_at(s: Seq<char>, k: int)
    requires
        0 <= k < segment(s).len(),
    ensures
        ({
            let start = segment(s).take(k).flatten().len() as int;
            let u = segment(s)[k];
            &&& 0 <= start
            &&& start + u.len() <= s.len()
            &&& u =~= s.subrange(start, start + u.len())
            &&& u.len() == first_unit_len(s.subrange(start, s.len() as int))
            &&& (u.len() == 2 <==> start + 1 < s.len() && is_small_kana(s[start + 1]))
        }),
    decreases k,
{
    let k0 = first_unit_len(s);
    let rest = s.subrange(k0, s.len() as int);
    if k == 0 {
        assert(segment(s).take(0).flatten() =~= Seq::<char>::empty());
        assert(segment(s)[0] == s.subrange(0, k0));
        assert(s.subrange(0, s.len() as int) =~= s);
    } else {
        lemma_segment_unit_at(rest, k - 1);
        let prev = segment(rest).take(k - 1);
        let start_rest = prev.flatten().len() as int;
        let u = segment(rest)[k - 1];
        assert(segment(s)[k] == u);
        assert(segment(s).take(k).drop_first() =~= prev);
        assert(segment(s).take(k).flatten() == s.subrange(0, k0) + prev.flatten());
        let start = segment(s).take(k).flatten().len() as int;
        assert(start == k0 + start_rest);
        assert(rest.subrange(start_rest, start_rest + u.len()) =~= s.subrange(
            start,
            start + u.len(),
        ));
        assert(rest.subrange(start_rest, rest.len() as int) =~= s.subrange(
            start,
            s.len() as int,
        ));
    }
}

/// Every unit is one base codepoint, or a base fused with a small-kana
/// codepoint; no unit is empty.
pub proof fn lemma_segment_units(s: Seq<char>)
    ensures
        forall|k: int|
            0 <= k < segment(s).len() ==> {
                let u = #[trigger] segment(s)[k];
                &&& 1 <= u.len() <= 2
                &&& (u.len() == 2 ==> is_small_kana(u[1]))
            },
{
    assert forall|k: int| 0 <= k < segment(s).len() implies {
        let u = #[trigger] segment(s)[k];
        &&& 1 <= u.len() <= 2
        &&& (u.len() == 2 ==> is_small_kana(u[1]))
    } by {
        lemma_segment_unit_at(s, k);
    }
}

/// A cursor over the character positions of a fixed piece of text, moving
/// forward one syllabogram unit at a time. Positions count codepoints.
pub struct SyllabogramCursor {
    pub offset: usize,
    pub len: usize,
}

impl SyllabogramCursor {
    pub fn new(offset: usize, len: usize) -> (r: SyllabogramCursor)
        ensures
            r.offset == offset,
            r.len == len,
    {
        SyllabogramCursor { offset, len }
    }

    pub fn cur_cursor(&self) -> (r: usize)
        ensures
            r == self.offset,
    {
        self.offset
    }

    /// Advance to the end of the syllabogram unit starting at the current
    /// offset. `chunk` is the text covering positions `chunk_start..len`.
    /// Returns the new offset, or `None` when the cursor is already at the
    /// end.
    pub fn next_boundary(&mut self, chunk: &str, chunk_start: usize) -> (r: Result<
        Option<usize>,
        (),
    >)
        requires
            chunk_start <= old(self).offset <= old(self).len,
            chunk_start + chunk@.len() == old(self).len,
        ensures
            old(self).offset == old(self).len ==> r == Ok::<Option<usize>, ()>(None)
                && *final(self) == *old(self),
            old(self).offset < old(self).len ==> ({
                let rel = old(self).offset - chunk_start;
                let end = old(self).offset + first_unit_len(
                    chunk@.subrange(rel, chunk@.len() as int),
                );
                &&& final(self).offset == end
                &&& final(self).len == old(self).len
                &&& chunk_start <= final(self).offset <= final(self).len
                &&& r == Ok::<Option<usize>, ()>(Some(end as usize))
            }),
    {
        if self.offset == self.len {
            return Ok(None);
        }
        let ghost rel_g = self.offset - chunk_start;
        let ghost sub = chunk@.subrange(rel_g, chunk@.len() as int);
        let rel = self.offset - chunk_start;
        let chunk_chars = chunk.unicode_len();
        // consume one codepoint as the unit's base
        self.offset = self.offset + 1;
        // peek the next codepoint; fuse it when it is a small-kana modifier
        if rel + 1 < chunk_chars {
            let next_ch = chunk.get_char(rel + 1);
            assert(chunk@[rel_g + 1] == sub[1]);
            if small_kana(next_ch) {
                self.offset = self.offset + 1;
            }
        }
        Ok(Some(self.offset))
    }
}

/// A restartable producer of the syllabogram units of one string, front to
/// back. `cursor` marks how far the front has advanced; `cursor_back` stays
/// at the end of the text.
pub struct Syllabograms<'a> {
    pub string: &'a str,
    pub cursor: SyllabogramCursor,
    pub cursor_back: SyllabogramCursor,
}

impl<'a> Syllabograms<'a> {
    pub open spec fn wf(self) -> bool {
        &&& self.cursor.offset <= self.cursor.len == self.string@.len()
        &&& self.cursor_back.offset == self.cursor_back.len == self.string@.len()
    }

    /// The characters not yet produced as units.
    pub open spec fn remaining(self) -> Seq<char> {
        self.string@.subrange(self.cursor.offset as int, self.string@.len() as int)
    }

    pub fn as_str(&self) -> (r: &'a str)
        requires
            self.wf(),
        ensures
            r@ == self.remaining(),
    {
        self.string.substring_char(self.cursor.cur_cursor(), self.cursor_back.cur_cursor())
    }

    /// Produce the next syllabogram unit, advancing the cursor past it.
    pub fn next(&mut self) -> (r: Option<&'a str>)
        requires
            old(self).wf(),
        ensures
            final(self).wf(),
            final(self).string == old(self).string,
            old(self).remaining().len() == 0 ==> r is None && *final(self) == *old(self),
            old(self).remaining().len() > 0 ==> ({
                let units = segment(old(self).remaining());
                &&& r matches Some(t) && t@ == units[0]
                &&& final(self).remaining() == old(self).remaining().subrange(
                    units[0].len() as int,
                    old(self).remaining().len() as int,
                )
                &&& segment(final(self).remaining()) == units.drop_first()
            }),
    {
        let start = self.cursor.cur_cursor();
        if start == self.cursor_back.cur_cursor() {
            assert(old(self).remaining().len() == 0);
            return None;
        }
        let ghost rem = self.remaining();
        let s = self.string;
        let next = self.cursor.next_boundary(s, 0).unwrap().unwrap();
        proof {
            let k = first_unit_len(rem);
            assert(s@.subrange(start as int, s@.len() as int) == rem);
            assert(segment(rem)[0] == rem.subrange(0, k));
            assert(rem.subrange(0, k) =~= s@.subrange(start as int, start + k));
            assert(segment(rem).drop_first() =~= segment(
                rem.subrange(k, rem.len() as int),
            ));
            assert(s@.subrange(next as int, s@.len() as int) =~= rem.subrange(
                k,
                rem.len() as int,
            ));
        }
        Some(self.string.substring_char(start, next))
    }
}

/// A fresh unit producer positioned at the start of `s`.
pub fn new_syllabograms(s: &str) -> (r: Syllabograms<'_>)
    ensures
        r.wf(),
        r.string == s,
        r.remaining() == s@,
        r.cursor.offset == 0,
{
    let len = s.unicode_len();
    let r = Syllabograms {
        string: s,
        cursor: SyllabogramCursor::new(0, len),
        cursor_back: SyllabogramCursor::new(len, len),
    };
    proof {
        assert(r.remaining() =~= s@);
    }
    r
}

} // verus!
