//! Core logic of a kana transliteration quiz: splitting kana text into
//! syllabogram units, a hierarchical selection of practice symbols, and a
//! sliding window of quiz items matched against typed answers.
#![allow(unused_imports)]
use vstd::prelude::*;

pub mod game;
pub mod hide_state;
pub mod kana;
pub mod syllabograms;
pub mod translations;

use syllabograms::{new_syllabograms, Syllabograms};

verus! {

/// Splitting a string of kana characters into syllabogram units: one base
/// codepoint, optionally fused with one trailing small-kana codepoint.
pub trait SyllabogramSegmentation {
    /// The characters the produced units cover.
    spec fn spec_text(&self) -> Seq<char>;

    /// A fresh unit producer over the whole text. Restartable: each call
    /// starts over from the beginning.
    fn syllabograms<'a>(&'a self) -> (r: Syllabograms<'a>)
        ensures
            r.wf(),
            r.remaining() == self.spec_text(),
    ;
}

impl SyllabogramSegmentation for str {
    open spec fn spec_text(&self) -> Seq<char> {
        self@
    }

    fn syllabograms<'a>(&'a self) -> (r: Syllabograms<'a>) {
        new_syllabograms(self)
    }
}

} // verus!
