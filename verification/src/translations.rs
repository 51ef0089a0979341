//! Entries of the pre-built symbol table: a syllabogram and the
//! transliterations accepted for it. The table itself is built before the
//! core runs; the core only carries entries around and reads them.
use vstd::prelude::*;

verus! {

/// One symbol table entry.
pub struct KanaTranslation {
    pub kana: String,
    pub romanji: String,
    pub alt_romanji: Option<String>,
}

impl Clone for KanaTranslation {
    fn clone(&self) -> (r: Self)
        ensures
            r == *self,
    {
        KanaTranslation {
            kana: self.kana.clone(),
            romanji: self.romanji.clone(),
            alt_romanji: match &self.alt_romanji {
                Some(alt) => Some(alt.clone()),
                None => None,
            },
        }
    }
}

/// The entries for the currently selected symbols, in selection order.
pub type KanaTranslationList = Vec<KanaTranslation>;

} // verus!
