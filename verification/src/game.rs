//! The practice-line engine and its score counter.
pub mod kana;
pub mod score;
