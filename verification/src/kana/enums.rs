//! The fixed coordinates of the selection hierarchy: which syllabary, and
//! which of its three charts.
use vstd::prelude::*;
use vstd::string::*;

verus! {

#[derive(Copy, Clone, Eq, Hash, Ord, PartialEq, PartialOrd, Structural)]
pub enum ChartVersion {
    Basic,
    Dakuon,
    Combo,
}

#[derive(Copy, Clone, Eq, Hash, Ord, PartialEq, PartialOrd, Structural)]
pub enum SyllabaryVersion {
    Hirigana,
    Katakana,
}

impl ChartVersion {
    /// Position of this chart within a syllabary's fixed chart list.
    pub open spec fn spec_index(self) -> int {
        match self {
            ChartVersion::Basic => 0,
            ChartVersion::Dakuon => 1,
            ChartVersion::Combo => 2,
        }
    }

    pub fn index(&self) -> (r: usize)
        ensures
            r == self.spec_index(),
    {
        match self {
            ChartVersion::Basic => 0,
            ChartVersion::Dakuon => 1,
            ChartVersion::Combo => 2,
        }
    }

    pub open spec fn spec_name(self) -> Seq<char> {
        match self {
            ChartVersion::Basic => "Basic"@,
            ChartVersion::Dakuon => "Dakuon"@,
            ChartVersion::Combo => "Combo"@,
        }
    }

    /// The chart's display title.
    pub fn as_string(&self) -> (r: String)
        ensures
            r@ == self.spec_name(),
    {
        match self {
            ChartVersion::Basic => "Basic".to_owned(),
            ChartVersion::Dakuon => "Dakuon".to_owned(),
            ChartVersion::Combo => "Combo".to_owned(),
        }
    }
}

impl SyllabaryVersion {
    /// Position of this syllabary within the selector's fixed list.
    pub open spec fn spec_index(self) -> int {
        match self {
            SyllabaryVersion::Hirigana => 0,
            SyllabaryVersion::Katakana => 1,
        }
    }

    pub fn index(&self) -> (r: usize)
        ensures
            r == self.spec_index(),
    {
        match self {
            SyllabaryVersion::Hirigana => 0,
            SyllabaryVersion::Katakana => 1,
        }
    }

    pub open spec fn spec_name(self) -> Seq<char> {
        match self {
            SyllabaryVersion::Hirigana => "Hirigana"@,
            SyllabaryVersion::Katakana => "Katakana"@,
        }
    }

    /// The syllabary's display title.
    pub fn as_string(&self) -> (r: String)
        ensures
            r@ == self.spec_name(),
    {
        match self {
            SyllabaryVersion::Hirigana => "Hirigana".to_owned(),
            SyllabaryVersion::Katakana => "Katakana".to_owned(),
        }
    }
}

} // verus!
