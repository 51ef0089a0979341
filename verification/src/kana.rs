//! The hierarchical selection of practice symbols: syllabary, chart, row,
//! symbol button. Activity is stored only in the leaf buttons; every level
//! above reads it as a fold over its descendant leaves.
pub mod button;
pub mod chart;
pub mod enums;
pub mod row;
pub mod screen;
pub mod syllabary;
