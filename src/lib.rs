//! Context-aware line filtering: selects lines that match any of a set of
//! regular expressions and emits them together with a window of lines
//! before and after each match.
pub mod model;
pub mod lookback;
pub mod predicate;
pub mod window;
pub mod laws;
