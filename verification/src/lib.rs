//! Line-oriented pattern search: which lines of a source match a regular
//! expression, and how each reported line is rendered for a terminal.

pub mod decimal;
pub mod matcher;
pub mod paint;
pub mod report;
pub mod scanner;
