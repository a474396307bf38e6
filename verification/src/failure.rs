//! What can go wrong between a table of text and a star.
use vstd::prelude::*;

verus! {

/// The failures that the library reports. None of them is a panic.
#[derive(Clone, Copy, Debug, PartialEq, Eq, Structural)]
pub enum Failure {
    /// The data is not a table of comma-separated records.
    Csv,
    /// The record with this index, counted from 0, lacks one of its two
    /// fields, or one of them is not a number.
    Parse { record: usize },
    /// The table holds no sample.
    EmptyTable,
    /// The pressure had not fallen below zero when the last allowed step was
    /// taken.
    DidNotConverge,
}

} // verus!
