use vstd::prelude::*;

verus! {

/// Counts the rows of its `data` argument.
#[derive(Debug, Clone, Copy, PartialEq, Eq)]
pub struct Count;

/// Loads a dataset: one column per name in `column_names`, or `num_columns` columns.
#[derive(Debug, Clone, Copy, PartialEq, Eq)]
pub struct Materialize {
    /// The columns are private; otherwise they may be released as they are.
    pub private: bool,
    /// The identifier of the dataset, where one is given.
    pub dataset_id: Option<i64>,
}

/// The minimum of each column of its `data` argument.
#[derive(Debug, Clone, Copy, PartialEq, Eq)]
pub struct Minimum;

/// Splits the rows of its `data` argument, by the categories of `by` or
/// into `num_partitions` parts.
#[derive(Debug, Clone, Copy, PartialEq, Eq)]
pub struct Partition;

/// The sum of each column of its `data` argument.
#[derive(Debug, Clone, Copy, PartialEq, Eq)]
pub struct Sum;

/// The component that aggregated a value.
#[derive(Debug, Clone, Copy, PartialEq, Eq)]
pub enum Component {
    Count(Count),
    Materialize(Materialize),
    Minimum(Minimum),
    Partition(Partition),
    Sum(Sum),
}

/// Which datasets count as neighbors.
#[derive(Debug, Clone, Copy, PartialEq, Eq)]
pub enum Neighboring {
    /// Neighbors differ in the value of one record.
    Substitute,
    /// Neighbors differ by one added or removed record.
    AddRemove,
}

impl Neighboring {
    /// The neighboring definition with the given wire number: `0` is
    /// `Substitute`, `1` is `AddRemove`; no other number names one.
    pub fn from_i32(value: i32) -> (r: Option<Neighboring>)
        ensures
            value == 0 ==> r == Some(Neighboring::Substitute),
            value == 1 ==> r == Some(Neighboring::AddRemove),
            value != 0 && value != 1 ==> r is None,
    {
        match value {
            0 => Some(Neighboring::Substitute),
            1 => Some(Neighboring::AddRemove),
            _ => None,
        }
    }
}

/// The privacy definition under which an analysis is validated.
#[derive(Debug, Clone, Copy, PartialEq, Eq)]
pub struct PrivacyDefinition {
    /// The wire number of the neighboring definition (see [`Neighboring::from_i32`]).
    pub neighboring: i32,
}

} // verus!
