use vstd::prelude::*;

verus! {

/// The argument of a component that an error is about.
#[derive(Debug, Clone, Copy, PartialEq, Eq)]
pub enum ArgumentName {
    Data,
    By,
}

/// The ways in which an operation of the library can fail.
///
/// Each variant stands for one of the library's messages; `InArgument`
/// prefixes another error with the argument it was raised for.
#[derive(Debug, PartialEq, Eq)]
pub enum Error {
    /// "value must be an Array"
    ValueMustBeArray,
    /// "value must be Jagged"
    ValueMustBeJagged,
    /// "cannot retrieve first float"
    CannotRetrieveFirstFloat,
    /// "cannot retrieve integer"
    CannotRetrieveInteger,
    /// "cannot retrieve string"
    CannotRetrieveString,
    /// "cannot retrieve bool"
    CannotRetrieveBool,
    /// "expected a float on a non-float ArrayND"
    ExpectedFloatArray,
    /// "non-singleton array passed for an argument that must be scalar"
    NonSingletonArray,
    /// "value must be numeric"
    ValueMustBeNumeric,
    /// "failed attempt to cast f64 ArrayD to vector"
    CastF64ToVector,
    /// "failed attempt to cast i64 ArrayD to vector"
    CastI64ToVector,
    /// "value must be a string"
    ValueMustBeString,
    /// "value must be a bool"
    ValueMustBeBool,
    /// "arrays may have max dimensionality of 2"
    MaxDimensionality,
    /// "not all columns are known in float Jagged matrix"
    JaggedFloatColumnsUnknown,
    /// "expected float type on a non-float Jagged matrix"
    JaggedExpectedFloat,
    /// "not all columns are known in int Jagged matrix"
    JaggedIntColumnsUnknown,
    /// "expected int type on a non-int Jagged matrix"
    JaggedExpectedInt,
    /// "not all columns are known in string Jagged matrix"
    JaggedStringColumnsUnknown,
    /// "expected string type on a non-string Jagged matrix"
    JaggedExpectedString,
    /// "not all columns are known in bool Jagged matrix"
    JaggedBoolColumnsUnknown,
    /// "expected bool type on a non-bool Jagged matrix"
    JaggedExpectedBool,
    /// "length is not defined for every column"
    LengthNotDefinedForEveryColumn,
    /// "value must be an array" (properties)
    PropertiesMustBeArray,
    /// "value must be a hashmap"
    PropertiesMustBeHashmap,
    /// "value must be a ragged matrix"
    PropertiesMustBeJagged,
    /// "partitions must be disjoint"
    PartitionsMustBeDisjoint,
    /// "partitions must not be columnar"
    PartitionsMustNotBeColumnar,
    /// "number of rows is not defined"
    NumRowsNotDefined,
    /// "min must be composed of floats"
    MinMustBeFloats,
    /// "min must be an array"
    MinMustBeArray,
    /// "continuous nature for min is not defined"
    MinNatureNotDefined,
    /// "not all min are known"
    NotAllMinKnown,
    /// "max must be composed of floats"
    MaxMustBeFloats,
    /// "max must be an array"
    MaxMustBeArray,
    /// "continuous nature for max is not defined"
    MaxNatureNotDefined,
    /// "not all max are known"
    NotAllMaxKnown,
    /// "categories is not defined"
    CategoriesNotDefined,
    /// "categorical nature is not defined"
    CategoricalNatureNotDefined,
    /// "data may contain nullity when non-nullity is required"
    MayContainNullity,
    /// "data is not releasable when releasability is required"
    NotReleasable,
    /// "number of columns is not defined"
    NumColumnsNotDefined,
    /// "number of records is not defined"
    NumRecordsNotDefined,
    /// "aggregated data may not be manipulated"
    AggregatedData,
    /// "nature is categorical when expecting continuous"
    NatureIsCategorical,
    /// "nature is continuous when expecting categorical"
    NatureIsContinuous,
    /// "expected a float on a non-float Vector1DNull"
    VectorExpectedFloat,
    /// "expected an integer on a non-integer Vector1DNull"
    VectorExpectedInteger,
    /// "categories must be defined for all columns"
    CategoriesNotDefinedForAllColumns,
    /// "no categories are defined"
    NoCategoriesDefined,
    /// "<argument>: missing"
    MissingArgument(ArgumentName),
    /// "<name> must be defined"
    ArgumentNotDefined(String),
    /// "<argument>: <error>"
    InArgument(ArgumentName, Box<Error>),
    /// "number of columns must be known on by"
    ByNumColumnsUnknown,
    /// "Partition's by argument must contain a single column"
    ByMustBeSingleColumn,
    /// "partitioning based on floats is not supported"
    FloatPartitioning,
    /// "num_partitions or by must be passed to Partition"
    NumPartitionsOrByRequired,
    /// "either column_names or num_columns must be specified"
    ColumnNamesOrNumColumnsRequired,
    /// "get_names not implemented"
    GetNamesNotImplemented,
    /// "categories: must be defined for one column"
    CategoriesMustBeOneColumn,
    /// "categories: must be defined"
    PartitionCategoriesUndefined,
    /// "Minimum sensitivity is only implemented for KNorm of 1"
    MinimumSensitivityKNorm,
    /// "neighboring definition must be either \"AddRemove\" or \"Substitute\""
    NeighboringUndefined,
    /// "KNorm sensitivity is only supported in L1 and L2 spaces"
    KNormL1L2Only,
    /// "Sum sensitivity is only implemented for KNorm of 1"
    SumSensitivityKNorm,
    /// the shape of an array does not match the number of its elements
    ShapeMismatch,
}

/// Prefixes an error with the argument it was raised for.
pub fn prepend(name: ArgumentName, e: Error) -> (r: Error)
    ensures
        r == Error::InArgument(name, Box::new(e)),
{
    Error::InArgument(name, Box::new(e))
}

} // verus!
