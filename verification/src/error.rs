//! The errors of the core, by the phase that raises them: building a schema
//! or resolving a name, building a factory or a model, and stepping.

use vstd::prelude::*;

verus! {

/// Why a schema could not be built, or a name could not be resolved.
#[derive(Clone, Copy, Debug, PartialEq, Eq, Structural)]
pub enum SchemaError {
    /// A name was given twice when the schema was interned.
    DuplicateProperty,
    /// A name was looked up that the schema does not hold.
    UnknownProperty,
}

/// Why a step could not be completed. Either error is fatal for the run in
/// progress: no operation is skipped.
#[derive(Clone, Copy, Debug, PartialEq, Eq, Structural)]
pub enum StepError {
    /// An operation names a property that the schema does not hold.
    UnknownProperty,
    /// An operation would move a value out of the range of `i64`.
    Overflow,
}

/// Why a factory, an agent or a model could not be built. Nothing is built
/// in part: a failed build leaves no value behind.
#[derive(Clone, Copy, Debug, PartialEq, Eq, Structural)]
pub enum BuildError {
    /// No schema was supplied.
    MissingSchema,
    /// No initial values were supplied.
    MissingInitialValues,
    /// Some property of the schema has no initial value.
    IncompleteProperties,
}

} // verus!
