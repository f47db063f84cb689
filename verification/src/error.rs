//! The failures the builder reports. Every fallible step returns one of
//! these at once; nothing is swallowed or retried.

use vstd::prelude::*;

use crate::graph::GraphInputsType;
use crate::value::{LetNodeType, LetType, Value};

verus! {

#[allow(inconsistent_fields)]
#[derive(Debug, PartialEq)]
pub enum Error {
    /// A port that should carry a shape carries none.
    GenericShape { name: String },
    /// A whole shape table is missing where one is needed.
    GenericShapes,
    /// A list input at this position has no resolved shape.
    GenericListInputShape { index: usize },
    /// Two shape tables were linked but their port names differ.
    MismatchedShapeKeys { expected: Vec<String>, given: Vec<String> },
    /// Two shapes were unified but their ranks differ.
    MismatchedShapes { expected: usize, given: usize },
    /// Two dimensions were unified but fold to different values.
    DifferentValues { lhs: Value, rhs: Value },
    /// A concatenation axis outside the valid range.
    MismatchedAxis { val_min: i64, val_max: i64, given: i64 },
    /// A concatenation with no inputs at all.
    EmptyInputs,
    /// A call handed its inputs in the wrong structure.
    MismatchedInputsType { expected: GraphInputsType, given: GraphInputsType },
    /// An argument value of the wrong kind.
    MismatchedArgType { expected: LetType, given: LetType },
    /// A call whose name is not one the step accepts.
    MismatchedCallName { expected: Vec<String>, given: String },
    /// Keyword arguments other than the ones the step accepts.
    MismatchedArgKeys { expected: Vec<String>, given: Vec<String> },
    /// A repeat count where none is allowed.
    UnexpectedRepeat { name: String },
    /// A step that declares output shapes where it must not, or misses them
    /// where it must declare them.
    MismatchedSize { name: String, expected: bool },
    /// A step with the reserved input id where a plain one is needed, or
    /// the other way round.
    MismatchedId { name: String, expected_zero: bool },
    /// A loaded node whose declared name differs from the requested one.
    MismatchedName { expected: String, given: String },
    /// No template, source or path registered under this name.
    NoSuchNode { name: String },
    /// A template whose build requests itself, directly or through others.
    CyclicNodeReference { name: String },
    /// No script registered under this name.
    NoSuchExtern { name: String },
    /// A node of one declared kind bound where another is expected.
    MismatchedNodeType { expected: LetNodeType, given: LetNodeType },
    /// A node-typed variable without a usable node name in its value.
    EmptyValue { name: String, expected: LetType },
    /// A composite step with a repeat count; lowering one is left open by
    /// design, so it is refused rather than ignored.
    RepeatNotSupported { name: String },
    /// A path that exists but is no directory.
    NotDirectory { path: String },
    /// A root directory that does not exist and may not be created.
    NoSuchDirectory { path: String },
}

} // verus!
