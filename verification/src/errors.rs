//! The messages with which words fail.

use vstd::prelude::*;
use vstd::string::*;

verus! {

/// A word found too few values on the main stack.
pub const STACK_UNDERFLOW_ERROR: &'static str = "Error: Stack underflow!";

/// A word found a value of a kind that it does not take, or an arithmetic
/// operation has no result.
pub const INVALID_TYPE_ERROR: &'static str = "Error: Invalid type!";

/// No entry of the word table recognises a word; the word follows.
pub const UNKNOWN_WORD_ERROR: &'static str = "Error: Unknown word: ";

/// A variable has no item at the place asked for.
pub const VARIABLE_INDEX_OUT_OR_RANGE_ERROR: &'static str = "Error: Varibale index out of range!";

/// There is no variable of that name, or with that handle.
pub const VARIABLE_NOT_DEFINED: &'static str = "Error: Variable not defined!";

/// A text does not write a number of the kind asked for.
pub const TYPE_CONVERSION_FAILURE_ERROR: &'static str = "Error: Type conversion failed!";

/// `else` or `then` without an open `if`.
pub const CONDITIONAL_STACK_UNDERFLOW_ERROR: &'static str = "Error Conditional stack underflow!";

/// A word of a loop without the loop: no counted loop is open, or the other
/// end of the loop is not in the line.
pub const LOOP_CONTROL_UNDERFLOW_ERROR: &'static str = "Error Loop control stack underflow!";

/// A word of a loop found too few values on the main stack.
pub const INT_STACK_UNDERFLOW_ERROR: &'static str = "Error Int stack underflow!";

/// An evaluation dispatched as many words as the step limit allows and was
/// not done.
pub const STEP_LIMIT_ERROR: &'static str = "Error: Step limit reached!";

/// An owned copy of a message.
pub fn message(text: &'static str) -> (r: String)
    ensures
        r@ == text@,
{
    text.to_string()
}

} // verus!
