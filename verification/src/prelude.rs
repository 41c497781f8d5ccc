//! The names that a host needs.

pub use crate::engine::{Conditional, Context, Engine, EngineMode, FloatTask, FloatWord, Variable};
pub use crate::errors::{
    CONDITIONAL_STACK_UNDERFLOW_ERROR, INT_STACK_UNDERFLOW_ERROR, INVALID_TYPE_ERROR,
    LOOP_CONTROL_UNDERFLOW_ERROR, STACK_UNDERFLOW_ERROR, STEP_LIMIT_ERROR,
    TYPE_CONVERSION_FAILURE_ERROR, UNKNOWN_WORD_ERROR, VARIABLE_INDEX_OUT_OR_RANGE_ERROR,
    VARIABLE_NOT_DEFINED,
};
pub use crate::sorth::Sorth;
pub use crate::standard::Standard;
pub use crate::types::{Byte, Double, Float, Int, Long, Str, Types};
pub use crate::word::{Keyword, Word, WordDefinition, WordList, WordSymbol};
