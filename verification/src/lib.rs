//! A line-oriented interpreter for a small stack language.
//!
//! The host hands [`engine::Engine::eval`] one line of text at a time. The
//! engine splits it into words, walks a cursor over them and asks its word
//! table, in order, which entry recognises the current word; the handler of
//! the first match then works on the stacks and stores of the engine. A word
//! that names a stored definition evaluates the body of the definition within
//! its own call, in a cursor context of its own above that of the line.
//!
//! The engine holds fractional numbers, as bit patterns, and never computes
//! with them. Where a word needs such work the evaluation stops with the work
//! in [`engine::Engine::float_task`]; the host does it and hands the result to
//! [`engine::Engine::resume`].

pub mod arith;
pub mod engine;
pub mod errors;
pub mod number;
pub mod prelude;
pub mod sorth;
pub mod standard;
pub mod text;
pub mod types;
pub mod word;
