//! An interpreter that is ready for use: an engine with the standard
//! vocabulary.

use vstd::prelude::*;
use vstd::string::*;
use crate::arith::option_view;
use crate::engine::{eval_spec, fresh, resume_spec, text_result, Engine, EngineView};
use crate::standard::{standard_words, Standard};
use crate::types::Types;
use crate::word::WordList;

verus! {

/// An engine that knows the standard words.
pub struct Sorth {
    pub engine: Engine,
}

impl View for Sorth {
    type V = EngineView;

    open spec fn view(&self) -> EngineView {
        self.engine@
    }
}

impl Sorth {
    /// A fresh engine that knows the standard words.
    pub fn new() -> (r: Sorth)
        ensures
            r@ == (EngineView { words: standard_words(), ..fresh() }),
    {
        let mut engine = Engine::new();
        engine.import_word_list(Standard::new());
        assert(engine@.words =~= standard_words());
        Sorth { engine: engine }
    }

    /// Evaluates one line of text. With `compiled` the line counts as the
    /// body of a definition: no success marker follows its output, and `bye`
    /// ends the line only.
    pub fn eval(&mut self, line: String, compiled: bool) -> (r: Result<String, String>)
        ensures
            (final(self)@, text_result(r)) == eval_spec(old(self)@, line@, compiled),
    {
        self.engine.begin(line, compiled)
    }

    /// Hands the engine the host's reply to the work on fractional numbers
    /// that it left, and goes on with the evaluation.
    pub fn resume(&mut self, reply: Option<Types>) -> (r: Result<String, String>)
        ensures
            (final(self)@, text_result(r)) == resume_spec(old(self)@, option_view(reply)),
    {
        self.engine.resume(reply)
    }

    /// Whether the session goes on: `bye` ends it.
    pub fn running(&self) -> (b: bool)
        ensures
            b == self@.running,
    {
        self.engine.running
    }
}

} // verus!
