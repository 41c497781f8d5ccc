//! Words that speak to the host.

use vstd::prelude::*;
use vstd::string::*;
use crate::engine::{
    cursor_at, done, fails, failure, handler_keeps, inside_definition, nothing, says, text_result,
    underflows, with_stack, Engine, EngineView, Outcome,
};
use crate::errors::{INVALID_TYPE_ERROR, STACK_UNDERFLOW_ERROR};
use crate::text::{chars_of, string_of};
use crate::types::{pop_value, Types, Value};

verus! {

/// `bye` ends the session. Inside a definition it ends that definition
/// only: none of the words that follow it there runs.
pub open spec fn bye_spec(e: EngineView) -> Outcome {
    if inside_definition(e) {
        done(EngineView { contexts: cursor_at(e.contexts, e.contexts.last().tokens.len()), ..e })
    } else {
        done(EngineView { running: false, ..e })
    }
}

/// Ends the session, or the definition that is being executed.
pub fn bye(s: &mut Engine) -> (r: Result<String, String>)
    ensures
        (final(s)@, text_result(r)) == bye_spec(old(s)@),
{
    if s.get_compiled_exec() {
        let n = s.contexts.len();
        let end = s.contexts[n - 1].tokens.len();
        s.set_cursor(end);
    } else {
        s.running = false;
    }
    nothing()
}

/// `silent` takes an int: the true flag switches the success marker off, 0
/// switches it on, and any other int changes nothing.
pub open spec fn silent_spec(e: EngineView) -> Outcome {
    if e.main_stack.len() < 1 {
        underflows(e)
    } else {
        let rest = with_stack(e, e.main_stack.drop_last());
        match e.main_stack.last() {
            Value::Int(flag) => if flag == -1 {
                done(EngineView { silent: true, ..rest })
            } else if flag == 0 {
                done(EngineView { silent: false, ..rest })
            } else {
                done(rest)
            },
            _ => fails(rest, INVALID_TYPE_ERROR@),
        }
    }
}

/// Switches the success marker off or on.
pub fn silent(s: &mut Engine) -> (r: Result<String, String>)
    ensures
        (final(s)@, text_result(r)) == silent_spec(old(s)@),
{
    match pop_value(&mut s.main_stack) {
        None => {
            assert(s@.main_stack =~= Seq::empty());
            failure(STACK_UNDERFLOW_ERROR)
        },
        Some(Types::Int(flag)) => {
            if flag == -1 {
                s.silent = true;
            } else if flag == 0 {
                s.silent = false;
            }
            nothing()
        },
        Some(_) => failure(INVALID_TYPE_ERROR),
    }
}

/// `input` takes a text and writes it as a prompt, with the end of a line
/// after it, and makes the engine wait. The words that follow in the line
/// still run. The line that the host hands over next is not evaluated: it
/// becomes a text value.
pub open spec fn input_spec(e: EngineView) -> Outcome {
    if e.main_stack.len() < 1 {
        underflows(e)
    } else {
        let rest = with_stack(e, e.main_stack.drop_last());
        match e.main_stack.last() {
            Value::Str(prompt) => says(
                EngineView { waiting_for_input: true, ..rest },
                prompt + seq!['\n'],
            ),
            _ => fails(rest, INVALID_TYPE_ERROR@),
        }
    }
}

/// Writes a prompt and makes the engine wait for a line of input.
pub fn input(s: &mut Engine) -> (r: Result<String, String>)
    ensures
        (final(s)@, text_result(r)) == input_spec(old(s)@),
{
    match pop_value(&mut s.main_stack) {
        None => {
            assert(s@.main_stack =~= Seq::empty());
            failure(STACK_UNDERFLOW_ERROR)
        },
        Some(Types::Str(prompt)) => {
            s.waiting_for_input = true;
            let mut text = chars_of(prompt.as_str());
            text.push('\n');
            assert(text@ =~= prompt@ + seq!['\n']);
            Ok(string_of(&text))
        },
        Some(_) => failure(INVALID_TYPE_ERROR),
    }
}

/// `nl` writes the end of a line.
pub open spec fn nl_spec(e: EngineView) -> Outcome {
    says(e, seq!['\n'])
}

/// Writes the end of a line.
pub fn nl(s: &mut Engine) -> (r: Result<String, String>)
    ensures
        (final(s)@, text_result(r)) == nl_spec(old(s)@),
{
    let mut text: Vec<char> = Vec::new();
    text.push('\n');
    assert(text@ =~= seq!['\n']);
    Ok(string_of(&text))
}

/// `emit` takes a byte and writes the character with that code.
pub open spec fn emit_spec(e: EngineView) -> Outcome {
    if e.main_stack.len() < 1 {
        underflows(e)
    } else {
        let rest = with_stack(e, e.main_stack.drop_last());
        match e.main_stack.last() {
            Value::Byte(code) => says(rest, seq![code as char]),
            _ => fails(rest, INVALID_TYPE_ERROR@),
        }
    }
}

/// Writes the character whose code the top value is.
pub fn emit(s: &mut Engine) -> (r: Result<String, String>)
    ensures
        (final(s)@, text_result(r)) == emit_spec(old(s)@),
{
    match pop_value(&mut s.main_stack) {
        None => {
            assert(s@.main_stack =~= Seq::empty());
            failure(STACK_UNDERFLOW_ERROR)
        },
        Some(Types::Byte(code)) => {
            let mut text: Vec<char> = Vec::new();
            text.push(code as char);
            assert(text@ =~= seq![code as char]);
            Ok(string_of(&text))
        },
        Some(_) => failure(INVALID_TYPE_ERROR),
    }
}

/// The words that speak to the host keep what [`handler_keeps`] says: they leave the budget
/// alone, and of the contexts they move at most the cursor of the active one.
pub proof fn lemma_handlers_keep(e: EngineView)
    ensures
        handler_keeps(e, bye_spec(e)),
        handler_keeps(e, silent_spec(e)),
        handler_keeps(e, input_spec(e)),
        handler_keeps(e, nl_spec(e)),
        handler_keeps(e, emit_spec(e)),
{
    assert(bye_spec(e).0.contexts.take(crate::engine::beneath(e)) =~= e.contexts.take(
        crate::engine::beneath(e),
    ));
    assert(silent_spec(e).0.contexts.take(crate::engine::beneath(e)) =~= e.contexts.take(
        crate::engine::beneath(e),
    ));
    assert(input_spec(e).0.contexts.take(crate::engine::beneath(e)) =~= e.contexts.take(
        crate::engine::beneath(e),
    ));
    assert(nl_spec(e).0.contexts.take(crate::engine::beneath(e)) =~= e.contexts.take(
        crate::engine::beneath(e),
    ));
    assert(emit_spec(e).0.contexts.take(crate::engine::beneath(e)) =~= e.contexts.take(
        crate::engine::beneath(e),
    ));
}

} // verus!
