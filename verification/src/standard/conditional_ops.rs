//! `if`, `else`, `then`, and the skipping of branches that are not taken.

use vstd::prelude::*;
use vstd::string::*;
use crate::engine::{
    current_condition, done, fails, failure, handler_keeps, nothing, text_result, with_stack,
    Conditional, Engine, EngineView, Outcome,
};
use crate::errors::{CONDITIONAL_STACK_UNDERFLOW_ERROR, INVALID_TYPE_ERROR, STACK_UNDERFLOW_ERROR};
use crate::types::{pop_value, Types, Value};

verus! {

/// The state of the innermost open `if`.
pub fn current_cond(s: &Engine) -> (r: Conditional)
    ensures
        r == current_condition(s@),
{
    let n = s.conditional_stack.len();
    if n > 0 {
        s.conditional_stack[n - 1]
    } else {
        Conditional::TakenTrue
    }
}

/// The state with one more open `if`.
pub open spec fn opened(e: EngineView, c: Conditional) -> EngineView {
    EngineView { conditional_stack: e.conditional_stack.push(c), ..e }
}

/// `if` opens a conditional. Inside a branch that is not taken it takes
/// nothing from the stack and the new conditional is suppressed. Elsewhere it
/// takes an int: any but 0 takes the first branch.
pub open spec fn if_word_spec(e: EngineView) -> Outcome {
    if current_condition(e) != Conditional::TakenTrue {
        done(opened(e, Conditional::Suppressed))
    } else if e.main_stack.len() < 1 {
        fails(e, STACK_UNDERFLOW_ERROR@)
    } else {
        let rest = with_stack(e, e.main_stack.drop_last());
        match e.main_stack.last() {
            Value::Int(flag) => done(
                opened(
                    rest,
                    if flag != 0 {
                        Conditional::TakenTrue
                    } else {
                        Conditional::TakenFalse
                    },
                ),
            ),
            _ => fails(rest, INVALID_TYPE_ERROR@),
        }
    }
}

/// Opens a conditional.
pub fn if_word(s: &mut Engine) -> (r: Result<String, String>)
    ensures
        (final(s)@, text_result(r)) == if_word_spec(old(s)@),
{
    if current_cond(s) != Conditional::TakenTrue {
        s.conditional_stack.push(Conditional::Suppressed);
        return nothing();
    }
    match pop_value(&mut s.main_stack) {
        Some(Types::Int(flag)) => {
            if flag != 0 {
                s.conditional_stack.push(Conditional::TakenTrue);
            } else {
                s.conditional_stack.push(Conditional::TakenFalse);
            }
            nothing()
        },
        Some(_) => failure(INVALID_TYPE_ERROR),
        None => failure(STACK_UNDERFLOW_ERROR),
    }
}

/// What `else` makes of the state of a conditional: the second branch runs
/// where the first was left out, and only there.
pub open spec fn turned(c: Conditional) -> Conditional {
    match c {
        Conditional::TakenFalse => Conditional::TakenTrue,
        _ => Conditional::Suppressed,
    }
}

/// `else` turns the innermost conditional.
pub open spec fn else_word_spec(e: EngineView) -> Outcome {
    if e.conditional_stack.len() < 1 {
        fails(e, CONDITIONAL_STACK_UNDERFLOW_ERROR@)
    } else {
        done(
            EngineView {
                conditional_stack: e.conditional_stack.drop_last().push(
                    turned(e.conditional_stack.last()),
                ),
                ..e
            },
        )
    }
}

/// Turns the innermost conditional.
pub fn else_word(s: &mut Engine) -> (r: Result<String, String>)
    ensures
        (final(s)@, text_result(r)) == else_word_spec(old(s)@),
{
    match s.conditional_stack.pop() {
        Some(c) => {
            let next = match c {
                Conditional::TakenFalse => Conditional::TakenTrue,
                _ => Conditional::Suppressed,
            };
            s.conditional_stack.push(next);
            assert(s@.conditional_stack =~= old(s)@.conditional_stack.drop_last().push(
                turned(old(s)@.conditional_stack.last()),
            ));
            nothing()
        },
        None => failure(CONDITIONAL_STACK_UNDERFLOW_ERROR),
    }
}

/// `then` closes the innermost conditional, and fails where none is open.
pub open spec fn then_word_spec(e: EngineView) -> Outcome {
    if e.conditional_stack.len() < 1 {
        fails(e, CONDITIONAL_STACK_UNDERFLOW_ERROR@)
    } else {
        done(EngineView { conditional_stack: e.conditional_stack.drop_last(), ..e })
    }
}

/// Closes the innermost conditional.
pub fn then_word(s: &mut Engine) -> (r: Result<String, String>)
    ensures
        (final(s)@, text_result(r)) == then_word_spec(old(s)@),
        old(s)@.conditional_stack.len() == 0 ==> text_result(r) == Err::<Seq<char>, Seq<char>>(
            CONDITIONAL_STACK_UNDERFLOW_ERROR@,
        ) && final(s)@ == old(s)@,
{
    match s.conditional_stack.pop() {
        Some(_) => {
            assert(s@.conditional_stack =~= old(s)@.conditional_stack.drop_last());
            nothing()
        },
        None => failure(CONDITIONAL_STACK_UNDERFLOW_ERROR),
    }
}

/// `then` closes what `if` opened: after the two, as many conditionals are
/// open as before, in the same states.
pub proof fn lemma_then_closes_if(e: EngineView)
    requires
        if_word_spec(e).1 is Ok,
    ensures
        then_word_spec(if_word_spec(e).0).1 is Ok,
        then_word_spec(if_word_spec(e).0).0.conditional_stack == e.conditional_stack,
        then_word_spec(else_word_spec(if_word_spec(e).0).0).0.conditional_stack
            == e.conditional_stack,
{
    assert(then_word_spec(if_word_spec(e).0).0.conditional_stack =~= e.conditional_stack);
    assert(then_word_spec(else_word_spec(if_word_spec(e).0).0).0.conditional_stack
        =~= e.conditional_stack);
}

/// Of the two branches of a conditional that is not suppressed, one runs
/// and the other does not.
pub proof fn lemma_one_branch_runs(e: EngineView)
    requires
        if_word_spec(e).1 is Ok,
        current_condition(e) == Conditional::TakenTrue,
    ensures
        (current_condition(if_word_spec(e).0) == Conditional::TakenTrue) != (current_condition(
            else_word_spec(if_word_spec(e).0).0,
        ) == Conditional::TakenTrue),
{
}

/// A word in a branch that is not taken has no effect.
pub fn conditional_skip(s: &mut Engine) -> (r: Result<String, String>)
    ensures
        (final(s)@, text_result(r)) == done(old(s)@),
{
    nothing()
}

/// The words of a conditional keep what [`handler_keeps`] says: they leave the budget
/// alone, and of the contexts they move at most the cursor of the active one.
pub proof fn lemma_handlers_keep(e: EngineView)
    ensures
        handler_keeps(e, if_word_spec(e)),
        handler_keeps(e, else_word_spec(e)),
        handler_keeps(e, then_word_spec(e)),
{
    assert(if_word_spec(e).0.contexts.take(crate::engine::beneath(e)) =~= e.contexts.take(
        crate::engine::beneath(e),
    ));
    assert(else_word_spec(e).0.contexts.take(crate::engine::beneath(e)) =~= e.contexts.take(
        crate::engine::beneath(e),
    ));
    assert(then_word_spec(e).0.contexts.take(crate::engine::beneath(e)) =~= e.contexts.take(
        crate::engine::beneath(e),
    ));
}

} // verus!
