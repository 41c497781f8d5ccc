//! Words that move values on the main stack, and the two that print.

use vstd::prelude::*;
use vstd::string::*;
use crate::arith::is_fraction;
use crate::engine::{
    asks, done, fails, failure, handler_keeps, nothing, says, show, shown, text_result, underflows,
    with_stack, Engine, EngineView, FloatWord, Outcome,
};
use crate::errors::STACK_UNDERFLOW_ERROR;
use crate::types::{pop_value, push_value, Types};

verus! {

/// `dup` puts a copy of the top value on the stack.
pub open spec fn dup_spec(e: EngineView) -> Outcome {
    if e.main_stack.len() < 1 {
        underflows(e)
    } else {
        done(with_stack(e, e.main_stack.push(e.main_stack.last())))
    }
}

/// Puts a copy of the top value on the stack.
pub fn dup(s: &mut Engine) -> (r: Result<String, String>)
    ensures
        (final(s)@, text_result(r)) == dup_spec(old(s)@),
{
    match pop_value(&mut s.main_stack) {
        None => {
            assert(s@.main_stack =~= Seq::empty());
            failure(STACK_UNDERFLOW_ERROR)
        },
        Some(head) => {
            let twin = head.copy();
            push_value(&mut s.main_stack, twin);
            push_value(&mut s.main_stack, head);
            assert(s@.main_stack =~= old(s)@.main_stack.push(old(s)@.main_stack.last()));
            nothing()
        },
    }
}

/// `2dup` puts copies of the two top values on the stack, in their order.
pub open spec fn two_dup_spec(e: EngineView) -> Outcome {
    let n = e.main_stack.len() as int;
    if n < 2 {
        underflows(e)
    } else {
        done(with_stack(e, e.main_stack.push(e.main_stack[n - 2]).push(e.main_stack[n - 1])))
    }
}

/// Puts copies of the two top values on the stack.
pub fn two_dup(s: &mut Engine) -> (r: Result<String, String>)
    ensures
        (final(s)@, text_result(r)) == two_dup_spec(old(s)@),
{
    let x = pop_value(&mut s.main_stack);
    let y = pop_value(&mut s.main_stack);
    match (x, y) {
        (Some(x), Some(y)) => {
            let x_twin = x.copy();
            let y_twin = y.copy();
            push_value(&mut s.main_stack, y_twin);
            push_value(&mut s.main_stack, x_twin);
            push_value(&mut s.main_stack, y);
            push_value(&mut s.main_stack, x);
            assert(s@.main_stack =~= two_dup_spec(old(s)@).0.main_stack);
            nothing()
        },
        _ => {
            assert(s@.main_stack =~= Seq::empty());
            failure(STACK_UNDERFLOW_ERROR)
        },
    }
}

/// `drop` removes the top value.
pub open spec fn drop_word_spec(e: EngineView) -> Outcome {
    if e.main_stack.len() < 1 {
        underflows(e)
    } else {
        done(with_stack(e, e.main_stack.drop_last()))
    }
}

/// Removes the top value.
pub fn drop_word(s: &mut Engine) -> (r: Result<String, String>)
    ensures
        (final(s)@, text_result(r)) == drop_word_spec(old(s)@),
{
    match pop_value(&mut s.main_stack) {
        None => {
            assert(s@.main_stack =~= Seq::empty());
            failure(STACK_UNDERFLOW_ERROR)
        },
        Some(_) => nothing(),
    }
}

/// `swap` exchanges the two top values.
pub open spec fn swap_word_spec(e: EngineView) -> Outcome {
    let n = e.main_stack.len() as int;
    if n < 2 {
        underflows(e)
    } else {
        done(
            with_stack(
                e,
                e.main_stack.take(n - 2).push(e.main_stack[n - 1]).push(e.main_stack[n - 2]),
            ),
        )
    }
}

/// Exchanges the two top values.
pub fn swap_word(s: &mut Engine) -> (r: Result<String, String>)
    ensures
        (final(s)@, text_result(r)) == swap_word_spec(old(s)@),
{
    let x = pop_value(&mut s.main_stack);
    let y = pop_value(&mut s.main_stack);
    match (x, y) {
        (Some(x), Some(y)) => {
            push_value(&mut s.main_stack, x);
            push_value(&mut s.main_stack, y);
            assert(s@.main_stack =~= swap_word_spec(old(s)@).0.main_stack);
            nothing()
        },
        _ => {
            assert(s@.main_stack =~= Seq::empty());
            failure(STACK_UNDERFLOW_ERROR)
        },
    }
}

/// `rot` turns the three top values: the third from the top comes out on
/// top, above what was the top.
pub open spec fn rot_spec(e: EngineView) -> Outcome {
    let n = e.main_stack.len() as int;
    if n < 3 {
        underflows(e)
    } else {
        done(
            with_stack(
                e,
                e.main_stack.take(n - 3).push(e.main_stack[n - 2]).push(e.main_stack[n - 1]).push(
                    e.main_stack[n - 3],
                ),
            ),
        )
    }
}

/// Turns the three top values.
pub fn rot(s: &mut Engine) -> (r: Result<String, String>)
    ensures
        (final(s)@, text_result(r)) == rot_spec(old(s)@),
{
    let x = pop_value(&mut s.main_stack);
    let y = pop_value(&mut s.main_stack);
    let z = pop_value(&mut s.main_stack);
    match (x, y, z) {
        (Some(x), Some(y), Some(z)) => {
            push_value(&mut s.main_stack, y);
            push_value(&mut s.main_stack, x);
            push_value(&mut s.main_stack, z);
            assert(s@.main_stack =~= rot_spec(old(s)@).0.main_stack);
            nothing()
        },
        _ => {
            assert(s@.main_stack =~= Seq::empty());
            failure(STACK_UNDERFLOW_ERROR)
        },
    }
}

/// `.` takes the top value and writes it. A fractional number is left for
/// the host to write.
pub open spec fn dot_spec(e: EngineView) -> Outcome {
    if e.main_stack.len() < 1 {
        underflows(e)
    } else {
        let rest = with_stack(e, e.main_stack.drop_last());
        let head = e.main_stack.last();
        if is_fraction(head) {
            asks(rest, FloatWord::Show, seq![head], head is Double)
        } else {
            says(rest, shown(head))
        }
    }
}

/// Takes the top value and writes it.
pub fn dot(s: &mut Engine) -> (r: Result<String, String>)
    ensures
        (final(s)@, text_result(r)) == dot_spec(old(s)@),
        old(s)@.main_stack.len() == 0 ==> text_result(r) == Err::<Seq<char>, Seq<char>>(
            STACK_UNDERFLOW_ERROR@,
        ) && final(s)@ == old(s)@,
{
    match pop_value(&mut s.main_stack) {
        None => {
            assert(s@.main_stack =~= Seq::empty());
            failure(STACK_UNDERFLOW_ERROR)
        },
        Some(head) => write_out(s, head),
    }
}

/// Writes `head`, or leaves it for the host where it is fractional.
fn write_out(s: &mut Engine, head: Types) -> (r: Result<String, String>)
    ensures
        (final(s)@, text_result(r)) == if is_fraction(head@) {
            asks(old(s)@, FloatWord::Show, seq![head@], head@ is Double)
        } else {
            says(old(s)@, shown(head@))
        },
{
    match head {
        Types::Float(_) => {
            let mut operands: Vec<Types> = Vec::new();
            push_value(&mut operands, head);
            assert(crate::types::values_of(operands@) =~= seq![head@]);
            s.ask(FloatWord::Show, operands, false);
            nothing()
        },
        Types::Double(_) => {
            let mut operands: Vec<Types> = Vec::new();
            push_value(&mut operands, head);
            assert(crate::types::values_of(operands@) =~= seq![head@]);
            s.ask(FloatWord::Show, operands, true);
            nothing()
        },
        _ => Ok(show(&head)),
    }
}

/// `peek` writes the top value and leaves it where it is: the stack is the
/// same after it, and so is what a second `peek` writes.
pub open spec fn peek_spec(e: EngineView) -> Outcome {
    if e.main_stack.len() < 1 {
        fails(e, STACK_UNDERFLOW_ERROR@)
    } else {
        let head = e.main_stack.last();
        if is_fraction(head) {
            asks(e, FloatWord::Show, seq![head], head is Double)
        } else {
            says(e, shown(head))
        }
    }
}

/// Writes the top value and leaves it where it is.
pub fn peek(s: &mut Engine) -> (r: Result<String, String>)
    ensures
        (final(s)@, text_result(r)) == peek_spec(old(s)@),
        final(s)@.main_stack == old(s)@.main_stack,
{
    let n = s.main_stack.len();
    if n == 0 {
        failure(STACK_UNDERFLOW_ERROR)
    } else {
        let head = s.main_stack[n - 1].copy();
        write_out(s, head)
    }
}

/// Two `swap`s leave the stack as it was.
pub proof fn lemma_swap_twice(e: EngineView)
    requires
        e.main_stack.len() >= 2,
    ensures
        swap_word_spec(swap_word_spec(e).0) == done(e),
{
    assert(swap_word_spec(swap_word_spec(e).0).0.main_stack =~= e.main_stack);
}

/// Three `rot`s leave the stack as it was.
pub proof fn lemma_rot_thrice(e: EngineView)
    requires
        e.main_stack.len() >= 3,
    ensures
        rot_spec(rot_spec(rot_spec(e).0).0) == done(e),
{
    let once = rot_spec(e).0;
    let twice = rot_spec(once).0;
    assert(once.main_stack.len() == e.main_stack.len());
    assert(twice.main_stack.len() == e.main_stack.len());
    assert(rot_spec(twice).0.main_stack =~= e.main_stack);
}

/// `drop` undoes `dup`.
pub proof fn lemma_drop_undoes_dup(e: EngineView)
    requires
        e.main_stack.len() >= 1,
    ensures
        drop_word_spec(dup_spec(e).0) == done(e),
{
    assert(drop_word_spec(dup_spec(e).0).0.main_stack =~= e.main_stack);
}

/// `peek` never changes the main stack, and a second `peek` gives what the
/// first one gave.
pub proof fn lemma_peek_repeats(e: EngineView)
    ensures
        peek_spec(e).0.main_stack == e.main_stack,
        peek_spec(peek_spec(e).0) == peek_spec(e),
{
}

/// The words on the stack keep what [`handler_keeps`] says: they leave the budget
/// alone, and of the contexts they move at most the cursor of the active one.
pub proof fn lemma_handlers_keep(e: EngineView)
    ensures
        handler_keeps(e, dot_spec(e)),
        handler_keeps(e, dup_spec(e)),
        handler_keeps(e, two_dup_spec(e)),
        handler_keeps(e, drop_word_spec(e)),
        handler_keeps(e, swap_word_spec(e)),
        handler_keeps(e, rot_spec(e)),
        handler_keeps(e, peek_spec(e)),
{
    assert(dot_spec(e).0.contexts.take(crate::engine::beneath(e)) =~= e.contexts.take(
        crate::engine::beneath(e),
    ));
    assert(dup_spec(e).0.contexts.take(crate::engine::beneath(e)) =~= e.contexts.take(
        crate::engine::beneath(e),
    ));
    assert(two_dup_spec(e).0.contexts.take(crate::engine::beneath(e)) =~= e.contexts.take(
        crate::engine::beneath(e),
    ));
    assert(drop_word_spec(e).0.contexts.take(crate::engine::beneath(e)) =~= e.contexts.take(
        crate::engine::beneath(e),
    ));
    assert(swap_word_spec(e).0.contexts.take(crate::engine::beneath(e)) =~= e.contexts.take(
        crate::engine::beneath(e),
    ));
    assert(rot_spec(e).0.contexts.take(crate::engine::beneath(e)) =~= e.contexts.take(
        crate::engine::beneath(e),
    ));
    assert(peek_spec(e).0.contexts.take(crate::engine::beneath(e)) =~= e.contexts.take(
        crate::engine::beneath(e),
    ));
}

} // verus!
