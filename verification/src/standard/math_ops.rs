//! The arithmetic words.

use vstd::prelude::*;
use vstd::string::*;
use crate::arith::{is_fraction, whole_arith, whole_arith_spec, Operator};
use crate::engine::{
    asks, done, fails, failure, handler_keeps, nothing, pushed, text_result, underflows,
    with_stack, Engine, EngineView, FloatWord, Outcome,
};
use crate::errors::{INVALID_TYPE_ERROR, STACK_UNDERFLOW_ERROR};
use crate::text::{append_chars, chars_of, string_of, trim, trimmed};
use crate::types::{pop_value, push_value, values_of, Types, Value};

verus! {

/// The work that the host does for an operator.
pub open spec fn float_word(op: Operator) -> FloatWord {
    match op {
        Operator::Add => FloatWord::Add,
        Operator::Subtract => FloatWord::Subtract,
        Operator::Multiply => FloatWord::Multiply,
        Operator::Divide => FloatWord::Divide,
        Operator::Remainder => FloatWord::Remainder,
    }
}

/// Two texts joined by one blank, each without the white space at its ends.
pub open spec fn joined(a: Seq<char>, b: Seq<char>) -> Seq<char> {
    trim(a) + seq![' '] + trim(b)
}

/// What an operator makes of `lhs` and `rhs`, both already taken from the
/// stack.
///
/// Two texts can only be added, which joins them. A text and a number never
/// combine. Where a fractional number takes part, the host does the work.
/// Whole numbers give the exact result in the kind of
/// [`crate::arith::result_rank`], and the word fails where there is none.
pub open spec fn combine(rest: EngineView, op: Operator, lhs: Value, rhs: Value) -> Outcome {
    if lhs is Str || rhs is Str {
        if op == Operator::Add && lhs is Str && rhs is Str {
            done(pushed(rest, Value::Str(joined(lhs->Str_0, rhs->Str_0))))
        } else {
            fails(rest, INVALID_TYPE_ERROR@)
        }
    } else if is_fraction(lhs) || is_fraction(rhs) {
        asks(rest, float_word(op), seq![lhs, rhs], lhs is Double || rhs is Double)
    } else {
        match whole_arith_spec(op, lhs, rhs) {
            Some(v) => done(pushed(rest, v)),
            None => fails(rest, INVALID_TYPE_ERROR@),
        }
    }
}

/// An arithmetic word takes the top value as its right operand and the one
/// beneath as its left operand, and puts the result in their place.
pub open spec fn arithmetic_spec(e: EngineView, op: Operator) -> Outcome {
    let n = e.main_stack.len() as int;
    if n < 2 {
        underflows(e)
    } else {
        combine(with_stack(e, e.main_stack.take(n - 2)), op, e.main_stack[n - 2], e.main_stack[n - 1])
    }
}

/// `+`, `-` and `*` on two whole numbers of which at most one is a byte put
/// the exact result on the stack, in the wider of the two kinds, whenever the
/// exact result fits that kind.
pub proof fn lemma_arithmetic_widens(e: EngineView, op: Operator)
    requires
        e.main_stack.len() >= 2,
        op == Operator::Add || op == Operator::Subtract || op == Operator::Multiply,
        crate::arith::is_whole(e.main_stack[e.main_stack.len() - 2]),
        crate::arith::is_whole(e.main_stack[e.main_stack.len() - 1]),
        !(e.main_stack[e.main_stack.len() - 2] is Byte && e.main_stack[e.main_stack.len() - 1]
            is Byte),
        crate::arith::whole_in(
            wider(e.main_stack[e.main_stack.len() - 2], e.main_stack[e.main_stack.len() - 1]),
            crate::arith::exact(
                op,
                crate::arith::whole_of(e.main_stack[e.main_stack.len() - 2]),
                crate::arith::whole_of(e.main_stack[e.main_stack.len() - 1]),
            ),
        ) is Some,
    ensures
        arithmetic_spec(e, op) == done(
            with_stack(
                e,
                e.main_stack.take(e.main_stack.len() - 2).push(
                    crate::arith::whole_in(
                        wider(
                            e.main_stack[e.main_stack.len() - 2],
                            e.main_stack[e.main_stack.len() - 1],
                        ),
                        crate::arith::exact(
                            op,
                            crate::arith::whole_of(e.main_stack[e.main_stack.len() - 2]),
                            crate::arith::whole_of(e.main_stack[e.main_stack.len() - 1]),
                        ),
                    )->0,
                ),
            ),
        ),
{
}

/// The rank of the wider of two kinds of whole numbers.
pub open spec fn wider(a: Value, b: Value) -> int {
    if crate::arith::rank(a) >= crate::arith::rank(b) {
        crate::arith::rank(a)
    } else {
        crate::arith::rank(b)
    }
}

fn join_texts(a: &String, b: &String) -> (r: String)
    ensures
        r@ == joined(a@, b@),
{
    let mut out = trimmed(&chars_of(a.as_str()));
    out.push(' ');
    let tail = trimmed(&chars_of(b.as_str()));
    append_chars(&mut out, &tail);
    assert(out@ =~= joined(a@, b@));
    string_of(&out)
}

fn word_for(op: Operator) -> (r: FloatWord)
    ensures
        r == float_word(op),
{
    match op {
        Operator::Add => FloatWord::Add,
        Operator::Subtract => FloatWord::Subtract,
        Operator::Multiply => FloatWord::Multiply,
        Operator::Divide => FloatWord::Divide,
        Operator::Remainder => FloatWord::Remainder,
    }
}

/// One list of the two operands of a task.
pub fn pair_of(a: Types, b: Types) -> (r: Vec<Types>)
    ensures
        values_of(r@) == seq![a@, b@],
{
    let mut operands: Vec<Types> = Vec::new();
    push_value(&mut operands, a);
    push_value(&mut operands, b);
    assert(values_of(operands@) =~= seq![a@, b@]);
    operands
}

fn arithmetic(s: &mut Engine, op: Operator) -> (r: Result<String, String>)
    ensures
        (final(s)@, text_result(r)) == arithmetic_spec(old(s)@, op),
{
    let x = pop_value(&mut s.main_stack);
    let y = pop_value(&mut s.main_stack);
    match (y, x) {
        (Some(lhs), Some(rhs)) => {
            assert(s@.main_stack =~= old(s)@.main_stack.take(old(s)@.main_stack.len() - 2));
            match (&lhs, &rhs) {
                (Types::Str(a), Types::Str(b)) => {
                    match op {
                        Operator::Add => {
                            let text = join_texts(a, b);
                            push_value(&mut s.main_stack, Types::Str(text));
                            nothing()
                        },
                        _ => failure(INVALID_TYPE_ERROR),
                    }
                },
                (Types::Str(_), _) => failure(INVALID_TYPE_ERROR),
                (_, Types::Str(_)) => failure(INVALID_TYPE_ERROR),
                (Types::Double(_), _) => {
                    s.ask(word_for(op), pair_of(lhs, rhs), true);
                    nothing()
                },
                (_, Types::Double(_)) => {
                    s.ask(word_for(op), pair_of(lhs, rhs), true);
                    nothing()
                },
                (Types::Float(_), _) => {
                    s.ask(word_for(op), pair_of(lhs, rhs), false);
                    nothing()
                },
                (_, Types::Float(_)) => {
                    s.ask(word_for(op), pair_of(lhs, rhs), false);
                    nothing()
                },
                _ => {
                    match whole_arith(op, &lhs, &rhs) {
                        Some(v) => {
                            push_value(&mut s.main_stack, v);
                            nothing()
                        },
                        None => failure(INVALID_TYPE_ERROR),
                    }
                },
            }
        },
        _ => {
            assert(s@.main_stack =~= Seq::empty());
            failure(STACK_UNDERFLOW_ERROR)
        },
    }
}

/// `+`
pub fn add(s: &mut Engine) -> (r: Result<String, String>)
    ensures
        (final(s)@, text_result(r)) == arithmetic_spec(old(s)@, Operator::Add),
{
    arithmetic(s, Operator::Add)
}

/// `-`
pub fn subtract(s: &mut Engine) -> (r: Result<String, String>)
    ensures
        (final(s)@, text_result(r)) == arithmetic_spec(old(s)@, Operator::Subtract),
{
    arithmetic(s, Operator::Subtract)
}

/// `*`
pub fn multiply(s: &mut Engine) -> (r: Result<String, String>)
    ensures
        (final(s)@, text_result(r)) == arithmetic_spec(old(s)@, Operator::Multiply),
{
    arithmetic(s, Operator::Multiply)
}

/// `/`
pub fn divide(s: &mut Engine) -> (r: Result<String, String>)
    ensures
        (final(s)@, text_result(r)) == arithmetic_spec(old(s)@, Operator::Divide),
{
    arithmetic(s, Operator::Divide)
}

/// `%`
pub fn rem_op(s: &mut Engine) -> (r: Result<String, String>)
    ensures
        (final(s)@, text_result(r)) == arithmetic_spec(old(s)@, Operator::Remainder),
{
    arithmetic(s, Operator::Remainder)
}

/// `abs` puts the magnitude of the top value in its place. It fails on a
/// byte and on a text, and on the one int and the one long whose magnitude
/// does not fit.
pub open spec fn abs_op_spec(e: EngineView) -> Outcome {
    if e.main_stack.len() < 1 {
        underflows(e)
    } else {
        let rest = with_stack(e, e.main_stack.drop_last());
        match e.main_stack.last() {
            Value::Int(a) => if a == i32::MIN {
                fails(rest, INVALID_TYPE_ERROR@)
            } else if a < 0 {
                done(pushed(rest, Value::Int((-a) as i32)))
            } else {
                done(pushed(rest, Value::Int(a)))
            },
            Value::Long(a) => if a == i64::MIN {
                fails(rest, INVALID_TYPE_ERROR@)
            } else if a < 0 {
                done(pushed(rest, Value::Long((-a) as i64)))
            } else {
                done(pushed(rest, Value::Long(a)))
            },
            Value::Float(a) => asks(rest, FloatWord::Abs, seq![Value::Float(a)], false),
            Value::Double(a) => asks(rest, FloatWord::Abs, seq![Value::Double(a)], true),
            _ => fails(rest, INVALID_TYPE_ERROR@),
        }
    }
}

/// One list of the one operand of a task.
pub fn single_of(a: Types) -> (r: Vec<Types>)
    ensures
        values_of(r@) == seq![a@],
{
    let mut operands: Vec<Types> = Vec::new();
    push_value(&mut operands, a);
    assert(values_of(operands@) =~= seq![a@]);
    operands
}

/// Puts the magnitude of the top value in its place.
pub fn abs_op(s: &mut Engine) -> (r: Result<String, String>)
    ensures
        (final(s)@, text_result(r)) == abs_op_spec(old(s)@),
{
    match pop_value(&mut s.main_stack) {
        None => {
            assert(s@.main_stack =~= Seq::empty());
            failure(STACK_UNDERFLOW_ERROR)
        },
        Some(Types::Int(a)) => {
            if a == i32::MIN {
                failure(INVALID_TYPE_ERROR)
            } else {
                push_value(&mut s.main_stack, Types::Int(if a < 0 { -a } else { a }));
                nothing()
            }
        },
        Some(Types::Long(a)) => {
            if a == i64::MIN {
                failure(INVALID_TYPE_ERROR)
            } else {
                push_value(&mut s.main_stack, Types::Long(if a < 0 { -a } else { a }));
                nothing()
            }
        },
        Some(Types::Float(a)) => {
            s.ask(FloatWord::Abs, single_of(Types::Float(a)), false);
            nothing()
        },
        Some(Types::Double(a)) => {
            s.ask(FloatWord::Abs, single_of(Types::Double(a)), true);
            nothing()
        },
        Some(_) => failure(INVALID_TYPE_ERROR),
    }
}

/// The arithmetic words keep what [`handler_keeps`] says: they leave the budget
/// alone, and of the contexts they move at most the cursor of the active one.
pub proof fn lemma_handlers_keep(e: EngineView)
    ensures
        handler_keeps(e, arithmetic_spec(e, Operator::Add)),
        handler_keeps(e, arithmetic_spec(e, Operator::Subtract)),
        handler_keeps(e, arithmetic_spec(e, Operator::Multiply)),
        handler_keeps(e, arithmetic_spec(e, Operator::Divide)),
        handler_keeps(e, arithmetic_spec(e, Operator::Remainder)),
        handler_keeps(e, abs_op_spec(e)),
{
    assert(arithmetic_spec(e, Operator::Add).0.contexts.take(crate::engine::beneath(e)) =~= e.contexts.take(
        crate::engine::beneath(e),
    ));
    assert(arithmetic_spec(e, Operator::Subtract).0.contexts.take(crate::engine::beneath(e)) =~= e.contexts.take(
        crate::engine::beneath(e),
    ));
    assert(arithmetic_spec(e, Operator::Multiply).0.contexts.take(crate::engine::beneath(e)) =~= e.contexts.take(
        crate::engine::beneath(e),
    ));
    assert(arithmetic_spec(e, Operator::Divide).0.contexts.take(crate::engine::beneath(e)) =~= e.contexts.take(
        crate::engine::beneath(e),
    ));
    assert(arithmetic_spec(e, Operator::Remainder).0.contexts.take(crate::engine::beneath(e)) =~= e.contexts.take(
        crate::engine::beneath(e),
    ));
    assert(abs_op_spec(e).0.contexts.take(crate::engine::beneath(e)) =~= e.contexts.take(
        crate::engine::beneath(e),
    ));
}

} // verus!
