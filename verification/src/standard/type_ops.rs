//! The words that turn a value into one of another kind.
//!
//! A whole number that is cut down to a narrower kind keeps its low bits. A
//! text is read as a number and the word fails where it writes none. What
//! needs a fractional number, coming or going, is left for the host.

use vstd::prelude::*;
use vstd::string::*;
use crate::arith::is_fraction;
use crate::engine::{
    asks, done, fails, failure, handler_keeps, nothing, pushed, show, shown, text_result,
    underflows, with_stack, Engine, EngineView, FloatWord, Outcome,
};
use crate::errors::{STACK_UNDERFLOW_ERROR, TYPE_CONVERSION_FAILURE_ERROR};
use crate::number::{number_within, parse_number, wrap_to_byte, wrap_to_int, wrapped};
use crate::standard::math_ops::single_of;
use crate::text::chars_of;
use crate::types::{pop_value, push_value, Types, Value};

verus! {

/// The kinds into which the words of this file turn a value.
#[derive(Clone, Copy, Debug, PartialEq, Eq, Structural)]
pub enum Target {
    Int,
    Long,
    Float,
    Double,
    Byte,
    Str,
}

/// The work that the host does to reach a kind.
pub open spec fn target_word(target: Target) -> FloatWord {
    match target {
        Target::Int => FloatWord::ToInt,
        Target::Long => FloatWord::ToLong,
        Target::Float => FloatWord::ToFloat,
        Target::Double => FloatWord::ToDouble,
        Target::Byte => FloatWord::ToByte,
        Target::Str => FloatWord::ToStr,
    }
}

/// A value as one of a kind of whole numbers or as a text, where the engine
/// can tell; `None` where the value is a text that writes no number of the
/// kind. A byte is read from a text in radix 16, the other numbers in
/// radix 10.
pub open spec fn converted(target: Target, v: Value) -> Option<Value>
    recommends
        !is_fraction(v),
        target != Target::Float,
        target != Target::Double,
{
    match target {
        Target::Str => Some(Value::Str(shown(v))),
        Target::Int => match v {
            Value::Int(a) => Some(Value::Int(a)),
            Value::Long(a) => Some(Value::Int(wrapped(a as int, 32) as i32)),
            Value::Byte(a) => Some(Value::Int(a as i32)),
            Value::Str(a) => match number_within(a, 10, true, i32::MIN as int, i32::MAX as int) {
                Some(n) => Some(Value::Int(n as i32)),
                None => None,
            },
            _ => None,
        },
        Target::Long => match v {
            Value::Int(a) => Some(Value::Long(a as i64)),
            Value::Long(a) => Some(Value::Long(a)),
            Value::Byte(a) => Some(Value::Long(a as i64)),
            Value::Str(a) => match number_within(a, 10, true, i64::MIN as int, i64::MAX as int) {
                Some(n) => Some(Value::Long(n as i64)),
                None => None,
            },
            _ => None,
        },
        _ => match v {
            Value::Int(a) => Some(Value::Byte(wrapped(a as int, 8) as u8)),
            Value::Long(a) => Some(Value::Byte(wrapped(a as int, 8) as u8)),
            Value::Byte(a) => Some(Value::Byte(a)),
            Value::Str(a) => match number_within(a, 16, false, 0, u8::MAX as int) {
                Some(n) => Some(Value::Byte(n as u8)),
                None => None,
            },
            _ => None,
        },
    }
}

/// Whether the host has to do the work: a fractional number is to be turned
/// into something else, or something else into a fractional number.
pub open spec fn needs_host(target: Target, v: Value) -> bool {
    match target {
        Target::Float => !(v is Float),
        Target::Double => !(v is Double),
        _ => is_fraction(v),
    }
}

/// A conversion word takes the top value and puts the value of the other
/// kind in its place.
pub open spec fn conversion_spec(e: EngineView, target: Target) -> Outcome {
    if e.main_stack.len() < 1 {
        underflows(e)
    } else {
        let rest = with_stack(e, e.main_stack.drop_last());
        let v = e.main_stack.last();
        if needs_host(target, v) {
            asks(rest, target_word(target), seq![v], target == Target::Double || v is Double)
        } else if target == Target::Float || target == Target::Double {
            done(pushed(rest, v))
        } else {
            match converted(target, v) {
                Some(r) => done(pushed(rest, r)),
                None => fails(rest, TYPE_CONVERSION_FAILURE_ERROR@),
            }
        }
    }
}

fn word_for(target: Target) -> (r: FloatWord)
    ensures
        r == target_word(target),
{
    match target {
        Target::Int => FloatWord::ToInt,
        Target::Long => FloatWord::ToLong,
        Target::Float => FloatWord::ToFloat,
        Target::Double => FloatWord::ToDouble,
        Target::Byte => FloatWord::ToByte,
        Target::Str => FloatWord::ToStr,
    }
}

fn host_needed(target: Target, v: &Types) -> (b: bool)
    ensures
        b == needs_host(target, v@),
{
    match (target, v) {
        (Target::Float, Types::Float(_)) => false,
        (Target::Float, _) => true,
        (Target::Double, Types::Double(_)) => false,
        (Target::Double, _) => true,
        (_, Types::Float(_)) => true,
        (_, Types::Double(_)) => true,
        _ => false,
    }
}

fn is_double(v: &Types) -> (b: bool)
    ensures
        b == (v@ is Double),
{
    match v {
        Types::Double(_) => true,
        _ => false,
    }
}

fn read_number(text: &String, radix: u32, signed: bool, lo: i64, hi: i64) -> (r: Option<i64>)
    requires
        radix == 10 || radix == 16,
    ensures
        match r {
            Some(n) => number_within(text@, radix as int, signed, lo as int, hi as int) == Some(
                n as int,
            ),
            None => number_within(text@, radix as int, signed, lo as int, hi as int) is None,
        },
{
    let chars = chars_of(text.as_str());
    assert(chars@.take(chars@.len() as int) =~= chars@);
    parse_number(&chars, chars.len(), radix, signed, lo, hi)
}

/// Turns a value that is no fractional number into a whole number or a text.
pub fn convert(target: Target, v: &Types) -> (r: Option<Types>)
    requires
        !is_fraction(v@),
        target != Target::Float,
        target != Target::Double,
    ensures
        crate::arith::option_view(r) == converted(target, v@),
{
    match target {
        Target::Str => Some(Types::Str(show(v))),
        Target::Int => match v {
            Types::Int(a) => Some(Types::Int(*a)),
            Types::Long(a) => Some(Types::Int(wrap_to_int(*a))),
            Types::Byte(a) => Some(Types::Int(*a as i32)),
            Types::Str(a) => match read_number(a, 10, true, -0x8000_0000, 0x7fff_ffff) {
                Some(n) => Some(Types::Int(n as i32)),
                None => None,
            },
            _ => None,
        },
        Target::Long => match v {
            Types::Int(a) => Some(Types::Long(*a as i64)),
            Types::Long(a) => Some(Types::Long(*a)),
            Types::Byte(a) => Some(Types::Long(*a as i64)),
            Types::Str(a) => match read_number(
                a,
                10,
                true,
                -0x8000_0000_0000_0000,
                0x7fff_ffff_ffff_ffff,
            ) {
                Some(n) => Some(Types::Long(n)),
                None => None,
            },
            _ => None,
        },
        _ => match v {
            Types::Int(a) => Some(Types::Byte(wrap_to_byte(*a as i64))),
            Types::Long(a) => Some(Types::Byte(wrap_to_byte(*a))),
            Types::Byte(a) => Some(Types::Byte(*a)),
            Types::Str(a) => match read_number(a, 16, false, 0, 255) {
                Some(n) => Some(Types::Byte(n as u8)),
                None => None,
            },
            _ => None,
        },
    }
}

fn conversion(s: &mut Engine, target: Target) -> (r: Result<String, String>)
    ensures
        (final(s)@, text_result(r)) == conversion_spec(old(s)@, target),
{
    match pop_value(&mut s.main_stack) {
        None => {
            assert(s@.main_stack =~= Seq::empty());
            failure(STACK_UNDERFLOW_ERROR)
        },
        Some(v) => {
            if host_needed(target, &v) {
                let wide = match target {
                    Target::Double => true,
                    _ => is_double(&v),
                };
                s.ask(word_for(target), single_of(v), wide);
                nothing()
            } else {
                match target {
                    Target::Float => {
                        push_value(&mut s.main_stack, v);
                        nothing()
                    },
                    Target::Double => {
                        push_value(&mut s.main_stack, v);
                        nothing()
                    },
                    _ => match convert(target, &v) {
                        Some(r) => {
                            push_value(&mut s.main_stack, r);
                            nothing()
                        },
                        None => failure(TYPE_CONVERSION_FAILURE_ERROR),
                    },
                }
            }
        },
    }
}

/// `to_str`
pub fn to_string(s: &mut Engine) -> (r: Result<String, String>)
    ensures
        (final(s)@, text_result(r)) == conversion_spec(old(s)@, Target::Str),
{
    conversion(s, Target::Str)
}

/// `to_int`
pub fn to_int(s: &mut Engine) -> (r: Result<String, String>)
    ensures
        (final(s)@, text_result(r)) == conversion_spec(old(s)@, Target::Int),
{
    conversion(s, Target::Int)
}

/// `to_long`
pub fn to_long(s: &mut Engine) -> (r: Result<String, String>)
    ensures
        (final(s)@, text_result(r)) == conversion_spec(old(s)@, Target::Long),
{
    conversion(s, Target::Long)
}

/// `to_float`
pub fn to_float(s: &mut Engine) -> (r: Result<String, String>)
    ensures
        (final(s)@, text_result(r)) == conversion_spec(old(s)@, Target::Float),
{
    conversion(s, Target::Float)
}

/// `to_double`
pub fn to_double(s: &mut Engine) -> (r: Result<String, String>)
    ensures
        (final(s)@, text_result(r)) == conversion_spec(old(s)@, Target::Double),
{
    conversion(s, Target::Double)
}

/// `to_byte`
pub fn to_byte(s: &mut Engine) -> (r: Result<String, String>)
    ensures
        (final(s)@, text_result(r)) == conversion_spec(old(s)@, Target::Byte),
{
    conversion(s, Target::Byte)
}

/// The words that turn a value into another kind keep what [`handler_keeps`] says: they leave the budget
/// alone, and of the contexts they move at most the cursor of the active one.
pub proof fn lemma_handlers_keep(e: EngineView)
    ensures
        handler_keeps(e, conversion_spec(e, Target::Int)),
        handler_keeps(e, conversion_spec(e, Target::Long)),
        handler_keeps(e, conversion_spec(e, Target::Float)),
        handler_keeps(e, conversion_spec(e, Target::Double)),
        handler_keeps(e, conversion_spec(e, Target::Byte)),
        handler_keeps(e, conversion_spec(e, Target::Str)),
{
    assert(conversion_spec(e, Target::Int).0.contexts.take(crate::engine::beneath(e)) =~= e.contexts.take(
        crate::engine::beneath(e),
    ));
    assert(conversion_spec(e, Target::Long).0.contexts.take(crate::engine::beneath(e)) =~= e.contexts.take(
        crate::engine::beneath(e),
    ));
    assert(conversion_spec(e, Target::Float).0.contexts.take(crate::engine::beneath(e)) =~= e.contexts.take(
        crate::engine::beneath(e),
    ));
    assert(conversion_spec(e, Target::Double).0.contexts.take(crate::engine::beneath(e)) =~= e.contexts.take(
        crate::engine::beneath(e),
    ));
    assert(conversion_spec(e, Target::Byte).0.contexts.take(crate::engine::beneath(e)) =~= e.contexts.take(
        crate::engine::beneath(e),
    ));
    assert(conversion_spec(e, Target::Str).0.contexts.take(crate::engine::beneath(e)) =~= e.contexts.take(
        crate::engine::beneath(e),
    ));
}

} // verus!
