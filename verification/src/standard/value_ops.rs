//! The words that write a number.
//!
//! An int is written in decimal; a long likewise, with `l` or `L` after it; a
//! float as a fractional number with `f` or `F` after it; a double as a
//! fractional number; a byte as `0x` and two further characters, which are
//! read in radix 16.

use vstd::prelude::*;
use vstd::string::*;
use crate::engine::{
    asks, current_word, done, fails, failure, handler_keeps, nothing, pushed, text_result, Engine,
    EngineView, FloatWord, Outcome,
};
use crate::errors::TYPE_CONVERSION_FAILURE_ERROR;
use crate::number::{number_within, parse_number};
use crate::standard::math_ops::single_of;
use crate::text::{slice_of, string_of};
use crate::types::{push_value, Types, Value};

verus! {

/// The kinds of whole numbers that a word can write.
#[derive(Clone, Copy, Debug, PartialEq, Eq, Structural)]
pub enum Written {
    Int,
    Long,
    Byte,
}

/// `s` without its last character.
pub open spec fn without_last(s: Seq<char>) -> Seq<char> {
    if s.len() > 0 {
        s.drop_last()
    } else {
        s
    }
}

/// `s` without its first two characters.
pub open spec fn without_prefix(s: Seq<char>) -> Seq<char> {
    if s.len() >= 2 {
        s.skip(2)
    } else {
        Seq::empty()
    }
}

/// The whole number that `word` writes in the given kind.
pub open spec fn written_number(kind: Written, word: Seq<char>) -> Option<Value> {
    match kind {
        Written::Int => match number_within(word, 10, true, i32::MIN as int, i32::MAX as int) {
            Some(n) => Some(Value::Int(n as i32)),
            None => None,
        },
        Written::Long => match number_within(
            without_last(word),
            10,
            true,
            i64::MIN as int,
            i64::MAX as int,
        ) {
            Some(n) => Some(Value::Long(n as i64)),
            None => None,
        },
        Written::Byte => match number_within(without_prefix(word), 16, false, 0, u8::MAX as int) {
            Some(n) => Some(Value::Byte(n as u8)),
            None => None,
        },
    }
}

/// Reads `word` as a whole number of the given kind.
pub fn read_written(kind: Written, word: &Vec<char>) -> (r: Option<Types>)
    ensures
        crate::arith::option_view(r) == written_number(kind, word@),
{
    match kind {
        Written::Int => {
            assert(word@.take(word@.len() as int) =~= word@);
            match parse_number(word, word.len(), 10, true, -0x8000_0000, 0x7fff_ffff) {
                Some(n) => Some(Types::Int(n as i32)),
                None => None,
            }
        },
        Written::Long => {
            let end = if word.len() > 0 {
                word.len() - 1
            } else {
                0
            };
            assert(word@.take(end as int) =~= without_last(word@));
            match parse_number(
                word,
                end,
                10,
                true,
                -0x8000_0000_0000_0000,
                0x7fff_ffff_ffff_ffff,
            ) {
                Some(n) => Some(Types::Long(n)),
                None => None,
            }
        },
        Written::Byte => {
            let digits: Vec<char> = if word.len() >= 2 {
                slice_of(word, 2, word.len())
            } else {
                Vec::new()
            };
            assert(digits@ =~= without_prefix(word@));
            assert(digits@.take(digits@.len() as int) =~= digits@);
            match parse_number(&digits, digits.len(), 16, false, 0, 255) {
                Some(n) => Some(Types::Byte(n as u8)),
                None => None,
            }
        },
    }
}

/// A word that writes a whole number puts that number on the stack.
pub open spec fn number_spec(e: EngineView, kind: Written) -> Outcome {
    match written_number(kind, current_word(e)) {
        Some(v) => done(pushed(e, v)),
        None => fails(e, TYPE_CONVERSION_FAILURE_ERROR@),
    }
}

fn number(s: &mut Engine, kind: Written) -> (r: Result<String, String>)
    ensures
        (final(s)@, text_result(r)) == number_spec(old(s)@, kind),
{
    let value = match s.current_token() {
        Some(word) => read_written(kind, word),
        None => {
            let empty: Vec<char> = Vec::new();
            read_written(kind, &empty)
        },
    };
    match value {
        Some(v) => {
            push_value(&mut s.main_stack, v);
            nothing()
        },
        None => failure(TYPE_CONVERSION_FAILURE_ERROR),
    }
}

/// Puts the int that the current word writes on the stack.
pub fn int_number(s: &mut Engine) -> (r: Result<String, String>)
    ensures
        (final(s)@, text_result(r)) == number_spec(old(s)@, Written::Int),
{
    number(s, Written::Int)
}

/// Puts the long that the current word writes on the stack.
pub fn long_number(s: &mut Engine) -> (r: Result<String, String>)
    ensures
        (final(s)@, text_result(r)) == number_spec(old(s)@, Written::Long),
{
    number(s, Written::Long)
}

/// Puts the byte that the current word writes on the stack.
pub fn byte_number(s: &mut Engine) -> (r: Result<String, String>)
    ensures
        (final(s)@, text_result(r)) == number_spec(old(s)@, Written::Byte),
{
    number(s, Written::Byte)
}

/// A word that writes a float leaves its text, without the letter at its
/// end, for the host to read.
pub open spec fn float_number_spec(e: EngineView) -> Outcome {
    asks(e, FloatWord::ToFloat, seq![Value::Str(without_last(current_word(e)))], false)
}

/// Leaves the float that the current word writes for the host to read.
pub fn float_number(s: &mut Engine) -> (r: Result<String, String>)
    ensures
        (final(s)@, text_result(r)) == float_number_spec(old(s)@),
{
    let text: Vec<char> = match s.current_token() {
        Some(word) => {
            let end = if word.len() > 0 {
                word.len() - 1
            } else {
                0
            };
            slice_of(word, 0, end)
        },
        None => Vec::new(),
    };
    assert(text@ =~= without_last(current_word(s@)));
    s.ask(FloatWord::ToFloat, single_of(Types::Str(string_of(&text))), false);
    nothing()
}

/// A word that writes a double leaves its text for the host to read.
pub open spec fn double_number_spec(e: EngineView) -> Outcome {
    asks(e, FloatWord::ToDouble, seq![Value::Str(current_word(e))], true)
}

/// Leaves the double that the current word writes for the host to read.
pub fn double_number(s: &mut Engine) -> (r: Result<String, String>)
    ensures
        (final(s)@, text_result(r)) == double_number_spec(old(s)@),
{
    let text = s.get_curr_word();
    s.ask(FloatWord::ToDouble, single_of(Types::Str(text)), true);
    nothing()
}

/// The words that write a number keep what [`handler_keeps`] says: they leave the budget
/// alone, and of the contexts they move at most the cursor of the active one.
pub proof fn lemma_handlers_keep(e: EngineView)
    ensures
        handler_keeps(e, number_spec(e, Written::Int)),
        handler_keeps(e, number_spec(e, Written::Long)),
        handler_keeps(e, number_spec(e, Written::Byte)),
        handler_keeps(e, float_number_spec(e)),
        handler_keeps(e, double_number_spec(e)),
{
    assert(number_spec(e, Written::Int).0.contexts.take(crate::engine::beneath(e)) =~= e.contexts.take(
        crate::engine::beneath(e),
    ));
    assert(number_spec(e, Written::Long).0.contexts.take(crate::engine::beneath(e)) =~= e.contexts.take(
        crate::engine::beneath(e),
    ));
    assert(number_spec(e, Written::Byte).0.contexts.take(crate::engine::beneath(e)) =~= e.contexts.take(
        crate::engine::beneath(e),
    ));
    assert(float_number_spec(e).0.contexts.take(crate::engine::beneath(e)) =~= e.contexts.take(
        crate::engine::beneath(e),
    ));
    assert(double_number_spec(e).0.contexts.take(crate::engine::beneath(e)) =~= e.contexts.take(
        crate::engine::beneath(e),
    ));
}

} // verus!
