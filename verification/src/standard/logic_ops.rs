//! The words that compare, and the words on truth values.

use vstd::prelude::*;
use vstd::string::*;
use crate::arith::{
    holds, is_fraction, text_compare, text_holds, whole_compare, whole_of, Relation,
};
use crate::engine::{
    asks, done, fails, failure, flag, flag_value, handler_keeps, nothing, pushed, text_result,
    underflows, with_stack, Engine, EngineView, FloatWord, Outcome,
};
use crate::errors::{INVALID_TYPE_ERROR, STACK_UNDERFLOW_ERROR};
use crate::standard::math_ops::pair_of;
use crate::text::chars_of;
use crate::types::{pop_value, push_value, Types, Value};

verus! {

/// The work that the host does for a relation.
pub open spec fn relation_word(relation: Relation) -> FloatWord {
    match relation {
        Relation::Equal => FloatWord::Equal,
        Relation::NotEqual => FloatWord::NotEqual,
        Relation::Greater => FloatWord::Greater,
    }
}

/// Whether `first` stands in the relation to `second`, as a flag on the
/// stack.
///
/// Two texts compare as texts. A text and a number do not compare. Where a
/// fractional number takes part, the host does the work. Whole numbers
/// compare by the numbers they hold, whatever their kinds.
pub open spec fn compare(rest: EngineView, relation: Relation, first: Value, second: Value)
    -> Outcome {
    if first is Str || second is Str {
        if first is Str && second is Str {
            done(pushed(rest, flag(text_holds(relation, first->Str_0, second->Str_0))))
        } else {
            fails(rest, INVALID_TYPE_ERROR@)
        }
    } else if is_fraction(first) || is_fraction(second) {
        asks(rest, relation_word(relation), seq![first, second], first is Double || second is Double)
    } else {
        done(pushed(rest, flag(holds(relation, whole_of(first), whole_of(second)))))
    }
}

/// A relational word takes two values and puts a flag in their place. With
/// `top_first` the flag says whether the top value stands in the relation to
/// the one beneath; without, whether the one beneath stands in it to the top
/// value.
pub open spec fn relation_spec(e: EngineView, relation: Relation, top_first: bool) -> Outcome {
    let n = e.main_stack.len() as int;
    if n < 2 {
        underflows(e)
    } else {
        let rest = with_stack(e, e.main_stack.take(n - 2));
        if top_first {
            compare(rest, relation, e.main_stack[n - 1], e.main_stack[n - 2])
        } else {
            compare(rest, relation, e.main_stack[n - 2], e.main_stack[n - 1])
        }
    }
}

fn word_for(relation: Relation) -> (r: FloatWord)
    ensures
        r == relation_word(relation),
{
    match relation {
        Relation::Equal => FloatWord::Equal,
        Relation::NotEqual => FloatWord::NotEqual,
        Relation::Greater => FloatWord::Greater,
    }
}

fn compare_values(s: &mut Engine, relation: Relation, first: Types, second: Types) -> (r: Result<
    String,
    String,
>)
    ensures
        (final(s)@, text_result(r)) == compare(old(s)@, relation, first@, second@),
{
    match (&first, &second) {
        (Types::Str(a), Types::Str(b)) => {
            let holds = text_compare(relation, &chars_of(a.as_str()), &chars_of(b.as_str()));
            push_value(&mut s.main_stack, flag_value(holds));
            nothing()
        },
        (Types::Str(_), _) => failure(INVALID_TYPE_ERROR),
        (_, Types::Str(_)) => failure(INVALID_TYPE_ERROR),
        (Types::Double(_), _) => {
            s.ask(word_for(relation), pair_of(first, second), true);
            nothing()
        },
        (_, Types::Double(_)) => {
            s.ask(word_for(relation), pair_of(first, second), true);
            nothing()
        },
        (Types::Float(_), _) => {
            s.ask(word_for(relation), pair_of(first, second), false);
            nothing()
        },
        (_, Types::Float(_)) => {
            s.ask(word_for(relation), pair_of(first, second), false);
            nothing()
        },
        _ => {
            let holds = whole_compare(relation, &first, &second);
            push_value(&mut s.main_stack, flag_value(holds));
            nothing()
        },
    }
}

fn relational(s: &mut Engine, relation: Relation, top_first: bool) -> (r: Result<String, String>)
    ensures
        (final(s)@, text_result(r)) == relation_spec(old(s)@, relation, top_first),
{
    let a = pop_value(&mut s.main_stack);
    let b = pop_value(&mut s.main_stack);
    match (a, b) {
        (Some(top), Some(beneath)) => {
            assert(s@.main_stack =~= old(s)@.main_stack.take(old(s)@.main_stack.len() - 2));
            if top_first {
                compare_values(s, relation, top, beneath)
            } else {
                compare_values(s, relation, beneath, top)
            }
        },
        _ => {
            assert(s@.main_stack =~= Seq::empty());
            failure(STACK_UNDERFLOW_ERROR)
        },
    }
}

/// `==`
pub fn equal(s: &mut Engine) -> (r: Result<String, String>)
    ensures
        (final(s)@, text_result(r)) == relation_spec(old(s)@, Relation::Equal, true),
{
    relational(s, Relation::Equal, true)
}

/// `!=`
pub fn not_equal(s: &mut Engine) -> (r: Result<String, String>)
    ensures
        (final(s)@, text_result(r)) == relation_spec(old(s)@, Relation::NotEqual, true),
{
    relational(s, Relation::NotEqual, true)
}

/// `>` says whether the top value is greater than the one beneath it.
pub fn grater_than(s: &mut Engine) -> (r: Result<String, String>)
    ensures
        (final(s)@, text_result(r)) == relation_spec(old(s)@, Relation::Greater, true),
{
    relational(s, Relation::Greater, true)
}

/// `<` says whether the top value is less than the one beneath it.
pub fn less_than(s: &mut Engine) -> (r: Result<String, String>)
    ensures
        (final(s)@, text_result(r)) == relation_spec(old(s)@, Relation::Greater, false),
{
    relational(s, Relation::Greater, false)
}

/// A word on two flags, which are ints: it takes them and puts a flag in
/// their place. With `both` the flag is true where each of the two is the
/// true flag; without, where one of them is. Other kinds are not accepted.
pub open spec fn truth_spec(e: EngineView, both: bool) -> Outcome {
    let n = e.main_stack.len() as int;
    if n < 2 {
        underflows(e)
    } else {
        let rest = with_stack(e, e.main_stack.take(n - 2));
        match (e.main_stack[n - 1], e.main_stack[n - 2]) {
            (Value::Int(a), Value::Int(b)) => done(
                pushed(
                    rest,
                    flag(
                        if both {
                            a == -1 && b == -1
                        } else {
                            a == -1 || b == -1
                        },
                    ),
                ),
            ),
            _ => fails(rest, INVALID_TYPE_ERROR@),
        }
    }
}

fn truth(s: &mut Engine, both: bool) -> (r: Result<String, String>)
    ensures
        (final(s)@, text_result(r)) == truth_spec(old(s)@, both),
{
    let a = pop_value(&mut s.main_stack);
    let b = pop_value(&mut s.main_stack);
    match (a, b) {
        (Some(top), Some(beneath)) => {
            assert(s@.main_stack =~= old(s)@.main_stack.take(old(s)@.main_stack.len() - 2));
            match (top, beneath) {
                (Types::Int(a), Types::Int(b)) => {
                    let holds = if both {
                        a == -1 && b == -1
                    } else {
                        a == -1 || b == -1
                    };
                    push_value(&mut s.main_stack, flag_value(holds));
                    nothing()
                },
                _ => failure(INVALID_TYPE_ERROR),
            }
        },
        _ => {
            assert(s@.main_stack =~= Seq::empty());
            failure(STACK_UNDERFLOW_ERROR)
        },
    }
}

/// `and` is true where both of its two ints are the true flag.
pub fn and(s: &mut Engine) -> (r: Result<String, String>)
    ensures
        (final(s)@, text_result(r)) == truth_spec(old(s)@, true),
{
    truth(s, true)
}

/// `or` is true where one of its two ints is the true flag.
pub fn or(s: &mut Engine) -> (r: Result<String, String>)
    ensures
        (final(s)@, text_result(r)) == truth_spec(old(s)@, false),
{
    truth(s, false)
}

/// `not` puts the true flag in place of the int 0 and the false flag in
/// place of any other int.
pub open spec fn not_spec(e: EngineView) -> Outcome {
    if e.main_stack.len() < 1 {
        underflows(e)
    } else {
        let rest = with_stack(e, e.main_stack.drop_last());
        match e.main_stack.last() {
            Value::Int(a) => done(pushed(rest, flag(a == 0))),
            _ => fails(rest, INVALID_TYPE_ERROR@),
        }
    }
}

/// Puts the opposite flag in place of an int.
pub fn not(s: &mut Engine) -> (r: Result<String, String>)
    ensures
        (final(s)@, text_result(r)) == not_spec(old(s)@),
{
    match pop_value(&mut s.main_stack) {
        None => {
            assert(s@.main_stack =~= Seq::empty());
            failure(STACK_UNDERFLOW_ERROR)
        },
        Some(Types::Int(a)) => {
            push_value(&mut s.main_stack, flag_value(a == 0));
            nothing()
        },
        Some(_) => failure(INVALID_TYPE_ERROR),
    }
}

/// The words that compare, and those on flags, keep what [`handler_keeps`] says: they leave the budget
/// alone, and of the contexts they move at most the cursor of the active one.
pub proof fn lemma_handlers_keep(e: EngineView)
    ensures
        handler_keeps(e, relation_spec(e, Relation::Equal, true)),
        handler_keeps(e, relation_spec(e, Relation::NotEqual, true)),
        handler_keeps(e, relation_spec(e, Relation::Greater, true)),
        handler_keeps(e, relation_spec(e, Relation::Greater, false)),
        handler_keeps(e, truth_spec(e, true)),
        handler_keeps(e, truth_spec(e, false)),
        handler_keeps(e, not_spec(e)),
{
    assert(relation_spec(e, Relation::Equal, true).0.contexts.take(crate::engine::beneath(e)) =~= e.contexts.take(
        crate::engine::beneath(e),
    ));
    assert(relation_spec(e, Relation::NotEqual, true).0.contexts.take(crate::engine::beneath(e)) =~= e.contexts.take(
        crate::engine::beneath(e),
    ));
    assert(relation_spec(e, Relation::Greater, true).0.contexts.take(crate::engine::beneath(e)) =~= e.contexts.take(
        crate::engine::beneath(e),
    ));
    assert(relation_spec(e, Relation::Greater, false).0.contexts.take(crate::engine::beneath(e)) =~= e.contexts.take(
        crate::engine::beneath(e),
    ));
    assert(truth_spec(e, true).0.contexts.take(crate::engine::beneath(e)) =~= e.contexts.take(
        crate::engine::beneath(e),
    ));
    assert(truth_spec(e, false).0.contexts.take(crate::engine::beneath(e)) =~= e.contexts.take(
        crate::engine::beneath(e),
    ));
    assert(not_spec(e).0.contexts.take(crate::engine::beneath(e)) =~= e.contexts.take(
        crate::engine::beneath(e),
    ));
}

} // verus!
