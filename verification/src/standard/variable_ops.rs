//! The words on variables.
//!
//! A variable is a named list of values. `let` makes one, `@name` puts its
//! handle on the stack: an int, the place of the variable in the store at
//! that moment. The other words take the handle from the stack.

use vstd::prelude::*;
use vstd::string::*;
use crate::arith::{is_fraction, whole_of};
use crate::engine::{
    asks, current_word, cursor_at, done, fails, failure, handler_keeps, nothing, pushed,
    text_result, underflows, variables_of, with_stack, Engine, EngineView, FloatWord, Outcome,
    Variable, VariableView,
};
use crate::errors::{
    INVALID_TYPE_ERROR, STACK_UNDERFLOW_ERROR, VARIABLE_INDEX_OUT_OR_RANGE_ERROR,
    VARIABLE_NOT_DEFINED,
};
use crate::standard::math_ops::pair_of;
use crate::text::{copy_text, same_text, slice_of};
use crate::types::{pop_value, push_value, values_of, Types, Value};

verus! {

/// The place of the first variable from `from` on that has the given name.
pub open spec fn first_named(vars: Seq<VariableView>, name: Seq<char>, from: int) -> Option<int>
    decreases vars.len() - from,
{
    if from < 0 || from >= vars.len() {
        None
    } else if vars[from].name == name {
        Some(from)
    } else {
        first_named(vars, name, from + 1)
    }
}

fn find_variable(vars: &Vec<Variable>, name: &Vec<char>) -> (r: Option<usize>)
    ensures
        match r {
            Some(i) => first_named(variables_of(vars@), name@, 0) == Some(i as int) && i
                < vars.len(),
            None => first_named(variables_of(vars@), name@, 0) is None,
        },
{
    let mut i: usize = 0;
    while i < vars.len()
        invariant
            i <= vars.len(),
            first_named(variables_of(vars@), name@, 0) == first_named(
                variables_of(vars@),
                name@,
                i as int,
            ),
        decreases vars.len() - i,
    {
        if same_text(&vars[i].name, name) {
            return Some(i);
        }
        i += 1;
    }
    None
}

/// The word after the current one, which `let` takes as a name; the empty
/// text where the line ends before it.
pub open spec fn following_word(e: EngineView) -> Seq<char> {
    if e.contexts.len() > 0 && e.contexts.last().next < e.contexts.last().tokens.len() {
        e.contexts.last().tokens[e.contexts.last().next as int]
    } else {
        Seq::empty()
    }
}

/// The state with the cursor moved over the word after the current one, if
/// there is one.
pub open spec fn past_following_word(e: EngineView) -> EngineView {
    if e.contexts.len() > 0 && e.contexts.last().next < e.contexts.last().tokens.len() {
        EngineView { contexts: cursor_at(e.contexts, e.contexts.last().next + 1), ..e }
    } else {
        e
    }
}

/// `let name` makes an empty variable of that name at the end of the store.
/// A variable that had the name before is removed first: the new one takes
/// its place in name, not in position.
pub open spec fn let_word_spec(e: EngineView) -> Outcome {
    let name = following_word(e);
    let kept = match first_named(e.variable_stack, name, 0) {
        Some(i) => e.variable_stack.remove(i),
        None => e.variable_stack,
    };
    done(
        EngineView {
            variable_stack: kept.push(VariableView { name: name, values: Seq::empty() }),
            ..past_following_word(e)
        },
    )
}

/// After `let`, the name finds the new variable, which is empty and the
/// last in the store, provided that no two variables had the name before.
pub proof fn lemma_let_replaces(e: EngineView)
    requires
        forall|i: int, j: int|
            0 <= i < j < e.variable_stack.len() ==> !(e.variable_stack[i].name == following_word(e)
                && e.variable_stack[j].name == following_word(e)),
    ensures
        first_named(let_word_spec(e).0.variable_stack, following_word(e), 0) == Some(
            let_word_spec(e).0.variable_stack.len() - 1,
        ),
        let_word_spec(e).0.variable_stack.last().values.len() == 0,
        let_word_spec(e).0.variable_stack.len() == if first_named(
            e.variable_stack,
            following_word(e),
            0,
        ) is Some {
            e.variable_stack.len()
        } else {
            e.variable_stack.len() + 1
        },
{
    let name = following_word(e);
    let kept = match first_named(e.variable_stack, name, 0) {
        Some(i) => e.variable_stack.remove(i),
        None => e.variable_stack,
    };
    lemma_first_named_is_first(e.variable_stack, name, 0);
    assert forall|k: int| 0 <= k < kept.len() implies kept[k].name != name by {
        match first_named(e.variable_stack, name, 0) {
            Some(i) => {
                if k < i {
                    assert(kept[k] == e.variable_stack[k]);
                } else {
                    assert(kept[k] == e.variable_stack[k + 1]);
                }
            },
            None => {},
        }
    }
    let after = kept.push(VariableView { name: name, values: Seq::empty() });
    assert(let_word_spec(e).0.variable_stack == after);
    lemma_first_named_at(after, name, 0, kept.len() as int);
}

/// What `first_named` finds has the name, and nothing before it has.
pub proof fn lemma_first_named_is_first(vars: Seq<VariableView>, name: Seq<char>, from: int)
    requires
        0 <= from,
    ensures
        match first_named(vars, name, from) {
            Some(i) => from <= i < vars.len() && vars[i].name == name && forall|j: int|
                from <= j < i ==> (#[trigger] vars[j]).name != name,
            None => forall|j: int| from <= j < vars.len() ==> (#[trigger] vars[j]).name != name,
        },
    decreases vars.len() - from,
{
    if from < vars.len() && vars[from].name != name {
        lemma_first_named_is_first(vars, name, from + 1);
    }
}

/// Where the variable at `at` has the name and none from `from` up to it has,
/// `first_named` finds it.
pub proof fn lemma_first_named_at(vars: Seq<VariableView>, name: Seq<char>, from: int, at: int)
    requires
        0 <= from <= at < vars.len(),
        vars[at].name == name,
        forall|j: int| from <= j < at ==> (#[trigger] vars[j]).name != name,
    ensures
        first_named(vars, name, from) == Some(at),
    decreases at - from,
{
    if from < at {
        lemma_first_named_at(vars, name, from + 1, at);
    }
}

/// Makes an empty variable with the name that follows.
pub fn let_word(s: &mut Engine) -> (r: Result<String, String>)
    ensures
        (final(s)@, text_result(r)) == let_word_spec(old(s)@),
{
    let n = s.contexts.len();
    let mut name: Vec<char> = Vec::new();
    if n > 0 {
        let next = s.contexts[n - 1].next;
        if next < s.contexts[n - 1].tokens.len() {
            name = copy_text(&s.contexts[n - 1].tokens[next]);
            s.set_cursor(next + 1);
        }
    }
    assert(name@ == following_word(old(s)@));
    assert(s@ == past_following_word(old(s)@));
    let ghost before = variables_of(s.variable_stack@);
    match find_variable(&s.variable_stack, &name) {
        Some(i) => {
            let _ = s.variable_stack.remove(i);
            assert(variables_of(s.variable_stack@) =~= before.remove(i as int));
        },
        None => {},
    }
    let ghost kept = variables_of(s.variable_stack@);
    s.variable_stack.push(Variable { name: name, values: Vec::new() });
    assert(variables_of(s.variable_stack@) =~= kept.push(
        VariableView { name: name@, values: Seq::empty() },
    )) by {
        assert(values_of(Seq::<Types>::empty()) =~= Seq::<Value>::empty());
    }
    nothing()
}

/// `@name` puts the handle of the first variable of that name on the stack.
pub open spec fn get_var_addr_word_spec(e: EngineView) -> Outcome {
    let word = current_word(e);
    let name = if word.len() > 0 {
        word.drop_first()
    } else {
        word
    };
    match first_named(e.variable_stack, name, 0) {
        Some(i) => if i <= i32::MAX {
            done(pushed(e, Value::Int(i as i32)))
        } else {
            fails(e, VARIABLE_INDEX_OUT_OR_RANGE_ERROR@)
        },
        None => fails(e, VARIABLE_NOT_DEFINED@),
    }
}

/// Puts the handle of the variable that the current word names on the stack.
pub fn get_var_addr_word(s: &mut Engine) -> (r: Result<String, String>)
    ensures
        (final(s)@, text_result(r)) == get_var_addr_word_spec(old(s)@),
{
    let name: Vec<char> = match s.current_token() {
        Some(word) => {
            if word.len() > 0 {
                let name = slice_of(word, 1, word.len());
                assert(name@ =~= word@.drop_first());
                name
            } else {
                Vec::new()
            }
        },
        None => Vec::new(),
    };
    assert(name@ =~= if current_word(s@).len() > 0 {
        current_word(s@).drop_first()
    } else {
        current_word(s@)
    });
    match find_variable(&s.variable_stack, &name) {
        Some(i) => {
            if i <= 0x7fff_ffff {
                push_value(&mut s.main_stack, Types::Int(i as i32));
                nothing()
            } else {
                failure(VARIABLE_INDEX_OUT_OR_RANGE_ERROR)
            }
        },
        None => failure(VARIABLE_NOT_DEFINED),
    }
}

/// Whether `handle` is the place of a variable.
pub open spec fn is_handle(e: EngineView, handle: i32) -> bool {
    0 <= handle < e.variable_stack.len()
}

fn handle_of(s: &Engine, handle: i32) -> (r: Option<usize>)
    ensures
        match r {
            Some(i) => is_handle(s@, handle) && i == handle && i < s.variable_stack.len(),
            None => !is_handle(s@, handle),
        },
{
    if handle >= 0 && (handle as usize) < s.variable_stack.len() {
        Some(handle as usize)
    } else {
        None
    }
}

/// The state with other values in the variable at `handle`.
pub open spec fn with_values(e: EngineView, handle: int, values: Seq<Value>) -> EngineView {
    EngineView {
        variable_stack: e.variable_stack.update(
            handle,
            VariableView { values: values, ..e.variable_stack[handle] },
        ),
        ..e
    }
}

/// `push` takes a value and, beneath it, a handle, and appends the value to
/// that variable.
pub open spec fn push_word_spec(e: EngineView) -> Outcome {
    let n = e.main_stack.len() as int;
    if n < 2 {
        underflows(e)
    } else {
        let rest = with_stack(e, e.main_stack.take(n - 2));
        match e.main_stack[n - 2] {
            Value::Int(handle) => if is_handle(e, handle) {
                done(
                    with_values(
                        rest,
                        handle as int,
                        e.variable_stack[handle as int].values.push(e.main_stack[n - 1]),
                    ),
                )
            } else {
                fails(rest, VARIABLE_NOT_DEFINED@)
            },
            _ => fails(rest, INVALID_TYPE_ERROR@),
        }
    }
}

/// Appends a value to a variable.
pub fn push_word(s: &mut Engine) -> (r: Result<String, String>)
    ensures
        (final(s)@, text_result(r)) == push_word_spec(old(s)@),
{
    let val = pop_value(&mut s.main_stack);
    let var_index = pop_value(&mut s.main_stack);
    match (var_index, val) {
        (Some(var_index), Some(val)) => {
            assert(s@.main_stack =~= old(s)@.main_stack.take(old(s)@.main_stack.len() - 2));
            match var_index {
                Types::Int(handle) => {
                    match handle_of(s, handle) {
                        Some(i) => {
                            let ghost before = variables_of(s.variable_stack@);
                            push_value(&mut s.variable_stack[i].values, val);
                            assert(variables_of(s.variable_stack@) =~= before.update(
                                i as int,
                                VariableView {
                                    values: before[i as int].values.push(val@),
                                    ..before[i as int]
                                },
                            ));
                            nothing()
                        },
                        None => failure(VARIABLE_NOT_DEFINED),
                    }
                },
                _ => failure(INVALID_TYPE_ERROR),
            }
        },
        _ => {
            assert(s@.main_stack =~= Seq::empty());
            failure(STACK_UNDERFLOW_ERROR)
        },
    }
}

/// What `push` put into a variable, `pop` takes out again, and the variable
/// is as it was.
pub proof fn lemma_pop_undoes_push(e: EngineView, handle: i32)
    requires
        e.main_stack.len() >= 2,
        e.main_stack[e.main_stack.len() - 2] == Value::Int(handle),
        is_handle(e, handle),
    ensures
        push_word_spec(e).1 is Ok,
        pop_word_spec(pushed(push_word_spec(e).0, Value::Int(handle))) == done(
            with_stack(e, e.main_stack.take(e.main_stack.len() - 2).push(e.main_stack.last())),
        ),
{
    let n = e.main_stack.len() as int;
    let after = pushed(push_word_spec(e).0, Value::Int(handle));
    let back = pop_word_spec(after).0;
    assert(after.main_stack.drop_last() =~= e.main_stack.take(n - 2));
    assert(back.main_stack =~= e.main_stack.take(n - 2).push(e.main_stack.last()));
    assert(e.variable_stack[handle as int].values.push(e.main_stack.last()).drop_last()
        =~= e.variable_stack[handle as int].values);
    assert(back.variable_stack =~= e.variable_stack);
}

/// `pop` takes a handle and moves the last value of that variable to the
/// stack.
pub open spec fn pop_word_spec(e: EngineView) -> Outcome {
    if e.main_stack.len() < 1 {
        underflows(e)
    } else {
        let rest = with_stack(e, e.main_stack.drop_last());
        match e.main_stack.last() {
            Value::Int(handle) => if is_handle(e, handle) {
                let values = e.variable_stack[handle as int].values;
                if values.len() > 0 {
                    done(pushed(with_values(rest, handle as int, values.drop_last()), values.last()))
                } else {
                    fails(rest, STACK_UNDERFLOW_ERROR@)
                }
            } else {
                fails(rest, VARIABLE_NOT_DEFINED@)
            },
            _ => fails(rest, INVALID_TYPE_ERROR@),
        }
    }
}

/// Moves the last value of a variable to the stack.
pub fn pop_word(s: &mut Engine) -> (r: Result<String, String>)
    ensures
        (final(s)@, text_result(r)) == pop_word_spec(old(s)@),
{
    match pop_value(&mut s.main_stack) {
        None => {
            assert(s@.main_stack =~= Seq::empty());
            failure(STACK_UNDERFLOW_ERROR)
        },
        Some(Types::Int(handle)) => {
            match handle_of(s, handle) {
                Some(i) => {
                    let ghost before = variables_of(s.variable_stack@);
                    match pop_value(&mut s.variable_stack[i].values) {
                        Some(v) => {
                            assert(variables_of(s.variable_stack@) =~= before.update(
                                i as int,
                                VariableView {
                                    values: before[i as int].values.drop_last(),
                                    ..before[i as int]
                                },
                            ));
                            push_value(&mut s.main_stack, v);
                            nothing()
                        },
                        None => {
                            assert(variables_of(s.variable_stack@) =~= before);
                            failure(STACK_UNDERFLOW_ERROR)
                        },
                    }
                },
                None => failure(VARIABLE_NOT_DEFINED),
            }
        },
        Some(_) => failure(INVALID_TYPE_ERROR),
    }
}

/// `len` takes a handle and puts the number of values in that variable on
/// the stack.
pub open spec fn len_word_spec(e: EngineView) -> Outcome {
    if e.main_stack.len() < 1 {
        underflows(e)
    } else {
        let rest = with_stack(e, e.main_stack.drop_last());
        match e.main_stack.last() {
            Value::Int(handle) => if is_handle(e, handle) {
                let count = e.variable_stack[handle as int].values.len();
                if count <= i32::MAX {
                    done(pushed(rest, Value::Int(count as i32)))
                } else {
                    fails(rest, VARIABLE_INDEX_OUT_OR_RANGE_ERROR@)
                }
            } else {
                fails(rest, VARIABLE_NOT_DEFINED@)
            },
            _ => fails(rest, INVALID_TYPE_ERROR@),
        }
    }
}

/// Puts the number of values in a variable on the stack.
pub fn len_word(s: &mut Engine) -> (r: Result<String, String>)
    ensures
        (final(s)@, text_result(r)) == len_word_spec(old(s)@),
{
    match pop_value(&mut s.main_stack) {
        None => {
            assert(s@.main_stack =~= Seq::empty());
            failure(STACK_UNDERFLOW_ERROR)
        },
        Some(Types::Int(handle)) => {
            match handle_of(s, handle) {
                Some(i) => {
                    let count = s.variable_stack[i].values.len();
                    if count <= 0x7fff_ffff {
                        push_value(&mut s.main_stack, Types::Int(count as i32));
                        nothing()
                    } else {
                        failure(VARIABLE_INDEX_OUT_OR_RANGE_ERROR)
                    }
                },
                None => failure(VARIABLE_NOT_DEFINED),
            }
        },
        Some(_) => failure(INVALID_TYPE_ERROR),
    }
}

/// Puts a copy of the item at `place` of the variable at `handle` on the
/// stack.
pub open spec fn item_at(rest: EngineView, handle: i32, place: int) -> Outcome {
    if !is_handle(rest, handle) {
        fails(rest, VARIABLE_NOT_DEFINED@)
    } else if 0 <= place < rest.variable_stack[handle as int].values.len() {
        done(pushed(rest, rest.variable_stack[handle as int].values[place]))
    } else {
        fails(rest, VARIABLE_INDEX_OUT_OR_RANGE_ERROR@)
    }
}

/// Puts a copy of the item at `place` of the variable at `handle` on the
/// stack.
pub fn fetch_item(s: &mut Engine, handle: i32, place: i64) -> (r: Result<String, String>)
    ensures
        (final(s)@, text_result(r)) == item_at(old(s)@, handle, place as int),
{
    match handle_of(s, handle) {
        None => failure(VARIABLE_NOT_DEFINED),
        Some(i) => {
            if place >= 0 && (place as u64) < (s.variable_stack[i].values.len() as u64) {
                let v = s.variable_stack[i].values[place as usize].copy();
                push_value(&mut s.main_stack, v);
                nothing()
            } else {
                failure(VARIABLE_INDEX_OUT_OR_RANGE_ERROR)
            }
        },
    }
}

/// `get` takes a place and, beneath it, a handle, and puts a copy of the item
/// at that place of the variable on the stack. The place is any number; a
/// fractional one is turned into a whole one by the host.
pub open spec fn get_from_index_word_spec(e: EngineView) -> Outcome {
    let n = e.main_stack.len() as int;
    if n < 2 {
        underflows(e)
    } else {
        let rest = with_stack(e, e.main_stack.take(n - 2));
        let place = e.main_stack[n - 1];
        match e.main_stack[n - 2] {
            Value::Int(handle) => if place is Str {
                fails(rest, INVALID_TYPE_ERROR@)
            } else if !is_handle(e, handle) {
                fails(rest, VARIABLE_NOT_DEFINED@)
            } else if is_fraction(place) {
                asks(rest, FloatWord::Index, seq![Value::Int(handle), place], place is Double)
            } else {
                item_at(rest, handle, whole_of(place))
            },
            _ => fails(rest, INVALID_TYPE_ERROR@),
        }
    }
}

/// Puts a copy of one item of a variable on the stack.
pub fn get_from_index_word(s: &mut Engine) -> (r: Result<String, String>)
    ensures
        (final(s)@, text_result(r)) == get_from_index_word_spec(old(s)@),
{
    let index = pop_value(&mut s.main_stack);
    let var_index = pop_value(&mut s.main_stack);
    match (var_index, index) {
        (Some(var_index), Some(index)) => {
            assert(s@.main_stack =~= old(s)@.main_stack.take(old(s)@.main_stack.len() - 2));
            match (var_index, index) {
                (Types::Int(_), Types::Str(_)) => failure(INVALID_TYPE_ERROR),
                (Types::Int(handle), Types::Int(place)) => fetch_item(s, handle, place as i64),
                (Types::Int(handle), Types::Long(place)) => fetch_item(s, handle, place),
                (Types::Int(handle), Types::Byte(place)) => fetch_item(s, handle, place as i64),
                (Types::Int(handle), Types::Float(place)) => {
                    if handle_of(s, handle).is_none() {
                        failure(VARIABLE_NOT_DEFINED)
                    } else {
                        s.ask(
                            FloatWord::Index,
                            pair_of(Types::Int(handle), Types::Float(place)),
                            false,
                        );
                        nothing()
                    }
                },
                (Types::Int(handle), Types::Double(place)) => {
                    if handle_of(s, handle).is_none() {
                        failure(VARIABLE_NOT_DEFINED)
                    } else {
                        s.ask(
                            FloatWord::Index,
                            pair_of(Types::Int(handle), Types::Double(place)),
                            true,
                        );
                        nothing()
                    }
                },
                _ => failure(INVALID_TYPE_ERROR),
            }
        },
        _ => {
            assert(s@.main_stack =~= Seq::empty());
            failure(STACK_UNDERFLOW_ERROR)
        },
    }
}

/// `set` takes a value, a place beneath it and a handle beneath that, and
/// puts the value in the place of the item at that place of the variable.
/// The handle and the place are ints.
pub open spec fn set_in_index_word_spec(e: EngineView) -> Outcome {
    let n = e.main_stack.len() as int;
    if n < 3 {
        underflows(e)
    } else {
        let rest = with_stack(e, e.main_stack.take(n - 3));
        match (e.main_stack[n - 3], e.main_stack[n - 2]) {
            (Value::Int(handle), Value::Int(place)) => if !is_handle(e, handle) {
                fails(rest, VARIABLE_NOT_DEFINED@)
            } else if 0 <= place < e.variable_stack[handle as int].values.len() {
                done(
                    with_values(
                        rest,
                        handle as int,
                        e.variable_stack[handle as int].values.update(
                            place as int,
                            e.main_stack[n - 1],
                        ),
                    ),
                )
            } else {
                fails(rest, VARIABLE_INDEX_OUT_OR_RANGE_ERROR@)
            },
            _ => fails(rest, INVALID_TYPE_ERROR@),
        }
    }
}

/// Puts a value in the place of one item of a variable.
pub fn set_in_index_word(s: &mut Engine) -> (r: Result<String, String>)
    ensures
        (final(s)@, text_result(r)) == set_in_index_word_spec(old(s)@),
{
    let val = pop_value(&mut s.main_stack);
    let index = pop_value(&mut s.main_stack);
    let var_index = pop_value(&mut s.main_stack);
    match (var_index, index, val) {
        (Some(var_index), Some(index), Some(val)) => {
            assert(s@.main_stack =~= old(s)@.main_stack.take(old(s)@.main_stack.len() - 3));
            match (var_index, index) {
                (Types::Int(handle), Types::Int(place)) => {
                    match handle_of(s, handle) {
                        None => failure(VARIABLE_NOT_DEFINED),
                        Some(i) => {
                            if place >= 0 && (place as usize) < s.variable_stack[i].values.len() {
                                let ghost before = variables_of(s.variable_stack@);
                                s.variable_stack[i].values[place as usize] = val;
                                assert(variables_of(s.variable_stack@) =~= before.update(
                                    i as int,
                                    VariableView {
                                        values: before[i as int].values.update(place as int, val@),
                                        ..before[i as int]
                                    },
                                )) by {
                                    assert(values_of(s.variable_stack@[i as int].values@)
                                        =~= before[i as int].values.update(place as int, val@));
                                }
                                nothing()
                            } else {
                                failure(VARIABLE_INDEX_OUT_OR_RANGE_ERROR)
                            }
                        },
                    }
                },
                _ => failure(INVALID_TYPE_ERROR),
            }
        },
        _ => {
            assert(s@.main_stack =~= Seq::empty());
            failure(STACK_UNDERFLOW_ERROR)
        },
    }
}

/// The words on variables keep what [`handler_keeps`] says: they leave the budget
/// alone, and of the contexts they move at most the cursor of the active one.
pub proof fn lemma_handlers_keep(e: EngineView)
    ensures
        handler_keeps(e, let_word_spec(e)),
        handler_keeps(e, get_var_addr_word_spec(e)),
        handler_keeps(e, push_word_spec(e)),
        handler_keeps(e, pop_word_spec(e)),
        handler_keeps(e, len_word_spec(e)),
        handler_keeps(e, get_from_index_word_spec(e)),
        handler_keeps(e, set_in_index_word_spec(e)),
{
    assert(let_word_spec(e).0.contexts.take(crate::engine::beneath(e)) =~= e.contexts.take(
        crate::engine::beneath(e),
    ));
    assert(get_var_addr_word_spec(e).0.contexts.take(crate::engine::beneath(e)) =~= e.contexts.take(
        crate::engine::beneath(e),
    ));
    assert(push_word_spec(e).0.contexts.take(crate::engine::beneath(e)) =~= e.contexts.take(
        crate::engine::beneath(e),
    ));
    assert(pop_word_spec(e).0.contexts.take(crate::engine::beneath(e)) =~= e.contexts.take(
        crate::engine::beneath(e),
    ));
    assert(len_word_spec(e).0.contexts.take(crate::engine::beneath(e)) =~= e.contexts.take(
        crate::engine::beneath(e),
    ));
    assert(get_from_index_word_spec(e).0.contexts.take(crate::engine::beneath(e)) =~= e.contexts.take(
        crate::engine::beneath(e),
    ));
    assert(set_in_index_word_spec(e).0.contexts.take(crate::engine::beneath(e)) =~= e.contexts.take(
        crate::engine::beneath(e),
    ));
}

} // verus!
