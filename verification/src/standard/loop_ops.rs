//! The loops: `for` ... `next`, `for` ... `bynext`, and `while` ... `do` ...
//! `again`.
//!
//! A loop has no body of its own. The word that closes it moves the cursor of
//! the active context back to the word that opened it, which it finds by
//! counting: each closing word of the same kind of loop on the way asks for
//! one more opening word.

use vstd::prelude::*;
use vstd::string::*;
use crate::engine::{
    cursor_at, done, fails, failure, handler_keeps, nothing, pushed, text_result, with_stack,
    Engine, EngineView, Outcome,
};
use crate::errors::{INT_STACK_UNDERFLOW_ERROR, INVALID_TYPE_ERROR, LOOP_CONTROL_UNDERFLOW_ERROR};
use crate::text::{is_literal, texts_of};
use crate::types::{pop_value, push_value, Types, Value};

verus! {

/// Whether `word` opens a loop: `for` a counted one, `while` the other kind.
pub open spec fn opens(counted: bool, word: Seq<char>) -> bool {
    if counted {
        word == "for"@
    } else {
        word == "while"@
    }
}

/// Whether `word` closes a loop: `next` and `bynext` a counted one, `again`
/// the other kind.
pub open spec fn closes(counted: bool, word: Seq<char>) -> bool {
    if counted {
        word == "next"@ || word == "bynext"@
    } else {
        word == "again"@
    }
}

/// Going back from the word before `at`, the place of the opening word at
/// which `depth` open loops of the kind are balanced.
pub open spec fn opener_before(tokens: Seq<Seq<char>>, at: int, depth: int, counted: bool)
    -> Option<int>
    decreases at,
{
    if at <= 0 || at > tokens.len() {
        None
    } else {
        let word = tokens[at - 1];
        let left = if closes(counted, word) {
            depth + 1
        } else if opens(counted, word) {
            depth - 1
        } else {
            depth
        };
        if left == 0 {
            Some(at - 1)
        } else {
            opener_before(tokens, at - 1, left, counted)
        }
    }
}

/// Going on from the word at `at`, the place of the closing word at which
/// `depth` open loops of the kind are balanced.
pub open spec fn closer_from(tokens: Seq<Seq<char>>, at: int, depth: int, counted: bool) -> Option<
    int,
>
    decreases tokens.len() - at,
{
    if at < 0 || at >= tokens.len() {
        None
    } else {
        let word = tokens[at];
        let left = if opens(counted, word) {
            depth + 1
        } else if closes(counted, word) {
            depth - 1
        } else {
            depth
        };
        if left == 0 {
            Some(at)
        } else {
            closer_from(tokens, at + 1, left, counted)
        }
    }
}

/// What `opener_before` finds is a word that opens a loop of the kind, and
/// stands before `at`.
pub proof fn lemma_opener_opens(tokens: Seq<Seq<char>>, at: int, depth: int, counted: bool)
    requires
        depth >= 1,
        opener_before(tokens, at, depth, counted) is Some,
    ensures
        0 <= opener_before(tokens, at, depth, counted)->0 < at,
        opens(counted, tokens[opener_before(tokens, at, depth, counted)->0]),
    decreases at,
{
    let word = tokens[at - 1];
    if closes(counted, word) {
        lemma_opener_opens(tokens, at - 1, depth + 1, counted);
    } else if opens(counted, word) {
        if depth - 1 != 0 {
            lemma_opener_opens(tokens, at - 1, depth - 1, counted);
        }
    } else {
        lemma_opener_opens(tokens, at - 1, depth, counted);
    }
}

/// What `closer_from` finds is a word that closes a loop of the kind, and
/// stands at `at` or after it.
pub proof fn lemma_closer_closes(tokens: Seq<Seq<char>>, at: int, depth: int, counted: bool)
    requires
        depth >= 1,
        closer_from(tokens, at, depth, counted) is Some,
    ensures
        at <= closer_from(tokens, at, depth, counted)->0 < tokens.len(),
        closes(counted, tokens[closer_from(tokens, at, depth, counted)->0]),
    decreases tokens.len() - at,
{
    let word = tokens[at];
    if opens(counted, word) {
        lemma_closer_closes(tokens, at + 1, depth + 1, counted);
    } else if closes(counted, word) {
        if depth - 1 != 0 {
            lemma_closer_closes(tokens, at + 1, depth - 1, counted);
        }
    } else {
        lemma_closer_closes(tokens, at + 1, depth, counted);
    }
}

fn is_opener(counted: bool, word: &Vec<char>) -> (b: bool)
    ensures
        b == opens(counted, word@),
{
    if counted {
        is_literal(word, "for")
    } else {
        is_literal(word, "while")
    }
}

fn is_closer(counted: bool, word: &Vec<char>) -> (b: bool)
    ensures
        b == closes(counted, word@),
{
    if counted {
        is_literal(word, "next") || is_literal(word, "bynext")
    } else {
        is_literal(word, "again")
    }
}

/// Looks back from the word before `at` for the word that opened the loop.
pub fn find_opener(tokens: &Vec<Vec<char>>, at: usize, counted: bool) -> (r: Option<usize>)
    ensures
        match r {
            Some(k) => opener_before(texts_of(tokens@), at as int, 1, counted) == Some(k as int)
                && k < at <= tokens.len(),
            None => opener_before(texts_of(tokens@), at as int, 1, counted) is None,
        },
{
    if at > tokens.len() {
        return None;
    }
    let mut i: usize = at;
    let mut depth: u128 = 1;
    while i > 0
        invariant
            i <= at <= tokens.len(),
            1 <= depth <= 1 + (at - i),
            opener_before(texts_of(tokens@), at as int, 1, counted) == opener_before(
                texts_of(tokens@),
                i as int,
                depth as int,
                counted,
            ),
        decreases i,
    {
        let word = &tokens[i - 1];
        if is_closer(counted, word) {
            depth += 1;
        } else if is_opener(counted, word) {
            depth -= 1;
        }
        if depth == 0 {
            return Some(i - 1);
        }
        i -= 1;
    }
    None
}

/// Looks on from the word at `at` for the word that closes the loop.
pub fn find_closer(tokens: &Vec<Vec<char>>, at: usize, counted: bool) -> (r: Option<usize>)
    ensures
        match r {
            Some(k) => closer_from(texts_of(tokens@), at as int, 1, counted) == Some(k as int)
                && at <= k < tokens.len(),
            None => closer_from(texts_of(tokens@), at as int, 1, counted) is None,
        },
{
    let mut i: usize = at;
    let mut depth: u128 = 1;
    while i < tokens.len()
        invariant
            at <= i,
            1 <= depth <= 1 + (i - at),
            closer_from(texts_of(tokens@), at as int, 1, counted) == closer_from(
                texts_of(tokens@),
                i as int,
                depth as int,
                counted,
            ),
        decreases tokens.len() - i,
    {
        let word = &tokens[i];
        if is_opener(counted, word) {
            depth += 1;
        } else if is_closer(counted, word) {
            depth -= 1;
        }
        if depth == 0 {
            return Some(i);
        }
        i += 1;
    }
    None
}

/// The place of the current word among the words of the active context.
pub open spec fn current_place(e: EngineView) -> int {
    if e.contexts.len() > 0 {
        e.contexts.last().next - 1
    } else {
        -1
    }
}

/// The words of the active context.
pub open spec fn current_tokens(e: EngineView) -> Seq<Seq<char>> {
    if e.contexts.len() > 0 {
        e.contexts.last().tokens
    } else {
        Seq::empty()
    }
}

/// The cursor goes back to the word that opened the loop which the current
/// word closes, so that the word after it is the next to run. Where there is
/// no such word, the loop was never opened in this line.
pub open spec fn rewound(e: EngineView, counted: bool) -> Option<EngineView> {
    match opener_before(current_tokens(e), current_place(e), 1, counted) {
        Some(k) => Some(EngineView { contexts: cursor_at(e.contexts, (k + 1) as nat), ..e }),
        None => None,
    }
}

fn rewind(s: &mut Engine, counted: bool) -> (found: bool)
    ensures
        match rewound(old(s)@, counted) {
            Some(e) => found && final(s)@ == e,
            None => !found && final(s)@ == old(s)@,
        },
{
    let n = s.contexts.len();
    if n == 0 {
        return false;
    }
    let next = s.contexts[n - 1].next;
    if next == 0 {
        return false;
    }
    match find_opener(&s.contexts[n - 1].tokens, next - 1, counted) {
        Some(k) => {
            s.set_cursor(k + 1);
            true
        },
        None => false,
    }
}

/// `while` marks the place to which `again` returns.
pub fn while_word(s: &mut Engine) -> (r: Result<String, String>)
    ensures
        (final(s)@, text_result(r)) == done(old(s)@),
{
    nothing()
}

/// `do` takes an int. Where it is 0 the loop is over: the cursor goes on to
/// the `again` that closes the loop, and the word after that is the next to
/// run.
pub open spec fn do_word_spec(e: EngineView) -> Outcome {
    if e.main_stack.len() < 1 {
        fails(e, INT_STACK_UNDERFLOW_ERROR@)
    } else {
        let rest = with_stack(e, e.main_stack.drop_last());
        match e.main_stack.last() {
            Value::Int(flag) => if flag != 0 {
                done(rest)
            } else {
                match closer_from(current_tokens(e), current_place(e) + 1, 1, false) {
                    Some(k) => done(
                        EngineView { contexts: cursor_at(rest.contexts, (k + 1) as nat), ..rest },
                    ),
                    None => fails(rest, LOOP_CONTROL_UNDERFLOW_ERROR@),
                }
            },
            _ => fails(rest, INVALID_TYPE_ERROR@),
        }
    }
}

/// Tests the flag of a `while` loop and leaves the loop where it is 0.
pub fn do_word(s: &mut Engine) -> (r: Result<String, String>)
    ensures
        (final(s)@, text_result(r)) == do_word_spec(old(s)@),
{
    match pop_value(&mut s.main_stack) {
        None => failure(INT_STACK_UNDERFLOW_ERROR),
        Some(Types::Int(flag)) => {
            if flag != 0 {
                return nothing();
            }
            let n = s.contexts.len();
            if n == 0 {
                return failure(LOOP_CONTROL_UNDERFLOW_ERROR);
            }
            let next = s.contexts[n - 1].next;
            match find_closer(&s.contexts[n - 1].tokens, next, false) {
                Some(k) => {
                    s.set_cursor(k + 1);
                    nothing()
                },
                None => failure(LOOP_CONTROL_UNDERFLOW_ERROR),
            }
        },
        Some(_) => failure(INVALID_TYPE_ERROR),
    }
}

/// `again` goes back to the `while` of its loop.
pub open spec fn again_word_spec(e: EngineView) -> Outcome {
    match rewound(e, false) {
        Some(back) => done(back),
        None => fails(e, LOOP_CONTROL_UNDERFLOW_ERROR@),
    }
}

/// Goes back to the `while` of the loop.
pub fn again_word(s: &mut Engine) -> (r: Result<String, String>)
    ensures
        (final(s)@, text_result(r)) == again_word_spec(old(s)@),
{
    if rewind(s, false) {
        nothing()
    } else {
        failure(LOOP_CONTROL_UNDERFLOW_ERROR)
    }
}

/// `for` takes an index and, beneath it, a limit, both ints, and opens a
/// counted loop with them.
pub open spec fn for_word_spec(e: EngineView) -> Outcome {
    let n = e.main_stack.len() as int;
    if n < 2 {
        fails(with_stack(e, Seq::empty()), INT_STACK_UNDERFLOW_ERROR@)
    } else {
        let rest = with_stack(e, e.main_stack.take(n - 2));
        match (e.main_stack[n - 2], e.main_stack[n - 1]) {
            (Value::Int(limit), Value::Int(index)) => done(
                EngineView { loop_stack: e.loop_stack.push((limit, index)), ..rest },
            ),
            _ => fails(rest, INVALID_TYPE_ERROR@),
        }
    }
}

/// Opens a counted loop.
pub fn for_word(s: &mut Engine) -> (r: Result<String, String>)
    ensures
        (final(s)@, text_result(r)) == for_word_spec(old(s)@),
{
    let index = pop_value(&mut s.main_stack);
    let limit = pop_value(&mut s.main_stack);
    match (limit, index) {
        (Some(limit), Some(index)) => {
            assert(s@.main_stack =~= old(s)@.main_stack.take(old(s)@.main_stack.len() - 2));
            match (limit, index) {
                (Types::Int(limit), Types::Int(index)) => {
                    s.loop_stack.push((limit, index));
                    nothing()
                },
                _ => failure(INVALID_TYPE_ERROR),
            }
        },
        _ => {
            assert(s@.main_stack =~= Seq::empty());
            failure(INT_STACK_UNDERFLOW_ERROR)
        },
    }
}

/// The end of one round of a counted loop, whose entry is already taken from
/// the loop stack. Where the new index is below the limit, the entry goes
/// back with the new index and the cursor returns to the `for`; else the
/// loop is over. An index below the least int cannot be kept.
pub open spec fn round_ends(rest: EngineView, limit: i32, index: int) -> Outcome {
    if index >= limit {
        done(rest)
    } else if index < i32::MIN {
        fails(rest, INVALID_TYPE_ERROR@)
    } else {
        match rewound(rest, true) {
            Some(back) => done(
                EngineView { loop_stack: rest.loop_stack.push((limit, index as i32)), ..back },
            ),
            None => fails(rest, LOOP_CONTROL_UNDERFLOW_ERROR@),
        }
    }
}

fn end_round(s: &mut Engine, limit: i32, index: i64) -> (r: Result<String, String>)
    ensures
        (final(s)@, text_result(r)) == round_ends(old(s)@, limit, index as int),
{
    if index >= limit as i64 {
        nothing()
    } else if index < -0x8000_0000 {
        failure(INVALID_TYPE_ERROR)
    } else if rewind(s, true) {
        s.loop_stack.push((limit, index as i32));
        nothing()
    } else {
        failure(LOOP_CONTROL_UNDERFLOW_ERROR)
    }
}

/// `next` adds one to the index of the innermost counted loop and ends the
/// round. It fails where no counted loop is open.
pub open spec fn next_word_spec(e: EngineView) -> Outcome {
    if e.loop_stack.len() < 1 {
        fails(e, LOOP_CONTROL_UNDERFLOW_ERROR@)
    } else {
        round_ends(
            EngineView { loop_stack: e.loop_stack.drop_last(), ..e },
            e.loop_stack.last().0,
            e.loop_stack.last().1 + 1,
        )
    }
}

/// Ends a round of a counted loop, one step on.
pub fn next_word(s: &mut Engine) -> (r: Result<String, String>)
    ensures
        (final(s)@, text_result(r)) == next_word_spec(old(s)@),
        old(s)@.loop_stack.len() == 0 ==> text_result(r) == Err::<Seq<char>, Seq<char>>(
            LOOP_CONTROL_UNDERFLOW_ERROR@,
        ) && final(s)@ == old(s)@,
{
    match s.loop_stack.pop() {
        None => failure(LOOP_CONTROL_UNDERFLOW_ERROR),
        Some((limit, index)) => {
            assert(s@.loop_stack =~= old(s)@.loop_stack.drop_last());
            end_round(s, limit, index as i64 + 1)
        },
    }
}

/// `bynext` takes an int, adds it to the index of the innermost counted loop
/// and ends the round. It fails where no counted loop is open.
pub open spec fn bynext_word_spec(e: EngineView) -> Outcome {
    if e.loop_stack.len() < 1 {
        fails(e, LOOP_CONTROL_UNDERFLOW_ERROR@)
    } else {
        let taken = EngineView { loop_stack: e.loop_stack.drop_last(), ..e };
        if e.main_stack.len() < 1 {
            fails(taken, INT_STACK_UNDERFLOW_ERROR@)
        } else {
            let rest = with_stack(taken, e.main_stack.drop_last());
            match e.main_stack.last() {
                Value::Int(step) => round_ends(
                    rest,
                    e.loop_stack.last().0,
                    e.loop_stack.last().1 + step,
                ),
                _ => fails(rest, INVALID_TYPE_ERROR@),
            }
        }
    }
}

/// Ends a round of a counted loop, as many steps on as the top value says.
pub fn bynext_word(s: &mut Engine) -> (r: Result<String, String>)
    ensures
        (final(s)@, text_result(r)) == bynext_word_spec(old(s)@),
        old(s)@.loop_stack.len() == 0 ==> text_result(r) == Err::<Seq<char>, Seq<char>>(
            LOOP_CONTROL_UNDERFLOW_ERROR@,
        ) && final(s)@ == old(s)@,
{
    match s.loop_stack.pop() {
        None => failure(LOOP_CONTROL_UNDERFLOW_ERROR),
        Some((limit, index)) => {
            assert(s@.loop_stack =~= old(s)@.loop_stack.drop_last());
            match pop_value(&mut s.main_stack) {
                None => failure(INT_STACK_UNDERFLOW_ERROR),
                Some(Types::Int(step)) => end_round(s, limit, index as i64 + step as i64),
                Some(_) => failure(INVALID_TYPE_ERROR),
            }
        },
    }
}

/// `i` puts the index of the innermost counted loop on the stack.
pub open spec fn i_word_spec(e: EngineView) -> Outcome {
    if e.loop_stack.len() < 1 {
        fails(e, LOOP_CONTROL_UNDERFLOW_ERROR@)
    } else {
        done(pushed(e, Value::Int(e.loop_stack.last().1)))
    }
}

/// Puts the index of the innermost counted loop on the stack.
pub fn i_word(s: &mut Engine) -> (r: Result<String, String>)
    ensures
        (final(s)@, text_result(r)) == i_word_spec(old(s)@),
{
    let n = s.loop_stack.len();
    if n == 0 {
        failure(LOOP_CONTROL_UNDERFLOW_ERROR)
    } else {
        let index = s.loop_stack[n - 1].1;
        push_value(&mut s.main_stack, Types::Int(index));
        nothing()
    }
}

/// The words of a loop keep what [`handler_keeps`] says: they leave the budget
/// alone, and of the contexts they move at most the cursor of the active one.
pub proof fn lemma_handlers_keep(e: EngineView)
    ensures
        handler_keeps(e, for_word_spec(e)),
        handler_keeps(e, next_word_spec(e)),
        handler_keeps(e, bynext_word_spec(e)),
        handler_keeps(e, do_word_spec(e)),
        handler_keeps(e, again_word_spec(e)),
        handler_keeps(e, i_word_spec(e)),
{
    assert(for_word_spec(e).0.contexts.take(crate::engine::beneath(e)) =~= e.contexts.take(
        crate::engine::beneath(e),
    ));
    assert(next_word_spec(e).0.contexts.take(crate::engine::beneath(e)) =~= e.contexts.take(
        crate::engine::beneath(e),
    ));
    assert(bynext_word_spec(e).0.contexts.take(crate::engine::beneath(e)) =~= e.contexts.take(
        crate::engine::beneath(e),
    ));
    assert(do_word_spec(e).0.contexts.take(crate::engine::beneath(e)) =~= e.contexts.take(
        crate::engine::beneath(e),
    ));
    assert(again_word_spec(e).0.contexts.take(crate::engine::beneath(e)) =~= e.contexts.take(
        crate::engine::beneath(e),
    ));
    assert(i_word_spec(e).0.contexts.take(crate::engine::beneath(e)) =~= e.contexts.take(
        crate::engine::beneath(e),
    ));
}

} // verus!
