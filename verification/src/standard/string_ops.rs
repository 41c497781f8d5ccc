//! The words on texts.

use vstd::prelude::*;
use vstd::string::*;
use crate::engine::{
    current_word, done, fails, failure, handler_keeps, nothing, pushed, text_result, underflows,
    with_stack, Engine, EngineMode, EngineView, Outcome,
};
use crate::errors::{INVALID_TYPE_ERROR, STACK_UNDERFLOW_ERROR};
use crate::text::{
    append_chars, chars_of, copy_text, slice_of, split_whitespace, string_of, texts_of, trim_end,
    trim_start, trimmed_end, trimmed_start, words_of,
};
use crate::types::{pop_value, push_value, Types, Value};

verus! {

/// The quote ends a text where one is being read, and begins one elsewhere.
/// The text that ends goes on the stack without the white space at its end.
pub open spec fn string_mode_toggle_spec(e: EngineView) -> Outcome {
    if e.mode == EngineMode::STRING {
        done(
            EngineView {
                mode: EngineMode::NORMAL,
                string_buffer: Seq::empty(),
                ..pushed(e, Value::Str(trim_end(e.string_buffer)))
            },
        )
    } else {
        done(EngineView { mode: EngineMode::STRING, ..e })
    }
}

/// Begins a text, or ends one and puts it on the stack.
pub fn string_mode_toggle(s: &mut Engine) -> (r: Result<String, String>)
    ensures
        (final(s)@, text_result(r)) == string_mode_toggle_spec(old(s)@),
{
    if s.mode_string() {
        s.mode = EngineMode::NORMAL;
        let text = string_of(&trimmed_end(&s.string_buffer));
        push_value(&mut s.main_stack, Types::Str(text));
        s.string_buffer.clear();
    } else {
        s.mode = EngineMode::STRING;
    }
    nothing()
}

/// A word between two quotes is appended to the text, and a blank after it.
pub open spec fn string_creation_spec(e: EngineView) -> Outcome {
    done(EngineView { string_buffer: e.string_buffer + current_word(e) + seq![' '], ..e })
}

/// Appends the current word to the text that is being read.
pub fn string_creation(s: &mut Engine) -> (r: Result<String, String>)
    ensures
        (final(s)@, text_result(r)) == string_creation_spec(old(s)@),
{
    let word: Vec<char> = match s.current_token() {
        Some(t) => copy_text(t),
        None => Vec::new(),
    };
    append_chars(&mut s.string_buffer, &word);
    s.string_buffer.push(' ');
    assert(s@.string_buffer =~= old(s)@.string_buffer + current_word(old(s)@) + seq![' ']);
    nothing()
}

/// `concat` takes two texts and joins them with nothing between them: the
/// lower one without the white space at its end, then the upper one without
/// the white space at its front.
pub open spec fn string_concat_spec(e: EngineView) -> Outcome {
    let n = e.main_stack.len() as int;
    if n < 2 {
        underflows(e)
    } else {
        let rest = with_stack(e, e.main_stack.take(n - 2));
        match (e.main_stack[n - 2], e.main_stack[n - 1]) {
            (Value::Str(lower), Value::Str(upper)) => done(
                pushed(rest, Value::Str(trim_end(lower) + trim_start(upper))),
            ),
            _ => fails(rest, INVALID_TYPE_ERROR@),
        }
    }
}

/// Joins two texts with nothing between them.
pub fn string_concat(s: &mut Engine) -> (r: Result<String, String>)
    ensures
        (final(s)@, text_result(r)) == string_concat_spec(old(s)@),
{
    let a = pop_value(&mut s.main_stack);
    let b = pop_value(&mut s.main_stack);
    match (b, a) {
        (Some(lower), Some(upper)) => {
            assert(s@.main_stack =~= old(s)@.main_stack.take(old(s)@.main_stack.len() - 2));
            match (lower, upper) {
                (Types::Str(lower), Types::Str(upper)) => {
                    let mut text = trimmed_end(&chars_of(lower.as_str()));
                    let tail = trimmed_start(&chars_of(upper.as_str()));
                    append_chars(&mut text, &tail);
                    push_value(&mut s.main_stack, Types::Str(string_of(&text)));
                    nothing()
                },
                _ => failure(INVALID_TYPE_ERROR),
            }
        },
        _ => {
            assert(s@.main_stack =~= Seq::empty());
            failure(STACK_UNDERFLOW_ERROR)
        },
    }
}

/// Texts as values.
pub open spec fn as_values(texts: Seq<Seq<char>>) -> Seq<Value> {
    Seq::new(texts.len(), |i: int| Value::Str(texts[i]))
}

/// The first place from `from` on at which `mark` stands in `s`.
pub open spec fn first_match(s: Seq<char>, mark: Seq<char>, from: int) -> Option<int>
    decreases s.len() + 1 - from,
{
    if from < 0 || from + mark.len() > s.len() {
        None
    } else if s.subrange(from, from + mark.len()) == mark {
        Some(from)
    } else {
        first_match(s, mark, from + 1)
    }
}

/// The parts of `s` from `start` on that lie between the places where a mark
/// stands that is not empty: one part more than there are marks.
pub open spec fn parts_from(s: Seq<char>, mark: Seq<char>, start: int) -> Seq<Seq<char>>
    decreases s.len() - start,
{
    match first_match(s, mark, start) {
        Some(i) => if 0 <= start <= i && mark.len() > 0 && i + mark.len() <= s.len() {
            seq![s.subrange(start, i)] + parts_from(s, mark, i + mark.len())
        } else {
            Seq::empty()
        },
        None => if 0 <= start <= s.len() {
            seq![s.subrange(start, s.len() as int)]
        } else {
            Seq::empty()
        },
    }
}

/// The parts into which `mark` splits `s`. The empty mark stands before and
/// after every character: it splits a text into its characters, with an
/// empty part before the first and another after the last.
pub open spec fn parts(s: Seq<char>, mark: Seq<char>) -> Seq<Seq<char>> {
    if mark.len() == 0 {
        seq![Seq::empty()] + Seq::new(s.len(), |i: int| seq![s[i]]) + seq![Seq::empty()]
    } else {
        parts_from(s, mark, 0)
    }
}

fn find_match(s: &Vec<char>, mark: &Vec<char>, from: usize) -> (r: Option<usize>)
    requires
        from <= s.len(),
    ensures
        match r {
            Some(i) => first_match(s@, mark@, from as int) == Some(i as int) && from <= i && i
                + mark.len() <= s.len(),
            None => first_match(s@, mark@, from as int) is None,
        },
{
    if mark.len() > s.len() {
        return None;
    }
    let last = s.len() - mark.len();
    let mut i: usize = from;
    while i <= last
        invariant
            from <= i,
            last == s.len() - mark.len(),
            first_match(s@, mark@, from as int) == first_match(s@, mark@, i as int),
        decreases last + 1 - i,
    {
        let mut j: usize = 0;
        while j < mark.len() && s[i + j] == mark[j]
            invariant
                j <= mark.len(),
                i + mark.len() <= s.len(),
                s@.subrange(i as int, i + j) == mark@.take(j as int),
            decreases mark.len() - j,
        {
            assert(s@.subrange(i as int, i + j + 1) =~= s@.subrange(i as int, i + j).push(
                s@[i + j],
            ));
            assert(mark@.take(j + 1) =~= mark@.take(j as int).push(mark@[j as int]));
            j += 1;
        }
        if j == mark.len() {
            assert(mark@.take(j as int) =~= mark@);
            return Some(i);
        }
        assert(s@.subrange(i as int, i + mark.len()) != mark@) by {
            if s@.subrange(i as int, i + mark.len()) == mark@ {
                assert(s@.subrange(i as int, i + mark.len())[j as int] == mark@[j as int]);
            }
        }
        i += 1;
    }
    None
}

/// Puts each of the texts on the stack, the first one deepest.
fn push_texts(s: &mut Engine, texts: &Vec<Vec<char>>)
    ensures
        final(s)@ == with_stack(old(s)@, old(s)@.main_stack + as_values(texts_of(texts@))),
{
    let mut i: usize = 0;
    assert(s@.main_stack =~= old(s)@.main_stack + as_values(texts_of(texts@)).take(0));
    while i < texts.len()
        invariant
            i <= texts.len(),
            s@ == with_stack(
                old(s)@,
                old(s)@.main_stack + as_values(texts_of(texts@)).take(i as int),
            ),
        decreases texts.len() - i,
    {
        push_value(&mut s.main_stack, Types::Str(string_of(&texts[i])));
        assert(s@.main_stack =~= old(s)@.main_stack + as_values(texts_of(texts@)).take(i + 1));
        i += 1;
    }
    assert(as_values(texts_of(texts@)).take(texts.len() as int) =~= as_values(texts_of(texts@)));
}

fn split_text(s: &Vec<char>, mark: &Vec<char>) -> (r: Vec<Vec<char>>)
    ensures
        texts_of(r@) == parts(s@, mark@),
{
    let mut out: Vec<Vec<char>> = Vec::new();
    if mark.len() == 0 {
        out.push(Vec::new());
        assert(texts_of(out@) =~= seq![Seq::<char>::empty()]);
        let mut i: usize = 0;
        while i < s.len()
            invariant
                i <= s.len(),
                texts_of(out@) =~= seq![Seq::<char>::empty()] + Seq::new(
                    i as nat,
                    |k: int| seq![s@[k]],
                ),
            decreases s.len() - i,
        {
            let mut one: Vec<char> = Vec::new();
            one.push(s[i]);
            assert(one@ =~= seq![s@[i as int]]);
            let ghost before = texts_of(out@);
            out.push(one);
            assert(texts_of(out@) =~= before.push(one@));
            i += 1;
        }
        let ghost before = texts_of(out@);
        out.push(Vec::new());
        assert(texts_of(out@) =~= before.push(Seq::empty()));
        assert(texts_of(out@) =~= parts(s@, mark@));
        return out;
    }
    let mut start: usize = 0;
    assert(texts_of(out@) + parts_from(s@, mark@, 0) =~= parts_from(s@, mark@, 0));
    loop
        invariant
            start <= s.len(),
            mark.len() > 0,
            parts(s@, mark@) == texts_of(out@) + parts_from(s@, mark@, start as int),
        decreases s.len() - start,
    {
        let ghost before = texts_of(out@);
        match find_match(s, mark, start) {
            Some(i) => {
                let part = slice_of(s, start, i);
                out.push(part);
                assert(texts_of(out@) =~= before.push(part@));
                assert(before.push(part@) + parts_from(s@, mark@, i + mark.len()) =~= before + (
                seq![part@] + parts_from(s@, mark@, i + mark.len())));
                start = i + mark.len();
            },
            None => {
                let part = slice_of(s, start, s.len());
                out.push(part);
                assert(texts_of(out@) =~= before + seq![part@]);
                return out;
            },
        }
    }
}

/// `split` takes a mark and, beneath it, a text, and puts the parts into
/// which the mark splits the text on the stack, the first one deepest.
pub open spec fn string_split_spec(e: EngineView) -> Outcome {
    let n = e.main_stack.len() as int;
    if n < 2 {
        underflows(e)
    } else {
        let rest = with_stack(e, e.main_stack.take(n - 2));
        match (e.main_stack[n - 2], e.main_stack[n - 1]) {
            (Value::Str(text), Value::Str(mark)) => done(
                with_stack(rest, rest.main_stack + as_values(parts(text, mark))),
            ),
            _ => fails(rest, INVALID_TYPE_ERROR@),
        }
    }
}

/// Splits a text at a mark.
pub fn string_split(s: &mut Engine) -> (r: Result<String, String>)
    ensures
        (final(s)@, text_result(r)) == string_split_spec(old(s)@),
{
    let delimiter = pop_value(&mut s.main_stack);
    let a = pop_value(&mut s.main_stack);
    match (a, delimiter) {
        (Some(text), Some(mark)) => {
            assert(s@.main_stack =~= old(s)@.main_stack.take(old(s)@.main_stack.len() - 2));
            match (text, mark) {
                (Types::Str(text), Types::Str(mark)) => {
                    let pieces = split_text(&chars_of(text.as_str()), &chars_of(mark.as_str()));
                    push_texts(s, &pieces);
                    nothing()
                },
                _ => failure(INVALID_TYPE_ERROR),
            }
        },
        _ => {
            assert(s@.main_stack =~= Seq::empty());
            failure(STACK_UNDERFLOW_ERROR)
        },
    }
}

/// `wsplit` takes a text and puts its words on the stack, the first one
/// deepest.
pub open spec fn string_split_whitespace_spec(e: EngineView) -> Outcome {
    if e.main_stack.len() < 1 {
        underflows(e)
    } else {
        let rest = with_stack(e, e.main_stack.drop_last());
        match e.main_stack.last() {
            Value::Str(text) => done(
                with_stack(rest, rest.main_stack + as_values(words_of(text))),
            ),
            _ => fails(rest, INVALID_TYPE_ERROR@),
        }
    }
}

/// Splits a text into its words.
pub fn string_split_whitespace(s: &mut Engine) -> (r: Result<String, String>)
    ensures
        (final(s)@, text_result(r)) == string_split_whitespace_spec(old(s)@),
{
    match pop_value(&mut s.main_stack) {
        None => {
            assert(s@.main_stack =~= Seq::empty());
            failure(STACK_UNDERFLOW_ERROR)
        },
        Some(Types::Str(text)) => {
            let words = split_whitespace(&chars_of(text.as_str()));
            push_texts(s, &words);
            nothing()
        },
        Some(_) => failure(INVALID_TYPE_ERROR),
    }
}

/// The words on texts keep what [`handler_keeps`] says: they leave the budget
/// alone, and of the contexts they move at most the cursor of the active one.
pub proof fn lemma_handlers_keep(e: EngineView)
    ensures
        handler_keeps(e, string_mode_toggle_spec(e)),
        handler_keeps(e, string_creation_spec(e)),
        handler_keeps(e, string_concat_spec(e)),
        handler_keeps(e, string_split_spec(e)),
        handler_keeps(e, string_split_whitespace_spec(e)),
{
    assert(string_mode_toggle_spec(e).0.contexts.take(crate::engine::beneath(e)) =~= e.contexts.take(
        crate::engine::beneath(e),
    ));
    assert(string_creation_spec(e).0.contexts.take(crate::engine::beneath(e)) =~= e.contexts.take(
        crate::engine::beneath(e),
    ));
    assert(string_concat_spec(e).0.contexts.take(crate::engine::beneath(e)) =~= e.contexts.take(
        crate::engine::beneath(e),
    ));
    assert(string_split_spec(e).0.contexts.take(crate::engine::beneath(e)) =~= e.contexts.take(
        crate::engine::beneath(e),
    ));
    assert(string_split_whitespace_spec(e).0.contexts.take(crate::engine::beneath(e)) =~= e.contexts.take(
        crate::engine::beneath(e),
    ));
}

} // verus!
