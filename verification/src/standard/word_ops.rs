//! Definitions: compiling a word and running it.
//!
//! A definition is stored as one text: its name, then the words of its body,
//! one blank between them. A word runs the first stored definition whose text
//! begins with the word, whether or not the word is the whole name.

use vstd::prelude::*;
use vstd::string::*;
use crate::engine::{
    current_word, done, evaluate_spec, fails, handler_keeps, nothing, text_result, Engine,
    EngineMode, EngineView, Outcome,
};
use crate::errors::UNKNOWN_WORD_ERROR;
use crate::text::{
    append_chars, chars_of, copy_text, slice_of, split_whitespace, starts_with, string_of,
    texts_of, trim, trimmed, words_of,
};

verus! {

/// The place of the first stored definition from `from` on whose text begins
/// with `word`.
pub open spec fn first_definition(stored: Seq<Seq<char>>, word: Seq<char>, from: int) -> Option<
    int,
>
    decreases stored.len() - from,
{
    if from < 0 || from >= stored.len() {
        None
    } else if word.is_prefix_of(stored[from]) {
        Some(from)
    } else {
        first_definition(stored, word, from + 1)
    }
}

/// The place of the first stored definition whose text begins with `word`.
pub fn find_definition(stored: &Vec<Vec<char>>, word: &Vec<char>) -> (r: Option<usize>)
    ensures
        match r {
            Some(i) => first_definition(texts_of(stored@), word@, 0) == Some(i as int) && i
                < stored.len() && word@.is_prefix_of(stored@[i as int]@),
            None => first_definition(texts_of(stored@), word@, 0) is None,
        },
{
    let mut i: usize = 0;
    while i < stored.len()
        invariant
            i <= stored.len(),
            first_definition(texts_of(stored@), word@, 0) == first_definition(
                texts_of(stored@),
                word@,
                i as int,
            ),
        decreases stored.len() - i,
    {
        if starts_with(&stored[i], word) {
            return Some(i);
        }
        i += 1;
    }
    None
}

/// `:` begins a definition.
pub open spec fn start_compile_spec(e: EngineView) -> Outcome {
    done(EngineView { mode: EngineMode::COMPILE, ..e })
}

/// Begins a definition.
pub fn start_compile(s: &mut Engine) -> (r: Result<String, String>)
    ensures
        (final(s)@, text_result(r)) == start_compile_spec(old(s)@),
{
    s.mode = EngineMode::COMPILE;
    nothing()
}

/// A word of a definition is appended to the pending text, after a blank.
pub open spec fn compile_spec(e: EngineView) -> Outcome {
    done(
        EngineView { new_compiled_word: e.new_compiled_word + seq![' '] + current_word(e), ..e },
    )
}

/// Appends the current word to the definition that is being compiled.
pub fn compile(s: &mut Engine) -> (r: Result<String, String>)
    ensures
        (final(s)@, text_result(r)) == compile_spec(old(s)@),
{
    let word: Vec<char> = match s.current_token() {
        Some(t) => copy_text(t),
        None => Vec::new(),
    };
    s.new_compiled_word.push(' ');
    append_chars(&mut s.new_compiled_word, &word);
    assert(s@.new_compiled_word =~= old(s)@.new_compiled_word + seq![' '] + current_word(old(s)@));
    nothing()
}

/// The stored definitions after `text` is stored under the name `name`: it
/// takes the place of the first definition whose text begins with the name,
/// and goes to the end where there is none.
pub open spec fn stored_with(stored: Seq<Seq<char>>, name: Seq<char>, text: Seq<char>) -> Seq<
    Seq<char>,
> {
    match first_definition(stored, name, 0) {
        Some(i) => stored.update(i, text),
        None => stored.push(text),
    }
}

/// `;` ends a definition: the pending text, without the white space at its
/// ends, is stored under its first word, and the engine is in normal mode
/// again. A definition without a name is not stored.
pub open spec fn end_compile_spec(e: EngineView) -> Outcome {
    let text = trim(e.new_compiled_word);
    let cleared = EngineView { new_compiled_word: Seq::empty(), mode: EngineMode::NORMAL, ..e };
    if words_of(text).len() == 0 {
        done(cleared)
    } else {
        done(
            EngineView {
                compiled_words: stored_with(e.compiled_words, words_of(text)[0], text),
                ..cleared
            },
        )
    }
}

/// Ends a definition and stores it.
pub fn end_compile(s: &mut Engine) -> (r: Result<String, String>)
    ensures
        (final(s)@, text_result(r)) == end_compile_spec(old(s)@),
{
    let text = trimmed(&s.new_compiled_word);
    let words = split_whitespace(&text);
    if words.len() > 0 {
        let ghost before = texts_of(s.compiled_words@);
        assert(words@[0]@ == words_of(text@)[0]);
        match find_definition(&s.compiled_words, &words[0]) {
            Some(i) => {
                s.compiled_words[i] = text;
                assert(texts_of(s.compiled_words@) =~= before.update(i as int, text@));
            },
            None => {
                s.compiled_words.push(text);
                assert(texts_of(s.compiled_words@) =~= before.push(text@));
            },
        }
    }
    s.new_compiled_word.clear();
    s.mode = EngineMode::NORMAL;
    nothing()
}

/// A word that begins a stored definition runs it: what follows the word in
/// the text of the first such definition is evaluated as a line is, by
/// [`evaluate_spec`], as the body of a definition. So the body runs to its
/// end in a context of its own, which is gone when the word is done, and
/// what the body wrote, or the message with which it failed, is the result
/// of the word. Where the engine waits for input, the body is that input.
pub open spec fn run_compiled_spec(e: EngineView) -> Outcome
    decreases e.steps_left, 2int,
{
    let word = current_word(e);
    match first_definition(e.compiled_words, word, 0) {
        Some(i) => evaluate_spec(e, e.compiled_words[i].skip(word.len() as int), true),
        None => fails(e, UNKNOWN_WORD_ERROR@ + word),
    }
}

/// A word that runs a definition keeps what [`handler_keeps`] says: when the
/// word is done, the context of the body is gone, and the contexts that were
/// open are as they were.
pub proof fn lemma_run_compiled_keeps(e: EngineView)
    ensures
        handler_keeps(e, run_compiled_spec(e)),
    decreases e.steps_left, 2int,
{
    let word = current_word(e);
    match first_definition(e.compiled_words, word, 0) {
        Some(i) => {
            let body = e.compiled_words[i].skip(word.len() as int);
            crate::engine::lemma_evaluate_keeps(e, body, true);
            let after = evaluate_spec(e, body, true).0;
            assert(after.contexts.take(crate::engine::beneath(e)) =~= e.contexts.take(
                crate::engine::beneath(e),
            ));
        },
        None => {},
    }
}

/// Runs the stored definition that the current word begins.
pub fn run_compiled(s: &mut Engine) -> (r: Result<String, String>)
    ensures
        (final(s)@, text_result(r)) == run_compiled_spec(old(s)@),
        final(s).steps_left <= old(s).steps_left,
    decreases old(s).steps_left, 2int,
{
    let word: Vec<char> = match s.current_token() {
        Some(t) => copy_text(t),
        None => Vec::new(),
    };
    match find_definition(&s.compiled_words, &word) {
        Some(i) => {
            let stored = &s.compiled_words[i];
            let body = slice_of(stored, word.len(), stored.len());
            assert(body@ =~= stored@.skip(word@.len() as int));
            s.evaluate(body, true)
        },
        None => {
            let mut message = chars_of(UNKNOWN_WORD_ERROR);
            append_chars(&mut message, &word);
            Err(string_of(&message))
        },
    }
}

/// When a name is defined a second time, the new text takes the place of the
/// old one: the store keeps its length, and the name finds the new text.
pub proof fn lemma_redefinition_replaces(stored: Seq<Seq<char>>, name: Seq<char>, text: Seq<char>)
    requires
        first_definition(stored, name, 0) is Some,
        name.is_prefix_of(text),
    ensures
        stored_with(stored, name, text).len() == stored.len(),
        first_definition(stored_with(stored, name, text), name, 0) == first_definition(
            stored,
            name,
            0,
        ),
        stored_with(stored, name, text)[first_definition(stored, name, 0)->0] == text,
        forall|j: int|
            0 <= j < stored.len() && j != first_definition(stored, name, 0)->0 ==> stored_with(
                stored,
                name,
                text,
            )[j] == stored[j],
{
    let i = first_definition(stored, name, 0)->0;
    lemma_first_definition_is_first(stored, name, 0);
    lemma_first_definition_after_update(stored, name, text, 0);
}

/// A definition whose name begins the text of a stored one takes its place,
/// and a word spelled like the name then runs the new body and no other: the
/// store is as long as before, and what the word does is the evaluation of
/// what follows the name in the new text.
pub proof fn lemma_redefined_word_runs_new_body(e: EngineView, later: EngineView)
    requires
        words_of(trim(e.new_compiled_word)).len() > 0,
        first_definition(e.compiled_words, words_of(trim(e.new_compiled_word))[0], 0) is Some,
        later.compiled_words == end_compile_spec(e).0.compiled_words,
        current_word(later) == words_of(trim(e.new_compiled_word))[0],
    ensures
        end_compile_spec(e).0.compiled_words.len() == e.compiled_words.len(),
        run_compiled_spec(later) == evaluate_spec(
            later,
            trim(e.new_compiled_word).skip(current_word(later).len() as int),
            true,
        ),
{
    let text = trim(e.new_compiled_word);
    let name = words_of(text)[0];
    crate::text::lemma_first_word_begins(e.new_compiled_word);
    lemma_redefinition_replaces(e.compiled_words, name, text);
}

/// What `first_definition` finds lies in the store, begins with the word, and
/// nothing before it does.
pub proof fn lemma_first_definition_is_first(stored: Seq<Seq<char>>, word: Seq<char>, from: int)
    requires
        0 <= from,
    ensures
        match first_definition(stored, word, from) {
            Some(i) => from <= i < stored.len() && word.is_prefix_of(stored[i]) && forall|j: int|
                from <= j < i ==> !word.is_prefix_of(#[trigger] stored[j]),
            None => forall|j: int|
                from <= j < stored.len() ==> !word.is_prefix_of(#[trigger] stored[j]),
        },
    decreases stored.len() - from,
{
    if from < stored.len() && !word.is_prefix_of(stored[from]) {
        lemma_first_definition_is_first(stored, word, from + 1);
    }
}

proof fn lemma_first_definition_after_update(
    stored: Seq<Seq<char>>,
    name: Seq<char>,
    text: Seq<char>,
    from: int,
)
    requires
        0 <= from,
        first_definition(stored, name, 0) is Some,
        from <= first_definition(stored, name, 0)->0,
        first_definition(stored, name, from) == first_definition(stored, name, 0),
        name.is_prefix_of(text),
    ensures
        first_definition(stored.update(first_definition(stored, name, 0)->0, text), name, from)
            == first_definition(stored, name, 0),
    decreases stored.len() - from,
{
    let i = first_definition(stored, name, 0)->0;
    lemma_first_definition_is_first(stored, name, 0);
    if from < i {
        lemma_first_definition_after_update(stored, name, text, from + 1);
    }
}

/// The words that compile a definition keep what [`handler_keeps`] says: they leave the budget
/// alone, and of the contexts they move at most the cursor of the active one.
pub proof fn lemma_handlers_keep(e: EngineView)
    ensures
        handler_keeps(e, start_compile_spec(e)),
        handler_keeps(e, compile_spec(e)),
        handler_keeps(e, end_compile_spec(e)),
{
    assert(start_compile_spec(e).0.contexts.take(crate::engine::beneath(e)) =~= e.contexts.take(
        crate::engine::beneath(e),
    ));
    assert(compile_spec(e).0.contexts.take(crate::engine::beneath(e)) =~= e.contexts.take(
        crate::engine::beneath(e),
    ));
    assert(end_compile_spec(e).0.contexts.take(crate::engine::beneath(e)) =~= e.contexts.take(
        crate::engine::beneath(e),
    ));
}

} // verus!
