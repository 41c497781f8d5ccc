//! The engine: the state of one interpreter, and the loop that runs it.

use vstd::prelude::*;
use vstd::string::*;
use crate::errors::{
    INVALID_TYPE_ERROR, STEP_LIMIT_ERROR, TYPE_CONVERSION_FAILURE_ERROR, UNKNOWN_WORD_ERROR,
};
use crate::standard::variable_ops::{fetch_item, item_at};
use crate::standard::{invoke, invoke_spec, is_recognised, recognises};
use crate::text::{
    append_chars, append_str, chars_of, split_whitespace, string_of, texts_of, trim,
    trim_blanks, trimmed, trimmed_blanks, words_of,
};
use crate::types::{push_value, values_of, Types, Value};
use crate::word::{Word, WordDefinition, WordList};

verus! {

/// How the engine reads the next word.
#[derive(Clone, Copy, Debug, PartialEq, Eq, Structural)]
pub enum EngineMode {
    NORMAL,
    COMPILE,
    SEE,
    COMMENT,
    STRING,
}

/// The state of one open `if`.
#[derive(Clone, Copy, Debug, PartialEq, Eq, Structural)]
pub enum Conditional {
    /// The `if` stands inside a branch that is not taken: neither of its own
    /// branches runs.
    Suppressed,
    /// The branch that is being read runs.
    TakenTrue,
    /// The branch that is being read does not run; the one after `else` will.
    TakenFalse,
}

/// A named list of values.
pub struct Variable {
    pub name: Vec<char>,
    pub values: Vec<Types>,
}

/// What a [`Variable`] holds.
pub struct VariableView {
    pub name: Seq<char>,
    pub values: Seq<Value>,
}

impl View for Variable {
    type V = VariableView;

    open spec fn view(&self) -> VariableView {
        VariableView { name: self.name@, values: values_of(self.values@) }
    }
}

/// What a list of variables holds.
pub open spec fn variables_of(v: Seq<Variable>) -> Seq<VariableView> {
    Seq::new(v.len(), |i: int| v[i]@)
}

/// One line, or one definition's body, under evaluation.
pub struct Context {
    /// The words of the line.
    pub tokens: Vec<Vec<char>>,
    /// How many of them the cursor has passed: the current word is the last
    /// of those.
    pub next: usize,
    /// The output so far.
    pub out: Vec<char>,
    /// Whether this is the body of a definition.
    pub compiled: bool,
}

/// What a [`Context`] holds.
pub struct ContextView {
    pub tokens: Seq<Seq<char>>,
    pub next: nat,
    pub out: Seq<char>,
    pub compiled: bool,
}

impl View for Context {
    type V = ContextView;

    open spec fn view(&self) -> ContextView {
        ContextView {
            tokens: texts_of(self.tokens@),
            next: self.next as nat,
            out: self.out@,
            compiled: self.compiled,
        }
    }
}

/// What a list of contexts holds.
pub open spec fn contexts_of(v: Seq<Context>) -> Seq<ContextView> {
    Seq::new(v.len(), |i: int| v[i]@)
}

/// The work on fractional numbers that the engine hands to its host.
///
/// The operands of a task are whole or fractional numbers, of which one at
/// least is fractional, unless the variant says otherwise. Where both are to
/// be of one kind for the work, that kind is the double where the task is
/// wide and the float where it is not.
#[derive(Clone, Copy, Debug, PartialEq, Eq, Structural)]
pub enum FloatWord {
    /// The sum of the two operands, as a double where the task is wide and
    /// as a float where it is not.
    Add,
    /// The first operand less the second, in the same kind.
    Subtract,
    /// The product of the two operands, in the same kind.
    Multiply,
    /// The first operand divided by the second, in the same kind.
    Divide,
    /// What is left of the first operand when it is divided by the second,
    /// in the same kind.
    Remainder,
    /// The magnitude of the one operand, a fractional number, in its own
    /// kind.
    Abs,
    /// Whether the two operands are equal: the int -1 where they are, else
    /// the int 0.
    Equal,
    /// Whether the two operands differ, as -1 or 0.
    NotEqual,
    /// Whether the first operand is greater than the second, as -1 or 0.
    Greater,
    /// The one operand, a fractional number, as a text, which the engine
    /// writes.
    Show,
    /// The one operand, a fractional number, as a text, which the engine
    /// puts on the stack.
    ToStr,
    /// The one operand, a fractional number, as an int.
    ToInt,
    /// The one operand, a fractional number, as a long.
    ToLong,
    /// The one operand, a fractional number, as a byte.
    ToByte,
    /// The one operand as a float. It is any value but a float; a text is
    /// read as a number, and there is no answer where it writes none.
    ToFloat,
    /// The one operand as a double. It is any value but a double.
    ToDouble,
    /// The second operand, a fractional number, as a long that is not
    /// negative: the place of an item in the variable whose handle is the
    /// first operand.
    Index,
}

/// Work that waits for the host.
pub struct FloatTask {
    /// What is to be done.
    pub word: FloatWord,
    /// The values on which it is to be done.
    pub operands: Vec<Types>,
    /// Whether the work is done in double precision.
    pub wide: bool,
}

/// What a [`FloatTask`] holds.
pub struct FloatTaskView {
    pub word: FloatWord,
    pub operands: Seq<Value>,
    pub wide: bool,
}

impl View for FloatTask {
    type V = FloatTaskView;

    open spec fn view(&self) -> FloatTaskView {
        FloatTaskView { word: self.word, operands: values_of(self.operands@), wide: self.wide }
    }
}

/// What an optional task holds.
pub open spec fn task_of(t: Option<FloatTask>) -> Option<FloatTaskView> {
    match t {
        Some(task) => Some(task@),
        None => None,
    }
}

/// One interpreter.
pub struct Engine {
    /// Cleared by `bye` outside definitions: the host stops then.
    pub running: bool,
    /// Set by `input`: the next line is taken as a text, not evaluated.
    pub waiting_for_input: bool,
    /// Whether the success marker is left out.
    pub silent: bool,
    pub mode: EngineMode,
    pub main_stack: Vec<Types>,
    pub variable_stack: Vec<Variable>,
    pub conditional_stack: Vec<Conditional>,
    /// The open counted loops, each with its limit and its index.
    pub loop_stack: Vec<(i32, i32)>,
    /// The cursor contexts, the active one last.
    pub contexts: Vec<Context>,
    pub string_buffer: Vec<char>,
    /// The definition that is being compiled.
    pub new_compiled_word: Vec<char>,
    /// The stored definitions, each as its name and body in one text.
    pub compiled_words: Vec<Vec<char>>,
    pub words: Vec<Word>,
    /// Work on fractional numbers that the evaluation waits for.
    pub float_task: Option<FloatTask>,
    /// How many words one call of the host may dispatch before it gives up.
    pub step_limit: u64,
    /// How many of them are left to the call that is under way.
    pub steps_left: u64,
}

/// The state of an [`Engine`], as mathematical values. The contracts of
/// this crate speak of engines through it.
pub struct EngineView {
    pub running: bool,
    pub waiting_for_input: bool,
    pub silent: bool,
    pub mode: EngineMode,
    pub main_stack: Seq<Value>,
    pub variable_stack: Seq<VariableView>,
    pub conditional_stack: Seq<Conditional>,
    pub loop_stack: Seq<(i32, i32)>,
    pub contexts: Seq<ContextView>,
    pub string_buffer: Seq<char>,
    pub new_compiled_word: Seq<char>,
    pub compiled_words: Seq<Seq<char>>,
    pub words: Seq<Word>,
    pub float_task: Option<FloatTaskView>,
    pub step_limit: u64,
    pub steps_left: u64,
}

impl View for Engine {
    type V = EngineView;

    open spec fn view(&self) -> EngineView {
        EngineView {
            running: self.running,
            waiting_for_input: self.waiting_for_input,
            silent: self.silent,
            mode: self.mode,
            main_stack: values_of(self.main_stack@),
            variable_stack: variables_of(self.variable_stack@),
            conditional_stack: self.conditional_stack@,
            loop_stack: self.loop_stack@,
            contexts: contexts_of(self.contexts@),
            string_buffer: self.string_buffer@,
            new_compiled_word: self.new_compiled_word@,
            compiled_words: texts_of(self.compiled_words@),
            words: self.words@,
            float_task: task_of(self.float_task),
            step_limit: self.step_limit,
            steps_left: self.steps_left,
        }
    }
}

/// What a handler or an evaluation leaves: the new state, and the text that
/// it wrote or the message with which it failed.
pub type Outcome = (EngineView, Result<Seq<char>, Seq<char>>);

/// The state is `e` and nothing was written.
pub open spec fn done(e: EngineView) -> Outcome {
    (e, Ok(Seq::empty()))
}

/// The state is `e` and `text` was written.
pub open spec fn says(e: EngineView, text: Seq<char>) -> Outcome {
    (e, Ok(text))
}

/// The state is `e` and the word failed.
pub open spec fn fails(e: EngineView, message: Seq<char>) -> Outcome {
    (e, Err(message))
}

/// What a handler returned, as sequences of characters.
pub open spec fn text_result(r: Result<String, String>) -> Result<Seq<char>, Seq<char>> {
    match r {
        Ok(text) => Ok(text@),
        Err(message) => Err(message@),
    }
}

/// A fresh engine: it runs, in normal mode, with everything empty.
pub open spec fn fresh() -> EngineView {
    EngineView {
        running: true,
        waiting_for_input: false,
        silent: false,
        mode: EngineMode::NORMAL,
        main_stack: Seq::empty(),
        variable_stack: Seq::empty(),
        conditional_stack: Seq::empty(),
        loop_stack: Seq::empty(),
        contexts: Seq::empty(),
        string_buffer: Seq::empty(),
        new_compiled_word: Seq::empty(),
        compiled_words: Seq::empty(),
        words: Seq::empty(),
        float_task: None,
        step_limit: u64::MAX,
        steps_left: u64::MAX,
    }
}

/// The word under the cursor of the active context; the empty text where
/// there is none.
pub open spec fn current_word(e: EngineView) -> Seq<char> {
    if e.contexts.len() > 0 && 1 <= e.contexts.last().next <= e.contexts.last().tokens.len() {
        e.contexts.last().tokens[e.contexts.last().next - 1]
    } else {
        Seq::empty()
    }
}

/// Whether the active context is the body of a definition.
pub open spec fn inside_definition(e: EngineView) -> bool {
    e.contexts.len() > 0 && e.contexts.last().compiled
}

/// The state of the innermost open `if`; outside every `if`, words run.
pub open spec fn current_condition(e: EngineView) -> Conditional {
    if e.conditional_stack.len() > 0 {
        e.conditional_stack.last()
    } else {
        Conditional::TakenTrue
    }
}

/// The state with another main stack.
pub open spec fn with_stack(e: EngineView, stack: Seq<Value>) -> EngineView {
    EngineView { main_stack: stack, ..e }
}

/// A word found too few values: what it took is gone, which leaves the main
/// stack empty.
pub open spec fn underflows(e: EngineView) -> Outcome {
    fails(with_stack(e, Seq::empty()), crate::errors::STACK_UNDERFLOW_ERROR@)
}

/// The evaluation stops for the host to work on fractional numbers.
pub open spec fn asks(e: EngineView, word: FloatWord, operands: Seq<Value>, wide: bool) -> Outcome {
    done(EngineView {
        float_task: Some(FloatTaskView { word: word, operands: operands, wide: wide }),
        ..e
    })
}

/// The text that writes a whole number or a text value.
pub open spec fn shown(v: Value) -> Seq<char> {
    match v {
        Value::Int(a) => crate::number::decimal_text(a as int),
        Value::Long(a) => crate::number::decimal_text(a as int),
        Value::Byte(a) => crate::number::decimal_text(a as int),
        Value::Str(a) => a,
        _ => Seq::empty(),
    }
}

/// Writes a whole number or a text value.
pub fn show(v: &Types) -> (r: String)
    requires
        !crate::arith::is_fraction(v@),
    ensures
        r@ == shown(v@),
{
    match v {
        Types::Int(a) => crate::text::string_of(&crate::number::write_decimal(*a as i64)),
        Types::Long(a) => crate::text::string_of(&crate::number::write_decimal(*a)),
        Types::Byte(a) => crate::text::string_of(&crate::number::write_decimal(*a as i64)),
        Types::Str(a) => a.clone(),
        _ => String::new(),
    }
}

/// The message with the end of a line after it.
pub fn with_line_end(message: String) -> (r: String)
    ensures
        r@ == message@ + seq!['\n'],
{
    let mut text = chars_of(message.as_str());
    text.push('\n');
    assert(text@ =~= message@ + seq!['\n']);
    string_of(&text)
}

/// The message with as many ends of lines after it.
pub fn with_line_ends(message: String, count: usize) -> (r: String)
    ensures
        r@ == message@ + line_ends(count as nat),
{
    let mut text = chars_of(message.as_str());
    let mut i: usize = 0;
    assert(text@ =~= message@ + line_ends(0));
    while i < count
        invariant
            i <= count,
            text@ == message@ + line_ends(i as nat),
        decreases count - i,
    {
        text.push('\n');
        assert(text@ =~= message@ + line_ends((i + 1) as nat));
        i += 1;
    }
    string_of(&text)
}

fn fits(task: &FloatTask, reply: &Types) -> (b: bool)
    ensures
        b == reply_fits(task@, reply@),
{
    match task.word {
        FloatWord::Equal | FloatWord::NotEqual | FloatWord::Greater => match reply {
            Types::Int(a) => *a == -1 || *a == 0,
            _ => false,
        },
        FloatWord::Show | FloatWord::ToStr => match reply {
            Types::Str(_) => true,
            _ => false,
        },
        FloatWord::ToInt => match reply {
            Types::Int(_) => true,
            _ => false,
        },
        FloatWord::ToLong | FloatWord::Index => match reply {
            Types::Long(_) => true,
            _ => false,
        },
        FloatWord::ToByte => match reply {
            Types::Byte(_) => true,
            _ => false,
        },
        FloatWord::ToFloat => match reply {
            Types::Float(_) => true,
            _ => false,
        },
        FloatWord::ToDouble => match reply {
            Types::Double(_) => true,
            _ => false,
        },
        _ => match reply {
            Types::Double(_) => task.wide,
            Types::Float(_) => !task.wide,
            _ => false,
        },
    }
}

/// The failure with the given message.
pub fn failure(text: &'static str) -> (r: Result<String, String>)
    ensures
        text_result(r) == Err::<Seq<char>, Seq<char>>(text@),
{
    Err(crate::errors::message(text))
}

/// Success with nothing written.
pub fn nothing() -> (r: Result<String, String>)
    ensures
        text_result(r) == Ok::<Seq<char>, Seq<char>>(Seq::empty()),
{
    Ok(String::new())
}

/// The state with `v` put on the main stack.
pub open spec fn pushed(e: EngineView, v: Value) -> EngineView {
    EngineView { main_stack: e.main_stack.push(v), ..e }
}

/// A truth value as the language writes it: -1 for true, 0 for false.
pub open spec fn flag(b: bool) -> Value {
    if b {
        Value::Int(-1i32)
    } else {
        Value::Int(0i32)
    }
}

/// A truth value as the language writes it.
pub fn flag_value(b: bool) -> (r: Types)
    ensures
        r@ == flag(b),
{
    if b {
        Types::Int(-1)
    } else {
        Types::Int(0)
    }
}

/// The place of the first entry from `from` on that recognises the current
/// word.
pub open spec fn first_recognising(words: Seq<Word>, e: EngineView, from: int) -> Option<int>
    decreases words.len() - from,
{
    if from < 0 || from >= words.len() {
        None
    } else if recognises(words[from].0, e) {
        Some(from)
    } else {
        first_recognising(words, e, from + 1)
    }
}

/// The output with a blank at its end, which is added where there is none.
pub open spec fn spaced(out: Seq<char>) -> Seq<char> {
    if out.len() > 0 && out.last() == ' ' {
        out
    } else {
        out.push(' ')
    }
}

/// The state after the cursor of the active context has moved on by one
/// word.
pub open spec fn advanced(e: EngineView) -> EngineView {
    if e.contexts.len() > 0 {
        EngineView {
            contexts: e.contexts.update(
                e.contexts.len() - 1,
                ContextView {
                    next: e.contexts.last().next + 1,
                    out: spaced(e.contexts.last().out),
                    ..e.contexts.last()
                },
            ),
            ..e
        }
    } else {
        e
    }
}

/// One word is dispatched: the cursor moves on to it, and the handler of the
/// first entry of the word table that recognises it runs. A word that no
/// entry recognises is unknown.
pub open spec fn dispatch_spec(e: EngineView) -> Outcome
    decreases e.steps_left, 4int,
{
    let at = advanced(e);
    match first_recognising(at.words, at, 0) {
        Some(i) => invoke_spec(at.words[i].1, at),
        None => fails(at, UNKNOWN_WORD_ERROR@ + current_word(at)),
    }
}

/// What goes into the output of what a handler wrote: all of it where it
/// both begins and ends with the end of a line, else what is left when the
/// white space at its ends is taken away.
pub open spec fn fragment(text: Seq<char>) -> Seq<char> {
    if text.len() > 0 && text[0] == '\n' && text.last() == '\n' {
        text
    } else {
        trim(text)
    }
}

/// The state after the context at `depth` has taken `text` into its output.
pub open spec fn absorbed(e: EngineView, depth: int, text: Seq<char>) -> EngineView {
    if 0 <= depth < e.contexts.len() {
        EngineView {
            contexts: e.contexts.update(
                depth,
                ContextView { out: e.contexts[depth].out + fragment(text), ..e.contexts[depth] },
            ),
            ..e
        }
    } else {
        e
    }
}

/// The state with every context taken away.
pub open spec fn discarded(e: EngineView) -> EngineView {
    EngineView { contexts: Seq::empty(), ..e }
}

/// What the active context hands on when its words are used up: its output,
/// with the success marker after it where the context is no definition and
/// the engine is not silent, and without the blanks at its ends.
pub open spec fn closing_text(e: EngineView) -> Seq<char> {
    let context = e.contexts.last();
    if !context.compiled && !e.silent {
        trim_blanks(context.out + "\nOk.\n"@)
    } else {
        trim_blanks(context.out)
    }
}

/// The state with one step of the budget spent.
pub open spec fn spent(e: EngineView) -> EngineView {
    EngineView { steps_left: (e.steps_left - 1) as u64, ..e }
}

/// The contexts up to `depth`: those above are gone.
pub open spec fn cut(contexts: Seq<ContextView>, depth: int) -> Seq<ContextView> {
    if 0 <= depth <= contexts.len() {
        contexts.take(depth)
    } else {
        contexts
    }
}

/// The evaluation of the active context to its end.
///
/// As long as the context has words left, the next one is dispatched, at the
/// price of one step of the budget, and what its handler wrote goes into the
/// output of the context. A handler that runs a definition evaluates the
/// body of the definition within its own call, by [`evaluate_spec`]. When
/// the words are used up the context is taken away, and its closing text is
/// the result.
///
/// A word that fails ends the evaluation: the context is taken away and the
/// result is the message, with the end of a line after it. A word that
/// would need a step beyond the budget fails in the same way. Where work
/// waits for the host nothing is evaluated: the context stays as it is, for
/// [`resume_spec`] to go on with, and the result is the empty text.
///
/// No handler adds to the budget ([`lemma_dispatch_keeps`]), so the
/// evaluation goes on after every word that did not fail.
pub open spec fn run_context_spec(e: EngineView) -> Outcome
    decreases e.steps_left, 0int,
{
    if e.float_task is Some || e.contexts.len() == 0 {
        done(e)
    } else if e.contexts.last().next < e.contexts.last().tokens.len() {
        if e.steps_left == 0 {
            fails(
                EngineView { contexts: e.contexts.drop_last(), ..e },
                STEP_LIMIT_ERROR@ + seq!['\n'],
            )
        } else {
            let (after, result) = dispatch_spec(spent(e));
            match result {
                Err(message) => fails(
                    EngineView { contexts: cut(after.contexts, e.contexts.len() - 1), ..after },
                    message + seq!['\n'],
                ),
                Ok(text) => if after.steps_left < e.steps_left {
                    run_context_spec(absorbed(after, e.contexts.len() - 1, text))
                } else {
                    done(after)
                },
            }
        }
    } else {
        says(EngineView { contexts: e.contexts.drop_last(), ..e }, closing_text(e))
    }
}

/// The context in which a line is evaluated.
pub open spec fn line_context(line: Seq<char>, compiled: bool) -> ContextView {
    ContextView { tokens: words_of(line), next: 0, out: Seq::empty(), compiled: compiled }
}

/// What the engine makes of a line, with the budget that it has.
///
/// Where the engine waits for input the line is not evaluated: it goes on
/// the stack as a text, as it is, and the answer is the success marker, or
/// the end of a line where the engine is silent. Else the line is split into
/// words and evaluated to its end in a context of its own, above the
/// contexts that are open, which counts as the body of a definition where
/// `compiled` is set.
pub open spec fn evaluate_spec(e: EngineView, line: Seq<char>, compiled: bool) -> Outcome
    decreases e.steps_left, 1int,
{
    if e.waiting_for_input {
        says(
            EngineView { waiting_for_input: false, ..pushed(e, Value::Str(line)) },
            input_answer(e.silent),
        )
    } else {
        run_context_spec(
            EngineView { contexts: e.contexts.push(line_context(line, compiled)), ..e },
        )
    }
}

/// How many contexts lie beneath the active one.
pub open spec fn beneath(e: EngineView) -> int {
    if e.contexts.len() > 0 {
        e.contexts.len() - 1
    } else {
        0
    }
}

/// What the handler of a word keeps, where `o` is what it made of `e`: it
/// adds nothing to the budget, and it leaves the contexts beneath the active
/// one as they are. When it is done, as many contexts are open as before;
/// only where it stopped for the host can there be more.
pub open spec fn handler_keeps(e: EngineView, o: Outcome) -> bool {
    &&& o.0.steps_left <= e.steps_left
    &&& o.0.contexts.len() >= e.contexts.len()
    &&& o.0.contexts.take(beneath(e)) =~= e.contexts.take(beneath(e))
    &&& (o.1 is Err || o.0.float_task is None) ==> o.0.contexts.len() == e.contexts.len()
}

/// What the evaluation of the active context keeps, where `o` is what it
/// made of `e`: it adds nothing to the budget, and it leaves the contexts
/// beneath the active one as they are. When it is done, whether it failed or
/// not, the active context is gone and those beneath it are what is left.
pub open spec fn run_keeps(e: EngineView, o: Outcome) -> bool {
    &&& o.0.steps_left <= e.steps_left
    &&& o.0.contexts.len() >= beneath(e)
    &&& o.0.contexts.take(beneath(e)) =~= e.contexts.take(beneath(e))
    &&& (o.1 is Err || o.0.float_task is None) ==> o.0.contexts.len() == beneath(e)
}

/// The evaluation of the active context keeps what [`run_keeps`] says.
pub proof fn lemma_run_keeps(e: EngineView)
    ensures
        run_keeps(e, run_context_spec(e)),
    decreases e.steps_left, 0int,
{
    let n = e.contexts.len() as int;
    if e.float_task is Some || n == 0 {
    } else if e.contexts.last().next < e.contexts.last().tokens.len() {
        if e.steps_left == 0 {
            assert(e.contexts.drop_last().take(n - 1) =~= e.contexts.take(n - 1));
        } else {
            lemma_dispatch_keeps(spent(e));
            let (after, result) = dispatch_spec(spent(e));
            match result {
                Err(message) => {
                    assert(cut(after.contexts, n - 1).take(n - 1) =~= e.contexts.take(n - 1));
                },
                Ok(text) => {
                    let next = absorbed(after, n - 1, text);
                    lemma_run_keeps(next);
                    let last = run_context_spec(next);
                    assert(next.contexts.take(n - 1) =~= after.contexts.take(n - 1));
                    if after.float_task is None {
                        assert(beneath(next) == n - 1);
                    } else {
                        assert(last == done(next));
                    }
                    assert(last.0.contexts.take(n - 1) =~= e.contexts.take(n - 1)) by {
                        if after.float_task is None {
                            assert(last.0.contexts.take(n - 1) =~= next.contexts.take(n - 1));
                        }
                    }
                },
            }
        }
    } else {
        assert(e.contexts.drop_last().take(n - 1) =~= e.contexts.take(n - 1));
    }
}

/// The dispatch of a word keeps what [`handler_keeps`] says.
pub proof fn lemma_dispatch_keeps(e: EngineView)
    ensures
        handler_keeps(e, dispatch_spec(e)),
    decreases e.steps_left, 4int,
{
    let at = advanced(e);
    assert(at.contexts.take(beneath(e)) =~= e.contexts.take(beneath(e)));
    match first_recognising(at.words, at, 0) {
        Some(i) => {
            crate::standard::lemma_invoke_keeps(at.words[i].1, at);
        },
        None => {},
    }
}

/// The evaluation of a line keeps the contexts that were open: when it is
/// done, whether it failed or not, they are what is open, as they were.
/// Where it stopped for the host they lie beneath what it left. It adds
/// nothing to the budget.
pub proof fn lemma_evaluate_keeps(e: EngineView, line: Seq<char>, compiled: bool)
    ensures
        evaluate_spec(e, line, compiled).0.steps_left <= e.steps_left,
        e.contexts.is_prefix_of(evaluate_spec(e, line, compiled).0.contexts),
        evaluate_spec(e, line, compiled).1 is Err || evaluate_spec(e, line, compiled).0.float_task
            is None ==> evaluate_spec(e, line, compiled).0.contexts == e.contexts,
    decreases e.steps_left, 1int,
{
    if !e.waiting_for_input {
        let n = e.contexts.len() as int;
        let start = EngineView { contexts: e.contexts.push(line_context(line, compiled)), ..e };
        lemma_run_keeps(start);
        let o = run_context_spec(start);
        assert(start.contexts.take(n) =~= e.contexts);
        assert(o.0.contexts.take(n) =~= e.contexts);
        assert(o.0.contexts.subrange(0, n) =~= e.contexts);
        if o.1 is Err || o.0.float_task is None {
            assert(o.0.contexts =~= e.contexts);
        }
    } else {
        assert(e.contexts.subrange(0, e.contexts.len() as int) =~= e.contexts);
    }
}

/// What the host's call of `eval` keeps: the contexts that were open before
/// the call are open after it, as they were, and no other, unless the
/// evaluation stopped for the host; then they lie beneath what it left.
pub proof fn lemma_eval_keeps_contexts(e: EngineView, line: Seq<char>, compiled: bool)
    ensures
        e.contexts.is_prefix_of(eval_spec(e, line, compiled).0.contexts),
        eval_spec(e, line, compiled).1 is Err || eval_spec(e, line, compiled).0.float_task
            is None ==> eval_spec(e, line, compiled).0.contexts == e.contexts,
{
    lemma_evaluate_keeps(EngineView { steps_left: e.step_limit, ..e }, line, compiled);
}

/// As many ends of lines as there are contexts that a failure passes on its
/// way out.
pub open spec fn line_ends(n: nat) -> Seq<char> {
    Seq::new(n, |i: int| '\n')
}

/// The evaluation of all the contexts that are open, the active one first:
/// what the engine does when the host has done its work.
///
/// Each context is evaluated to its end, and its closing text goes into the
/// output of the one beneath it, as it does when a definition returns. The
/// closing text of the last one is the result. A failure takes every
/// context away, and each one that it passes adds the end of a line to the
/// message. Where work waits for the host again, the evaluation stops.
pub open spec fn unwind_spec(e: EngineView) -> Outcome
    decreases e.contexts.len(),
{
    if e.contexts.len() == 0 || e.float_task is Some {
        done(e)
    } else {
        let (after, result) = run_context_spec(e);
        match result {
            Err(message) => fails(discarded(after), message + line_ends(after.contexts.len())),
            Ok(text) => if after.float_task is None && 0 < after.contexts.len()
                < e.contexts.len() {
                unwind_spec(absorbed(after, after.contexts.len() - 1, text))
            } else {
                says(after, text)
            },
        }
    }
}

/// What the engine writes when it has taken a line as input: the success
/// marker, or the end of a line where it is silent.
pub open spec fn input_answer(silent: bool) -> Seq<char> {
    if silent {
        seq!['\n']
    } else {
        "\nOk.\n"@
    }
}

/// What the engine writes when it has taken a line as input.
pub fn input_taken(silent: bool) -> (r: String)
    ensures
        r@ == input_answer(silent),
{
    if silent {
        let mut text: Vec<char> = Vec::new();
        text.push('\n');
        assert(text@ =~= seq!['\n']);
        string_of(&text)
    } else {
        crate::errors::message("\nOk.\n")
    }
}

/// What the engine makes of a line that the host hands it: what
/// [`evaluate_spec`] says, with the whole budget.
///
/// The contexts that were open before stay beneath the one of the line.
/// Work that was left for the host stays too, and as long as it waits the
/// line is not evaluated.
pub open spec fn eval_spec(e: EngineView, line: Seq<char>, compiled: bool) -> Outcome {
    evaluate_spec(EngineView { steps_left: e.step_limit, ..e }, line, compiled)
}

/// Whether `reply` is of the kind that the task asks for.
pub open spec fn reply_fits(task: FloatTaskView, reply: Value) -> bool {
    match task.word {
        FloatWord::Equal | FloatWord::NotEqual | FloatWord::Greater => reply == flag(true) || reply
            == flag(false),
        FloatWord::Show | FloatWord::ToStr => reply is Str,
        FloatWord::ToInt => reply is Int,
        FloatWord::ToLong | FloatWord::Index => reply is Long,
        FloatWord::ToByte => reply is Byte,
        FloatWord::ToFloat => reply is Float,
        FloatWord::ToDouble => reply is Double,
        _ => if task.wide {
            reply is Double
        } else {
            reply is Float
        },
    }
}

/// What the word that left `task` makes of the host's reply, in the state
/// `e`, from which the task is already taken.
///
/// No reply means that the host found no value: a text that writes no
/// fractional number, or work that it does not do. A reply of another kind
/// than the task asks for is refused. A text that was to be shown is written;
/// the place of an item is looked up; every other reply goes on the stack.
pub open spec fn answered(e: EngineView, task: FloatTaskView, reply: Option<Value>) -> Outcome {
    match reply {
        None => if task.word == FloatWord::ToFloat || task.word == FloatWord::ToDouble {
            fails(e, TYPE_CONVERSION_FAILURE_ERROR@)
        } else {
            fails(e, INVALID_TYPE_ERROR@)
        },
        Some(v) => if !reply_fits(task, v) {
            fails(e, INVALID_TYPE_ERROR@)
        } else if task.word == FloatWord::Show {
            says(e, v->Str_0)
        } else if task.word == FloatWord::Index {
            if task.operands.len() > 0 && task.operands[0] is Int {
                item_at(e, task.operands[0]->Int_0, v->Long_0 as int)
            } else {
                fails(e, INVALID_TYPE_ERROR@)
            }
        } else {
            done(pushed(e, v))
        },
    }
}

/// What the engine makes of the host's reply to the work that it left: the
/// word that left the work ends, and the evaluation of the open contexts
/// goes on from there, with the whole budget. Where the word fails with the
/// reply, every context is taken away. Where no work waits, the reply is
/// dropped.
pub open spec fn resume_spec(e: EngineView, reply: Option<Value>) -> Outcome {
    let start = EngineView { float_task: None, steps_left: e.step_limit, ..e };
    match e.float_task {
        None => unwind_spec(start),
        Some(task) => {
            let (after, result) = answered(start, task, reply);
            match result {
                Err(message) => fails(
                    discarded(after),
                    message + line_ends(after.contexts.len()),
                ),
                Ok(text) => unwind_spec(absorbed(after, after.contexts.len() - 1, text)),
            }
        },
    }
}

/// The contexts with the cursor of the active one moved.
pub open spec fn cursor_at(contexts: Seq<ContextView>, next: nat) -> Seq<ContextView> {
    if contexts.len() > 0 {
        contexts.update(contexts.len() - 1, ContextView { next: next, ..contexts.last() })
    } else {
        contexts
    }
}

impl Engine {
    /// A fresh engine. It knows no words until a vocabulary is imported.
    pub fn new() -> (r: Engine)
        ensures
            r@ == fresh(),
    {
        let r = Engine {
            running: true,
            waiting_for_input: false,
            silent: false,
            mode: EngineMode::NORMAL,
            main_stack: Vec::new(),
            variable_stack: Vec::new(),
            conditional_stack: Vec::new(),
            loop_stack: Vec::new(),
            contexts: Vec::new(),
            string_buffer: Vec::new(),
            new_compiled_word: Vec::new(),
            compiled_words: Vec::new(),
            words: Vec::new(),
            float_task: None,
            step_limit: u64::MAX,
            steps_left: u64::MAX,
        };
        assert(r@.main_stack =~= Seq::empty());
        assert(r@.variable_stack =~= Seq::empty());
        assert(r@.contexts =~= Seq::empty());
        assert(r@.compiled_words =~= Seq::empty());
        r
    }

    /// Appends the entries of a vocabulary to the word table: what its
    /// `get_words` returns.
    pub fn import_word_list<W: WordList>(&mut self, word_list: W)
        ensures
            exists|more: Vec<Word>|
                call_ensures(W::get_words, (&word_list,), more) && final(self)@ == (EngineView {
                    words: old(self)@.words + more@,
                    ..old(self)@
                }),
    {
        let mut more = word_list.get_words();
        let ghost entries = more;
        self.words.append(&mut more);
        assert(call_ensures(W::get_words, (&word_list,), entries) && self@ == (EngineView {
            words: old(self)@.words + entries@,
            ..old(self)@
        }));
    }

    /// The word under the cursor, if there is one.
    pub fn current_token(&self) -> (r: Option<&Vec<char>>)
        ensures
            match r {
                Some(t) => t@ == current_word(self@) && self@.contexts.len() > 0 && 1
                    <= self@.contexts.last().next <= self@.contexts.last().tokens.len(),
                None => current_word(self@) == Seq::<char>::empty() && !(self@.contexts.len() > 0
                    && 1 <= self@.contexts.last().next <= self@.contexts.last().tokens.len()),
            },
    {
        let n = self.contexts.len();
        if n == 0 {
            return None;
        }
        let top = &self.contexts[n - 1];
        if 1 <= top.next && top.next <= top.tokens.len() {
            Some(&top.tokens[top.next - 1])
        } else {
            None
        }
    }

    /// Whether the active context is the body of a definition.
    pub fn get_compiled_exec(&self) -> (b: bool)
        ensures
            b == inside_definition(self@),
    {
        let n = self.contexts.len();
        n > 0 && self.contexts[n - 1].compiled
    }

    /// The word under the cursor; the empty text where there is none.
    pub fn get_curr_word(&self) -> (r: String)
        ensures
            r@ == current_word(self@),
    {
        match self.current_token() {
            Some(t) => crate::text::string_of(t),
            None => String::new(),
        }
    }

    /// Whether the engine is in normal mode.
    pub fn mode_normal(&self) -> (b: bool)
        ensures
            b == (self.mode == EngineMode::NORMAL),
    {
        self.mode == EngineMode::NORMAL
    }

    /// Whether a definition is being compiled.
    pub fn mode_compile(&self) -> (b: bool)
        ensures
            b == (self.mode == EngineMode::COMPILE),
    {
        self.mode == EngineMode::COMPILE
    }

    /// Whether a comment is being passed over.
    pub fn mode_comment(&self) -> (b: bool)
        ensures
            b == (self.mode == EngineMode::COMMENT),
    {
        self.mode == EngineMode::COMMENT
    }

    /// Whether the engine is in the mode that shows definitions.
    pub fn mode_see(&self) -> (b: bool)
        ensures
            b == (self.mode == EngineMode::SEE),
    {
        self.mode == EngineMode::SEE
    }

    /// Whether a text is being read.
    pub fn mode_string(&self) -> (b: bool)
        ensures
            b == (self.mode == EngineMode::STRING),
    {
        self.mode == EngineMode::STRING
    }

    /// Evaluates one line of text and returns what it wrote, or the message
    /// of the word that failed.
    ///
    /// The line runs in a context of its own, above the contexts that are
    /// open; when it is done, whether it failed or not, those are open as
    /// before. Where the engine waits for input, the line is that input.
    /// Where the evaluation comes upon work on fractional numbers it stops:
    /// the result is the empty text, `float_task` holds the work, the
    /// contexts of the line and of the definitions that it had entered stay
    /// open with what was written so far, and [`Engine::resume`] goes on from
    /// there.
    pub fn eval(&mut self, line: String) -> (r: Result<String, String>)
        ensures
            (final(self)@, text_result(r)) == eval_spec(old(self)@, line@, false),
    {
        self.begin(line, false)
    }

    /// Takes a line as input where the engine waits for one, and evaluates it
    /// otherwise, as the body of a definition where `compiled` is set.
    pub fn begin(&mut self, line: String, compiled: bool) -> (r: Result<String, String>)
        ensures
            (final(self)@, text_result(r)) == eval_spec(old(self)@, line@, compiled),
    {
        self.steps_left = self.step_limit;
        self.evaluate(chars_of(line.as_str()), compiled)
    }

    /// Evaluates a line with the budget that is left: see [`evaluate_spec`].
    pub fn evaluate(&mut self, line: Vec<char>, compiled: bool) -> (r: Result<String, String>)
        ensures
            (final(self)@, text_result(r)) == evaluate_spec(old(self)@, line@, compiled),
            final(self).steps_left <= old(self).steps_left,
        decreases old(self).steps_left, 1int,
    {
        if self.waiting_for_input {
            push_value(&mut self.main_stack, Types::Str(string_of(&line)));
            self.waiting_for_input = false;
            Ok(input_taken(self.silent))
        } else {
            let tokens = split_whitespace(&line);
            let ghost before = self@.contexts;
            self.contexts.push(Context { tokens: tokens, next: 0, out: Vec::new(), compiled: compiled });
            assert(self@.contexts =~= before.push(line_context(line@, compiled)));
            self.run()
        }
    }

    /// Hands the engine the host's reply to the work in `float_task`, and
    /// goes on with the evaluation that waited for it. The result is that of
    /// the whole line, unless the evaluation stops for the host once more.
    pub fn resume(&mut self, reply: Option<Types>) -> (r: Result<String, String>)
        ensures
            (final(self)@, text_result(r)) == resume_spec(
                old(self)@,
                crate::arith::option_view(reply),
            ),
    {
        self.steps_left = self.step_limit;
        match self.float_task.take() {
            None => self.unwind(),
            Some(task) => {
                assert(self@ == (EngineView {
                    float_task: None,
                    steps_left: old(self)@.step_limit,
                    ..old(self)@
                }));
                match self.answer(&task, reply) {
                    Err(message) => {
                        let passed = self.contexts.len();
                        self.contexts.clear();
                        assert(self@.contexts =~= Seq::empty());
                        Err(with_line_ends(message, passed))
                    },
                    Ok(text) => {
                        let n = self.contexts.len();
                        if n > 0 {
                            self.absorb(n - 1, &text);
                        }
                        self.unwind()
                    },
                }
            },
        }
    }

    /// Evaluates all the contexts that are open: see [`unwind_spec`].
    fn unwind(&mut self) -> (r: Result<String, String>)
        ensures
            (final(self)@, text_result(r)) == unwind_spec(old(self)@),
    {
        loop
            invariant
                unwind_spec(self@) == unwind_spec(old(self)@),
            decreases self.contexts.len(),
        {
            let n = self.contexts.len();
            if n == 0 || self.float_task.is_some() {
                return nothing();
            }
            match self.run() {
                Err(message) => {
                    let passed = self.contexts.len();
                    self.contexts.clear();
                    assert(self@.contexts =~= Seq::empty());
                    return Err(with_line_ends(message, passed));
                },
                Ok(text) => {
                    let left = self.contexts.len();
                    if self.float_task.is_some() || left == 0 || left >= n {
                        return Ok(text);
                    }
                    self.absorb(left - 1, &text);
                },
            }
        }
    }

    /// Ends the word that left `task`, with the host's reply.
    fn answer(&mut self, task: &FloatTask, reply: Option<Types>) -> (r: Result<String, String>)
        ensures
            (final(self)@, text_result(r)) == answered(
                old(self)@,
                task@,
                crate::arith::option_view(reply),
            ),
    {
        match reply {
            None => match task.word {
                FloatWord::ToFloat => failure(TYPE_CONVERSION_FAILURE_ERROR),
                FloatWord::ToDouble => failure(TYPE_CONVERSION_FAILURE_ERROR),
                _ => failure(INVALID_TYPE_ERROR),
            },
            Some(v) => {
                if !fits(task, &v) {
                    return failure(INVALID_TYPE_ERROR);
                }
                match task.word {
                    FloatWord::Show => match v {
                        Types::Str(text) => Ok(text),
                        _ => failure(INVALID_TYPE_ERROR),
                    },
                    FloatWord::Index => {
                        if task.operands.len() > 0 {
                            match (&task.operands[0], &v) {
                                (Types::Int(handle), Types::Long(place)) => fetch_item(
                                    self,
                                    *handle,
                                    *place,
                                ),
                                _ => failure(INVALID_TYPE_ERROR),
                            }
                        } else {
                            failure(INVALID_TYPE_ERROR)
                        }
                    },
                    _ => {
                        push_value(&mut self.main_stack, v);
                        nothing()
                    },
                }
            },
        }
    }

    /// The handler of the first entry that recognises the current word.
    fn select(&self) -> (r: Option<WordDefinition>)
        ensures
            match first_recognising(self@.words, self@, 0) {
                Some(i) => r == Some(self@.words[i].1),
                None => r is None,
            },
    {
        let mut i: usize = 0;
        while i < self.words.len()
            invariant
                i <= self.words.len(),
                first_recognising(self@.words, self@, 0) == first_recognising(
                    self@.words,
                    self@,
                    i as int,
                ),
            decreases self.words.len() - i,
        {
            if is_recognised(self.words[i].0, self) {
                return Some(self.words[i].1);
            }
            i += 1;
        }
        None
    }

    /// Dispatches the next word of the active context.
    fn dispatch(&mut self) -> (r: Result<String, String>)
        requires
            old(self).contexts.len() > 0,
            old(self).contexts@.last().next < old(self).contexts@.last().tokens.len(),
        ensures
            (final(self)@, text_result(r)) == dispatch_spec(old(self)@),
            final(self).steps_left <= old(self).steps_left,
        decreases old(self).steps_left, 4int,
    {
        let n = self.contexts.len();
        let m = self.contexts[n - 1].out.len();
        if m == 0 || self.contexts[n - 1].out[m - 1] != ' ' {
            self.contexts[n - 1].out.push(' ');
        }
        self.contexts[n - 1].next = self.contexts[n - 1].next + 1;
        assert(self@.contexts =~= advanced(old(self)@).contexts);
        match self.select() {
            Some(definition) => invoke(definition, self),
            None => {
                let mut message = chars_of(UNKNOWN_WORD_ERROR);
                match self.current_token() {
                    Some(word) => append_chars(&mut message, word),
                    None => {},
                }
                Err(string_of(&message))
            },
        }
    }

    /// Takes `text` into the output of the context at `depth`.
    fn absorb(&mut self, depth: usize, text: &String)
        requires
            depth < old(self).contexts.len(),
        ensures
            final(self)@ == absorbed(old(self)@, depth as int, text@),
            final(self).contexts.len() == old(self).contexts.len(),
            final(self).steps_left == old(self).steps_left,
    {
        let chars = chars_of(text.as_str());
        let n = chars.len();
        if n > 0 && chars[0] == '\n' && chars[n - 1] == '\n' {
            append_chars(&mut self.contexts[depth].out, &chars);
        } else {
            let kept = trimmed(&chars);
            append_chars(&mut self.contexts[depth].out, &kept);
        }
        assert(self@.contexts =~= absorbed(old(self)@, depth as int, text@).contexts);
    }

    /// Ends the active context and returns its closing text.
    fn close(&mut self) -> (r: String)
        requires
            old(self).contexts.len() > 0,
        ensures
            r@ == closing_text(old(self)@),
            final(self)@ == (EngineView {
                contexts: old(self)@.contexts.drop_last(),
                ..old(self)@
            }),
            final(self).contexts.len() == old(self).contexts.len() - 1,
    {
        let ended = self.contexts.pop();
        assert(self@.contexts =~= old(self)@.contexts.drop_last());
        match ended {
            Some(context) => {
                let mut out = context.out;
                if !context.compiled && !self.silent {
                    append_str(&mut out, "\nOk.\n");
                }
                string_of(&trimmed_blanks(&out))
            },
            None => String::new(),
        }
    }

    /// Evaluates the active context to its end: see [`run_context_spec`].
    pub fn run(&mut self) -> (r: Result<String, String>)
        ensures
            (final(self)@, text_result(r)) == run_context_spec(old(self)@),
            final(self).steps_left <= old(self).steps_left,
        decreases old(self).steps_left, 0int,
    {
        loop
            invariant
                run_context_spec(self@) == run_context_spec(old(self)@),
                self.steps_left <= old(self).steps_left,
            decreases self.steps_left,
        {
            let n = self.contexts.len();
            if self.float_task.is_some() || n == 0 {
                return nothing();
            }
            if self.contexts[n - 1].next < self.contexts[n - 1].tokens.len() {
                if self.steps_left == 0 {
                    let ghost here = self@.contexts;
                    let _ = self.contexts.pop();
                    assert(self@.contexts =~= here.drop_last());
                    return Err(with_line_end(crate::errors::message(STEP_LIMIT_ERROR)));
                }
                let ghost before = self@;
                self.steps_left = self.steps_left - 1;
                assert(self@ == spent(before));
                match self.dispatch() {
                    Err(message) => {
                        let ghost after = self@.contexts;
                        self.contexts.truncate(n - 1);
                        assert(self@.contexts =~= cut(after, n - 1));
                        return Err(with_line_end(message));
                    },
                    Ok(text) => {
                        if n - 1 < self.contexts.len() {
                            self.absorb(n - 1, &text);
                        }
                    },
                }
            } else {
                let text = self.close();
                return Ok(text);
            }
        }
    }

    /// Leaves work for the host.
    pub fn ask(&mut self, word: FloatWord, operands: Vec<Types>, wide: bool)
        ensures
            done(final(self)@) == asks(old(self)@, word, values_of(operands@), wide),
    {
        self.float_task = Some(FloatTask { word: word, operands: operands, wide: wide });
    }

    /// Moves the cursor of the active context: `next` words count as passed.
    pub fn set_cursor(&mut self, next: usize)
        ensures
            final(self)@ == (EngineView {
                contexts: cursor_at(old(self)@.contexts, next as nat),
                ..old(self)@
            }),
    {
        let n = self.contexts.len();
        if n > 0 {
            self.contexts[n - 1].next = next;
            assert(final(self)@.contexts =~= cursor_at(old(self)@.contexts, next as nat));
        }
    }
}

} // verus!
