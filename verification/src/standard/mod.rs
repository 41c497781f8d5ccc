//! The standard vocabulary: its word table, what each symbol recognises, and
//! which handler each definition names.

pub mod comment_ops;
pub mod conditional_ops;
pub mod logic_ops;
pub mod loop_ops;
pub mod math_ops;
pub mod miscellaneus_ops;
pub mod stack_ops;
pub mod string_ops;
pub mod type_ops;
pub mod value_ops;
pub mod variable_ops;
pub mod word_ops;

use vstd::prelude::*;
use vstd::string::*;
use crate::arith::{Operator, Relation};
use crate::engine::{
    current_condition, current_word, done, text_result, Conditional, Engine, EngineMode,
    EngineView, Outcome,
};
use crate::number::{is_fraction, is_fraction_text};
use crate::standard::type_ops::Target;
use crate::standard::value_ops::{read_written, without_last, written_number, Written};
use crate::standard::word_ops::{find_definition, first_definition};
use crate::text::is_literal;
use crate::word::{Keyword, Word, WordDefinition, WordList, WordSymbol};

verus! {

/// Whether the word ends in the letter `low`, small or capital.
pub open spec fn ends_in(word: Seq<char>, low: char) -> bool {
    word.len() > 0 && crate::number::is_letter(word.last(), low)
}

/// Whether an entry with the given symbol recognises the current word, in
/// the state that the engine is in.
pub open spec fn recognises(symbol: WordSymbol, e: EngineView) -> bool {
    let word = current_word(e);
    let normal = e.mode == EngineMode::NORMAL;
    match symbol {
        WordSymbol::Keyword(k) => normal && word == k.spelling(),
        WordSymbol::ConditionalSkip => normal && current_condition(e) != Conditional::TakenTrue,
        WordSymbol::VariableAddress => normal && word.len() > 0 && word[0] == '@',
        WordSymbol::Defined => normal && first_definition(e.compiled_words, word, 0) is Some,
        WordSymbol::StringDelimiter => word == "\""@ && e.mode != EngineMode::COMMENT && e.mode
            != EngineMode::COMPILE && e.mode != EngineMode::SEE,
        WordSymbol::StringBody => e.mode == EngineMode::STRING,
        WordSymbol::IntLiteral => normal && written_number(Written::Int, word) is Some,
        WordSymbol::LongLiteral => normal && ends_in(word, 'l') && written_number(
            Written::Long,
            word,
        ) is Some,
        WordSymbol::FloatLiteral => normal && ends_in(word, 'f') && is_fraction_text(
            without_last(word),
        ),
        WordSymbol::DoubleLiteral => normal && is_fraction_text(word),
        WordSymbol::ByteLiteral => normal && word.len() == 4 && word[0] == '0' && word[1] == 'x',
        WordSymbol::CompileBody => e.mode == EngineMode::COMPILE && word != ";"@,
        WordSymbol::CompileEnd => e.mode == EngineMode::COMPILE && word == ";"@,
        WordSymbol::CommentBody => e.mode == EngineMode::COMMENT && word != ")"@,
        WordSymbol::CommentEnd => e.mode == EngineMode::COMMENT && word == ")"@,
    }
}

fn last_is(word: &Vec<char>, low: char) -> (b: bool)
    ensures
        b == ends_in(word@, low),
{
    let n = word.len();
    n > 0 && crate::number::letter_is(word[n - 1], low)
}

/// Whether an entry with the given symbol recognises the current word.
pub fn is_recognised(symbol: WordSymbol, s: &Engine) -> (b: bool)
    ensures
        b == recognises(symbol, s@),
{
    let empty: Vec<char> = Vec::new();
    let word: &Vec<char> = match s.current_token() {
        Some(t) => t,
        None => &empty,
    };
    let normal = s.mode_normal();
    match symbol {
        WordSymbol::Keyword(k) => normal && is_literal(word, k.text()),
        WordSymbol::ConditionalSkip => normal && conditional_ops::current_cond(s)
            != Conditional::TakenTrue,
        WordSymbol::VariableAddress => normal && word.len() > 0 && word[0] == '@',
        WordSymbol::Defined => normal && find_definition(&s.compiled_words, word).is_some(),
        WordSymbol::StringDelimiter => is_literal(word, "\"") && !s.mode_comment()
            && !s.mode_compile() && !s.mode_see(),
        WordSymbol::StringBody => s.mode_string(),
        WordSymbol::IntLiteral => normal && read_written(Written::Int, word).is_some(),
        WordSymbol::LongLiteral => normal && last_is(word, 'l') && read_written(
            Written::Long,
            word,
        ).is_some(),
        WordSymbol::FloatLiteral => {
            if normal && last_is(word, 'f') {
                assert(word@.take(word@.len() - 1) =~= without_last(word@));
                is_fraction(word, word.len() - 1)
            } else {
                false
            }
        },
        WordSymbol::DoubleLiteral => {
            assert(word@.take(word@.len() as int) =~= word@);
            normal && is_fraction(word, word.len())
        },
        WordSymbol::ByteLiteral => normal && word.len() == 4 && word[0] == '0' && word[1] == 'x',
        WordSymbol::CompileBody => s.mode_compile() && !is_literal(word, ";"),
        WordSymbol::CompileEnd => s.mode_compile() && is_literal(word, ";"),
        WordSymbol::CommentBody => s.mode_comment() && !is_literal(word, ")"),
        WordSymbol::CommentEnd => s.mode_comment() && is_literal(word, ")"),
    }
}

/// What the handler that a definition names makes of a state.
pub open spec fn invoke_spec(definition: WordDefinition, e: EngineView) -> Outcome
    decreases e.steps_left, 3int,
{
    match definition {
        WordDefinition::IfWord => conditional_ops::if_word_spec(e),
        WordDefinition::ElseWord => conditional_ops::else_word_spec(e),
        WordDefinition::ThenWord => conditional_ops::then_word_spec(e),
        WordDefinition::ConditionalSkip => done(e),
        WordDefinition::ForWord => loop_ops::for_word_spec(e),
        WordDefinition::NextWord => loop_ops::next_word_spec(e),
        WordDefinition::ByNextWord => loop_ops::bynext_word_spec(e),
        WordDefinition::WhileWord => done(e),
        WordDefinition::DoWord => loop_ops::do_word_spec(e),
        WordDefinition::AgainWord => loop_ops::again_word_spec(e),
        WordDefinition::IWord => loop_ops::i_word_spec(e),
        WordDefinition::LetWord => variable_ops::let_word_spec(e),
        WordDefinition::GetVarAddrWord => variable_ops::get_var_addr_word_spec(e),
        WordDefinition::PushWord => variable_ops::push_word_spec(e),
        WordDefinition::PopWord => variable_ops::pop_word_spec(e),
        WordDefinition::LenWord => variable_ops::len_word_spec(e),
        WordDefinition::GetFromIndexWord => variable_ops::get_from_index_word_spec(e),
        WordDefinition::SetInIndexWord => variable_ops::set_in_index_word_spec(e),
        WordDefinition::Add => math_ops::arithmetic_spec(e, Operator::Add),
        WordDefinition::Subtract => math_ops::arithmetic_spec(e, Operator::Subtract),
        WordDefinition::Multiply => math_ops::arithmetic_spec(e, Operator::Multiply),
        WordDefinition::Divide => math_ops::arithmetic_spec(e, Operator::Divide),
        WordDefinition::RemOp => math_ops::arithmetic_spec(e, Operator::Remainder),
        WordDefinition::AbsOp => math_ops::abs_op_spec(e),
        WordDefinition::Equal => logic_ops::relation_spec(e, Relation::Equal, true),
        WordDefinition::NotEqual => logic_ops::relation_spec(e, Relation::NotEqual, true),
        WordDefinition::And => logic_ops::truth_spec(e, true),
        WordDefinition::Or => logic_ops::truth_spec(e, false),
        WordDefinition::Not => logic_ops::not_spec(e),
        WordDefinition::GraterThan => logic_ops::relation_spec(e, Relation::Greater, true),
        WordDefinition::LessThan => logic_ops::relation_spec(e, Relation::Greater, false),
        WordDefinition::Dot => stack_ops::dot_spec(e),
        WordDefinition::Dup => stack_ops::dup_spec(e),
        WordDefinition::TwoDup => stack_ops::two_dup_spec(e),
        WordDefinition::DropWord => stack_ops::drop_word_spec(e),
        WordDefinition::SwapWord => stack_ops::swap_word_spec(e),
        WordDefinition::Rot => stack_ops::rot_spec(e),
        WordDefinition::Peek => stack_ops::peek_spec(e),
        WordDefinition::StartCompile => word_ops::start_compile_spec(e),
        WordDefinition::RunCompiled => word_ops::run_compiled_spec(e),
        WordDefinition::Bye => miscellaneus_ops::bye_spec(e),
        WordDefinition::Silent => miscellaneus_ops::silent_spec(e),
        WordDefinition::Input => miscellaneus_ops::input_spec(e),
        WordDefinition::Nl => miscellaneus_ops::nl_spec(e),
        WordDefinition::Emit => miscellaneus_ops::emit_spec(e),
        WordDefinition::ToInt => type_ops::conversion_spec(e, Target::Int),
        WordDefinition::ToLong => type_ops::conversion_spec(e, Target::Long),
        WordDefinition::ToFloat => type_ops::conversion_spec(e, Target::Float),
        WordDefinition::ToDouble => type_ops::conversion_spec(e, Target::Double),
        WordDefinition::ToByte => type_ops::conversion_spec(e, Target::Byte),
        WordDefinition::ToString => type_ops::conversion_spec(e, Target::Str),
        WordDefinition::StringConcat => string_ops::string_concat_spec(e),
        WordDefinition::StringSplit => string_ops::string_split_spec(e),
        WordDefinition::StringSplitWhitespace => string_ops::string_split_whitespace_spec(e),
        WordDefinition::StringModeToggle => string_ops::string_mode_toggle_spec(e),
        WordDefinition::StringCreation => string_ops::string_creation_spec(e),
        WordDefinition::IntNumber => value_ops::number_spec(e, Written::Int),
        WordDefinition::LongNumber => value_ops::number_spec(e, Written::Long),
        WordDefinition::FloatNumber => value_ops::float_number_spec(e),
        WordDefinition::DoubleNumber => value_ops::double_number_spec(e),
        WordDefinition::ByteNumber => value_ops::number_spec(e, Written::Byte),
        WordDefinition::Compile => word_ops::compile_spec(e),
        WordDefinition::EndCompile => word_ops::end_compile_spec(e),
        WordDefinition::CommentToggle => comment_ops::comment_toggle_spec(e),
    }
}

/// Every handler keeps what [`crate::engine::handler_keeps`] says.
pub proof fn lemma_invoke_keeps(definition: WordDefinition, e: EngineView)
    ensures
        crate::engine::handler_keeps(e, invoke_spec(definition, e)),
    decreases e.steps_left, 3int,
{
    if definition == WordDefinition::RunCompiled {
        word_ops::lemma_run_compiled_keeps(e);
    } else {
        conditional_ops::lemma_handlers_keep(e);
        loop_ops::lemma_handlers_keep(e);
        variable_ops::lemma_handlers_keep(e);
        math_ops::lemma_handlers_keep(e);
        logic_ops::lemma_handlers_keep(e);
        stack_ops::lemma_handlers_keep(e);
        word_ops::lemma_handlers_keep(e);
        miscellaneus_ops::lemma_handlers_keep(e);
        type_ops::lemma_handlers_keep(e);
        string_ops::lemma_handlers_keep(e);
        value_ops::lemma_handlers_keep(e);
        comment_ops::lemma_handlers_keep(e);
    }
}

/// Runs the handler that a definition names.
pub fn invoke(definition: WordDefinition, s: &mut Engine) -> (r: Result<String, String>)
    ensures
        (final(s)@, text_result(r)) == invoke_spec(definition, old(s)@),
        final(s).steps_left <= old(s).steps_left,
    decreases old(s).steps_left, 3int,
{
    match definition {
        WordDefinition::IfWord => conditional_ops::if_word(s),
        WordDefinition::ElseWord => conditional_ops::else_word(s),
        WordDefinition::ThenWord => conditional_ops::then_word(s),
        WordDefinition::ConditionalSkip => conditional_ops::conditional_skip(s),
        WordDefinition::ForWord => loop_ops::for_word(s),
        WordDefinition::NextWord => loop_ops::next_word(s),
        WordDefinition::ByNextWord => loop_ops::bynext_word(s),
        WordDefinition::WhileWord => loop_ops::while_word(s),
        WordDefinition::DoWord => loop_ops::do_word(s),
        WordDefinition::AgainWord => loop_ops::again_word(s),
        WordDefinition::IWord => loop_ops::i_word(s),
        WordDefinition::LetWord => variable_ops::let_word(s),
        WordDefinition::GetVarAddrWord => variable_ops::get_var_addr_word(s),
        WordDefinition::PushWord => variable_ops::push_word(s),
        WordDefinition::PopWord => variable_ops::pop_word(s),
        WordDefinition::LenWord => variable_ops::len_word(s),
        WordDefinition::GetFromIndexWord => variable_ops::get_from_index_word(s),
        WordDefinition::SetInIndexWord => variable_ops::set_in_index_word(s),
        WordDefinition::Add => math_ops::add(s),
        WordDefinition::Subtract => math_ops::subtract(s),
        WordDefinition::Multiply => math_ops::multiply(s),
        WordDefinition::Divide => math_ops::divide(s),
        WordDefinition::RemOp => math_ops::rem_op(s),
        WordDefinition::AbsOp => math_ops::abs_op(s),
        WordDefinition::Equal => logic_ops::equal(s),
        WordDefinition::NotEqual => logic_ops::not_equal(s),
        WordDefinition::And => logic_ops::and(s),
        WordDefinition::Or => logic_ops::or(s),
        WordDefinition::Not => logic_ops::not(s),
        WordDefinition::GraterThan => logic_ops::grater_than(s),
        WordDefinition::LessThan => logic_ops::less_than(s),
        WordDefinition::Dot => stack_ops::dot(s),
        WordDefinition::Dup => stack_ops::dup(s),
        WordDefinition::TwoDup => stack_ops::two_dup(s),
        WordDefinition::DropWord => stack_ops::drop_word(s),
        WordDefinition::SwapWord => stack_ops::swap_word(s),
        WordDefinition::Rot => stack_ops::rot(s),
        WordDefinition::Peek => stack_ops::peek(s),
        WordDefinition::StartCompile => word_ops::start_compile(s),
        WordDefinition::RunCompiled => word_ops::run_compiled(s),
        WordDefinition::Bye => miscellaneus_ops::bye(s),
        WordDefinition::Silent => miscellaneus_ops::silent(s),
        WordDefinition::Input => miscellaneus_ops::input(s),
        WordDefinition::Nl => miscellaneus_ops::nl(s),
        WordDefinition::Emit => miscellaneus_ops::emit(s),
        WordDefinition::ToInt => type_ops::to_int(s),
        WordDefinition::ToLong => type_ops::to_long(s),
        WordDefinition::ToFloat => type_ops::to_float(s),
        WordDefinition::ToDouble => type_ops::to_double(s),
        WordDefinition::ToByte => type_ops::to_byte(s),
        WordDefinition::ToString => type_ops::to_string(s),
        WordDefinition::StringConcat => string_ops::string_concat(s),
        WordDefinition::StringSplit => string_ops::string_split(s),
        WordDefinition::StringSplitWhitespace => string_ops::string_split_whitespace(s),
        WordDefinition::StringModeToggle => string_ops::string_mode_toggle(s),
        WordDefinition::StringCreation => string_ops::string_creation(s),
        WordDefinition::IntNumber => value_ops::int_number(s),
        WordDefinition::LongNumber => value_ops::long_number(s),
        WordDefinition::FloatNumber => value_ops::float_number(s),
        WordDefinition::DoubleNumber => value_ops::double_number(s),
        WordDefinition::ByteNumber => value_ops::byte_number(s),
        WordDefinition::Compile => word_ops::compile(s),
        WordDefinition::EndCompile => word_ops::end_compile(s),
        WordDefinition::CommentToggle => comment_ops::comment_toggle(s),
    }
}

/// The standard word table.
///
/// The words of a conditional come first, and the skipping of a branch that
/// is not taken comes before every other word. A stored definition comes
/// before the words from `bye` on, and before the numbers: a definition
/// whose text begins with one of those takes its place.
pub open spec fn standard_words() -> Seq<Word> {
    seq![
        (WordSymbol::Keyword(Keyword::If), WordDefinition::IfWord),
        (WordSymbol::Keyword(Keyword::Else), WordDefinition::ElseWord),
        (WordSymbol::Keyword(Keyword::Then), WordDefinition::ThenWord),
        (WordSymbol::ConditionalSkip, WordDefinition::ConditionalSkip),
        (WordSymbol::Keyword(Keyword::For), WordDefinition::ForWord),
        (WordSymbol::Keyword(Keyword::Next), WordDefinition::NextWord),
        (WordSymbol::Keyword(Keyword::ByNext), WordDefinition::ByNextWord),
        (WordSymbol::Keyword(Keyword::While), WordDefinition::WhileWord),
        (WordSymbol::Keyword(Keyword::Do), WordDefinition::DoWord),
        (WordSymbol::Keyword(Keyword::Again), WordDefinition::AgainWord),
        (WordSymbol::Keyword(Keyword::I), WordDefinition::IWord),
        (WordSymbol::Keyword(Keyword::Let), WordDefinition::LetWord),
        (WordSymbol::VariableAddress, WordDefinition::GetVarAddrWord),
        (WordSymbol::Keyword(Keyword::Push), WordDefinition::PushWord),
        (WordSymbol::Keyword(Keyword::Pop), WordDefinition::PopWord),
        (WordSymbol::Keyword(Keyword::Len), WordDefinition::LenWord),
        (WordSymbol::Keyword(Keyword::GetItem), WordDefinition::GetFromIndexWord),
        (WordSymbol::Keyword(Keyword::SetItem), WordDefinition::SetInIndexWord),
        (WordSymbol::Keyword(Keyword::Plus), WordDefinition::Add),
        (WordSymbol::Keyword(Keyword::Minus), WordDefinition::Subtract),
        (WordSymbol::Keyword(Keyword::Star), WordDefinition::Multiply),
        (WordSymbol::Keyword(Keyword::Slash), WordDefinition::Divide),
        (WordSymbol::Keyword(Keyword::Percent), WordDefinition::RemOp),
        (WordSymbol::Keyword(Keyword::Abs), WordDefinition::AbsOp),
        (WordSymbol::Keyword(Keyword::Equal), WordDefinition::Equal),
        (WordSymbol::Keyword(Keyword::NotEqual), WordDefinition::NotEqual),
        (WordSymbol::Keyword(Keyword::And), WordDefinition::And),
        (WordSymbol::Keyword(Keyword::Or), WordDefinition::Or),
        (WordSymbol::Keyword(Keyword::Not), WordDefinition::Not),
        (WordSymbol::Keyword(Keyword::Greater), WordDefinition::GraterThan),
        (WordSymbol::Keyword(Keyword::Less), WordDefinition::LessThan),
        (WordSymbol::Keyword(Keyword::Dot), WordDefinition::Dot),
        (WordSymbol::Keyword(Keyword::Dup), WordDefinition::Dup),
        (WordSymbol::Keyword(Keyword::TwoDup), WordDefinition::TwoDup),
        (WordSymbol::Keyword(Keyword::Drop), WordDefinition::DropWord),
        (WordSymbol::Keyword(Keyword::Swap), WordDefinition::SwapWord),
        (WordSymbol::Keyword(Keyword::Rot), WordDefinition::Rot),
        (WordSymbol::Keyword(Keyword::Peek), WordDefinition::Peek),
        (WordSymbol::Keyword(Keyword::Colon), WordDefinition::StartCompile),
        (WordSymbol::Defined, WordDefinition::RunCompiled),
        (WordSymbol::Keyword(Keyword::Bye), WordDefinition::Bye),
        (WordSymbol::Keyword(Keyword::Silent), WordDefinition::Silent),
        (WordSymbol::Keyword(Keyword::Input), WordDefinition::Input),
        (WordSymbol::Keyword(Keyword::Nl), WordDefinition::Nl),
        (WordSymbol::Keyword(Keyword::Emit), WordDefinition::Emit),
        (WordSymbol::Keyword(Keyword::ToInt), WordDefinition::ToInt),
        (WordSymbol::Keyword(Keyword::ToLong), WordDefinition::ToLong),
        (WordSymbol::Keyword(Keyword::ToFloat), WordDefinition::ToFloat),
        (WordSymbol::Keyword(Keyword::ToDouble), WordDefinition::ToDouble),
        (WordSymbol::Keyword(Keyword::ToByte), WordDefinition::ToByte),
        (WordSymbol::Keyword(Keyword::ToStr), WordDefinition::ToString),
        (WordSymbol::Keyword(Keyword::Concat), WordDefinition::StringConcat),
        (WordSymbol::Keyword(Keyword::Split), WordDefinition::StringSplit),
        (WordSymbol::Keyword(Keyword::Wsplit), WordDefinition::StringSplitWhitespace),
        (WordSymbol::StringDelimiter, WordDefinition::StringModeToggle),
        (WordSymbol::StringBody, WordDefinition::StringCreation),
        (WordSymbol::IntLiteral, WordDefinition::IntNumber),
        (WordSymbol::LongLiteral, WordDefinition::LongNumber),
        (WordSymbol::FloatLiteral, WordDefinition::FloatNumber),
        (WordSymbol::DoubleLiteral, WordDefinition::DoubleNumber),
        (WordSymbol::ByteLiteral, WordDefinition::ByteNumber),
        (WordSymbol::CompileBody, WordDefinition::Compile),
        (WordSymbol::CompileEnd, WordDefinition::EndCompile),
        (WordSymbol::Keyword(Keyword::CommentStart), WordDefinition::CommentToggle),
        (WordSymbol::CommentBody, WordDefinition::ConditionalSkip),
        (WordSymbol::CommentEnd, WordDefinition::CommentToggle),
    ]
}

/// With the standard words, a word in a branch that is not taken has no
/// effect: the cursor passes it and nothing else changes. The words that
/// open, turn and close a conditional are the exception.
pub proof fn lemma_untaken_branch_is_skipped(e: EngineView)
    requires
        e.words == standard_words(),
        e.contexts.len() > 0,
        e.mode == EngineMode::NORMAL,
        current_condition(e) != Conditional::TakenTrue,
        current_word(crate::engine::advanced(e)) != "if"@,
        current_word(crate::engine::advanced(e)) != "else"@,
        current_word(crate::engine::advanced(e)) != "then"@,
    ensures
        crate::engine::dispatch_spec(e) == done(crate::engine::advanced(e)),
{
    let at = crate::engine::advanced(e);
    reveal_with_fuel(crate::engine::first_recognising, 5);
    assert(at.words[0] == (WordSymbol::Keyword(Keyword::If), WordDefinition::IfWord));
    assert(at.words[1] == (WordSymbol::Keyword(Keyword::Else), WordDefinition::ElseWord));
    assert(at.words[2] == (WordSymbol::Keyword(Keyword::Then), WordDefinition::ThenWord));
    assert(at.words[3] == (WordSymbol::ConditionalSkip, WordDefinition::ConditionalSkip));
    assert(crate::engine::first_recognising(at.words, at, 0) == Some(3int));
}

/// The symbols are partitioned by mode: while a definition is compiled
/// only the two entries of compile mode recognise a word, in a comment only
/// the two of comment mode, and in a text only the quote and the entry that
/// takes every word. No symbol recognises anything in the mode that shows
/// definitions.
pub proof fn lemma_symbols_keep_to_their_mode(symbol: WordSymbol, e: EngineView)
    requires
        recognises(symbol, e),
    ensures
        e.mode == EngineMode::COMPILE ==> symbol == WordSymbol::CompileBody || symbol
            == WordSymbol::CompileEnd,
        e.mode == EngineMode::COMMENT ==> symbol == WordSymbol::CommentBody || symbol
            == WordSymbol::CommentEnd,
        e.mode == EngineMode::STRING ==> symbol == WordSymbol::StringDelimiter || symbol
            == WordSymbol::StringBody,
        e.mode != EngineMode::SEE,
{
}

/// With the standard words, a word that is read while a definition is
/// compiled is appended to the definition, and `;` ends the definition:
/// nothing else happens in compile mode.
pub proof fn lemma_compile_mode_compiles(e: EngineView)
    requires
        e.words == standard_words(),
        e.mode == EngineMode::COMPILE,
    ensures
        crate::engine::dispatch_spec(e) == if current_word(crate::engine::advanced(e)) == ";"@ {
            word_ops::end_compile_spec(crate::engine::advanced(e))
        } else {
            word_ops::compile_spec(crate::engine::advanced(e))
        },
{
    let at = crate::engine::advanced(e);
    assert(at.mode == EngineMode::COMPILE);
    assert forall|i: int| 0 <= i < 61 implies !recognises(#[trigger] at.words[i].0, at) by {
        if recognises(at.words[i].0, at) {
            lemma_symbols_keep_to_their_mode(at.words[i].0, at);
        }
    }
    lemma_first_recognising_skips(at.words, at, 0, 61);
    reveal_with_fuel(crate::engine::first_recognising, 3);
    assert(at.words[61] == (WordSymbol::CompileBody, WordDefinition::Compile));
    assert(at.words[62] == (WordSymbol::CompileEnd, WordDefinition::EndCompile));
}

/// Entries that do not recognise the current word are passed over.
pub proof fn lemma_first_recognising_skips(words: Seq<Word>, e: EngineView, from: int, to: int)
    requires
        0 <= from <= to <= words.len(),
        forall|i: int| from <= i < to ==> !recognises(#[trigger] words[i].0, e),
    ensures
        crate::engine::first_recognising(words, e, from) == crate::engine::first_recognising(
            words,
            e,
            to,
        ),
    decreases to - from,
{
    if from < to {
        lemma_first_recognising_skips(words, e, from + 1, to);
    }
}

/// The standard vocabulary.
pub struct Standard {
    words: Vec<Word>,
}

impl Standard {
    /// The table that the vocabulary holds.
    pub closed spec fn table(&self) -> Seq<Word> {
        self.words@
    }
}

impl WordList for Standard {
    fn new() -> (r: Standard)
        ensures
            r.table() == standard_words(),
    {
        let words: Vec<Word> = vec![
            (WordSymbol::Keyword(Keyword::If), WordDefinition::IfWord),
            (WordSymbol::Keyword(Keyword::Else), WordDefinition::ElseWord),
            (WordSymbol::Keyword(Keyword::Then), WordDefinition::ThenWord),
            (WordSymbol::ConditionalSkip, WordDefinition::ConditionalSkip),
            (WordSymbol::Keyword(Keyword::For), WordDefinition::ForWord),
            (WordSymbol::Keyword(Keyword::Next), WordDefinition::NextWord),
            (WordSymbol::Keyword(Keyword::ByNext), WordDefinition::ByNextWord),
            (WordSymbol::Keyword(Keyword::While), WordDefinition::WhileWord),
            (WordSymbol::Keyword(Keyword::Do), WordDefinition::DoWord),
            (WordSymbol::Keyword(Keyword::Again), WordDefinition::AgainWord),
            (WordSymbol::Keyword(Keyword::I), WordDefinition::IWord),
            (WordSymbol::Keyword(Keyword::Let), WordDefinition::LetWord),
            (WordSymbol::VariableAddress, WordDefinition::GetVarAddrWord),
            (WordSymbol::Keyword(Keyword::Push), WordDefinition::PushWord),
            (WordSymbol::Keyword(Keyword::Pop), WordDefinition::PopWord),
            (WordSymbol::Keyword(Keyword::Len), WordDefinition::LenWord),
            (WordSymbol::Keyword(Keyword::GetItem), WordDefinition::GetFromIndexWord),
            (WordSymbol::Keyword(Keyword::SetItem), WordDefinition::SetInIndexWord),
            (WordSymbol::Keyword(Keyword::Plus), WordDefinition::Add),
            (WordSymbol::Keyword(Keyword::Minus), WordDefinition::Subtract),
            (WordSymbol::Keyword(Keyword::Star), WordDefinition::Multiply),
            (WordSymbol::Keyword(Keyword::Slash), WordDefinition::Divide),
            (WordSymbol::Keyword(Keyword::Percent), WordDefinition::RemOp),
            (WordSymbol::Keyword(Keyword::Abs), WordDefinition::AbsOp),
            (WordSymbol::Keyword(Keyword::Equal), WordDefinition::Equal),
            (WordSymbol::Keyword(Keyword::NotEqual), WordDefinition::NotEqual),
            (WordSymbol::Keyword(Keyword::And), WordDefinition::And),
            (WordSymbol::Keyword(Keyword::Or), WordDefinition::Or),
            (WordSymbol::Keyword(Keyword::Not), WordDefinition::Not),
            (WordSymbol::Keyword(Keyword::Greater), WordDefinition::GraterThan),
            (WordSymbol::Keyword(Keyword::Less), WordDefinition::LessThan),
            (WordSymbol::Keyword(Keyword::Dot), WordDefinition::Dot),
            (WordSymbol::Keyword(Keyword::Dup), WordDefinition::Dup),
            (WordSymbol::Keyword(Keyword::TwoDup), WordDefinition::TwoDup),
            (WordSymbol::Keyword(Keyword::Drop), WordDefinition::DropWord),
            (WordSymbol::Keyword(Keyword::Swap), WordDefinition::SwapWord),
            (WordSymbol::Keyword(Keyword::Rot), WordDefinition::Rot),
            (WordSymbol::Keyword(Keyword::Peek), WordDefinition::Peek),
            (WordSymbol::Keyword(Keyword::Colon), WordDefinition::StartCompile),
            (WordSymbol::Defined, WordDefinition::RunCompiled),
            (WordSymbol::Keyword(Keyword::Bye), WordDefinition::Bye),
            (WordSymbol::Keyword(Keyword::Silent), WordDefinition::Silent),
            (WordSymbol::Keyword(Keyword::Input), WordDefinition::Input),
            (WordSymbol::Keyword(Keyword::Nl), WordDefinition::Nl),
            (WordSymbol::Keyword(Keyword::Emit), WordDefinition::Emit),
            (WordSymbol::Keyword(Keyword::ToInt), WordDefinition::ToInt),
            (WordSymbol::Keyword(Keyword::ToLong), WordDefinition::ToLong),
            (WordSymbol::Keyword(Keyword::ToFloat), WordDefinition::ToFloat),
            (WordSymbol::Keyword(Keyword::ToDouble), WordDefinition::ToDouble),
            (WordSymbol::Keyword(Keyword::ToByte), WordDefinition::ToByte),
            (WordSymbol::Keyword(Keyword::ToStr), WordDefinition::ToString),
            (WordSymbol::Keyword(Keyword::Concat), WordDefinition::StringConcat),
            (WordSymbol::Keyword(Keyword::Split), WordDefinition::StringSplit),
            (WordSymbol::Keyword(Keyword::Wsplit), WordDefinition::StringSplitWhitespace),
            (WordSymbol::StringDelimiter, WordDefinition::StringModeToggle),
            (WordSymbol::StringBody, WordDefinition::StringCreation),
            (WordSymbol::IntLiteral, WordDefinition::IntNumber),
            (WordSymbol::LongLiteral, WordDefinition::LongNumber),
            (WordSymbol::FloatLiteral, WordDefinition::FloatNumber),
            (WordSymbol::DoubleLiteral, WordDefinition::DoubleNumber),
            (WordSymbol::ByteLiteral, WordDefinition::ByteNumber),
            (WordSymbol::CompileBody, WordDefinition::Compile),
            (WordSymbol::CompileEnd, WordDefinition::EndCompile),
            (WordSymbol::Keyword(Keyword::CommentStart), WordDefinition::CommentToggle),
            (WordSymbol::CommentBody, WordDefinition::ConditionalSkip),
            (WordSymbol::CommentEnd, WordDefinition::CommentToggle),
        ];
        assert(words@ =~= standard_words());
        Standard { words: words }
    }

    fn get_words(&self) -> (r: Vec<Word>)
        ensures
            r@ == self.table(),
    {
        let mut out: Vec<Word> = Vec::new();
        let mut i: usize = 0;
        while i < self.words.len()
            invariant
                i <= self.words.len(),
                out@ == self.words@.take(i as int),
            decreases self.words.len() - i,
        {
            out.push(self.words[i]);
            assert(self.words@.take(i + 1) =~= self.words@.take(i as int).push(self.words@[i as int]));
            i += 1;
        }
        assert(self.words@.take(self.words.len() as int) =~= self.words@);
        out
    }
}

} // verus!
