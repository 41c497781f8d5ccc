//! The vocabulary: which words there are, and how a word table is made.
//!
//! A word table is an ordered list of pairs: a symbol, which says when the
//! entry recognises the current word, and a definition, which names the
//! handler that then runs. The first entry that recognises a word handles it,
//! so the order of a table is part of its meaning.

use vstd::prelude::*;

verus! {

/// The words that are recognised by their spelling.
#[derive(Clone, Copy, Debug, PartialEq, Eq, Structural)]
pub enum Keyword {
    If,
    Else,
    Then,
    For,
    Next,
    ByNext,
    While,
    Do,
    Again,
    I,
    Let,
    Push,
    Pop,
    Len,
    GetItem,
    SetItem,
    Plus,
    Minus,
    Star,
    Slash,
    Percent,
    Abs,
    Equal,
    NotEqual,
    And,
    Or,
    Not,
    Greater,
    Less,
    Dot,
    Dup,
    TwoDup,
    Drop,
    Swap,
    Rot,
    Peek,
    Colon,
    Bye,
    Silent,
    Input,
    Nl,
    Emit,
    ToInt,
    ToLong,
    ToFloat,
    ToDouble,
    ToByte,
    ToStr,
    Concat,
    Split,
    Wsplit,
    CommentStart,
}

impl Keyword {
    /// How the keyword is spelled.
    pub open spec fn spelling(self) -> Seq<char> {
        match self {
            Keyword::If => "if"@,
            Keyword::Else => "else"@,
            Keyword::Then => "then"@,
            Keyword::For => "for"@,
            Keyword::Next => "next"@,
            Keyword::ByNext => "bynext"@,
            Keyword::While => "while"@,
            Keyword::Do => "do"@,
            Keyword::Again => "again"@,
            Keyword::I => "i"@,
            Keyword::Let => "let"@,
            Keyword::Push => "push"@,
            Keyword::Pop => "pop"@,
            Keyword::Len => "len"@,
            Keyword::GetItem => "get"@,
            Keyword::SetItem => "set"@,
            Keyword::Plus => "+"@,
            Keyword::Minus => "-"@,
            Keyword::Star => "*"@,
            Keyword::Slash => "/"@,
            Keyword::Percent => "%"@,
            Keyword::Abs => "abs"@,
            Keyword::Equal => "=="@,
            Keyword::NotEqual => "!="@,
            Keyword::And => "and"@,
            Keyword::Or => "or"@,
            Keyword::Not => "not"@,
            Keyword::Greater => ">"@,
            Keyword::Less => "<"@,
            Keyword::Dot => "."@,
            Keyword::Dup => "dup"@,
            Keyword::TwoDup => "2dup"@,
            Keyword::Drop => "drop"@,
            Keyword::Swap => "swap"@,
            Keyword::Rot => "rot"@,
            Keyword::Peek => "peek"@,
            Keyword::Colon => ":"@,
            Keyword::Bye => "bye"@,
            Keyword::Silent => "silent"@,
            Keyword::Input => "input"@,
            Keyword::Nl => "nl"@,
            Keyword::Emit => "emit"@,
            Keyword::ToInt => "to_int"@,
            Keyword::ToLong => "to_long"@,
            Keyword::ToFloat => "to_float"@,
            Keyword::ToDouble => "to_double"@,
            Keyword::ToByte => "to_byte"@,
            Keyword::ToStr => "to_str"@,
            Keyword::Concat => "concat"@,
            Keyword::Split => "split"@,
            Keyword::Wsplit => "wsplit"@,
            Keyword::CommentStart => "("@,
        }
    }

    /// How the keyword is spelled.
    pub fn text(self) -> (r: &'static str)
        ensures
            r@ == self.spelling(),
    {
        match self {
            Keyword::If => "if",
            Keyword::Else => "else",
            Keyword::Then => "then",
            Keyword::For => "for",
            Keyword::Next => "next",
            Keyword::ByNext => "bynext",
            Keyword::While => "while",
            Keyword::Do => "do",
            Keyword::Again => "again",
            Keyword::I => "i",
            Keyword::Let => "let",
            Keyword::Push => "push",
            Keyword::Pop => "pop",
            Keyword::Len => "len",
            Keyword::GetItem => "get",
            Keyword::SetItem => "set",
            Keyword::Plus => "+",
            Keyword::Minus => "-",
            Keyword::Star => "*",
            Keyword::Slash => "/",
            Keyword::Percent => "%",
            Keyword::Abs => "abs",
            Keyword::Equal => "==",
            Keyword::NotEqual => "!=",
            Keyword::And => "and",
            Keyword::Or => "or",
            Keyword::Not => "not",
            Keyword::Greater => ">",
            Keyword::Less => "<",
            Keyword::Dot => ".",
            Keyword::Dup => "dup",
            Keyword::TwoDup => "2dup",
            Keyword::Drop => "drop",
            Keyword::Swap => "swap",
            Keyword::Rot => "rot",
            Keyword::Peek => "peek",
            Keyword::Colon => ":",
            Keyword::Bye => "bye",
            Keyword::Silent => "silent",
            Keyword::Input => "input",
            Keyword::Nl => "nl",
            Keyword::Emit => "emit",
            Keyword::ToInt => "to_int",
            Keyword::ToLong => "to_long",
            Keyword::ToFloat => "to_float",
            Keyword::ToDouble => "to_double",
            Keyword::ToByte => "to_byte",
            Keyword::ToStr => "to_str",
            Keyword::Concat => "concat",
            Keyword::Split => "split",
            Keyword::Wsplit => "wsplit",
            Keyword::CommentStart => "(",
        }
    }
}

/// When an entry of a word table recognises the current word. What each
/// symbol asks of the word and of the engine is stated by
/// [`crate::standard::recognises`].
#[derive(Clone, Copy, Debug, PartialEq, Eq, Structural)]
pub enum WordSymbol {
    /// The word is the keyword, in normal mode.
    Keyword(Keyword),
    /// Normal mode, inside a branch that is not taken.
    ConditionalSkip,
    /// The word begins with `@`, in normal mode.
    VariableAddress,
    /// A stored definition begins with the word, in normal mode.
    Defined,
    /// The word is the quote, outside definitions and comments.
    StringDelimiter,
    /// Any word in string mode.
    StringBody,
    /// The word writes an int, in normal mode.
    IntLiteral,
    /// The word writes a long, in normal mode.
    LongLiteral,
    /// The word writes a float, in normal mode.
    FloatLiteral,
    /// The word writes a double, in normal mode.
    DoubleLiteral,
    /// The word has the shape of a byte, in normal mode.
    ByteLiteral,
    /// Any word but `;` in compile mode.
    CompileBody,
    /// `;` in compile mode.
    CompileEnd,
    /// Any word but `)` in comment mode.
    CommentBody,
    /// `)` in comment mode.
    CommentEnd,
}

/// The handlers, by name. [`crate::standard::invoke`] runs one.
#[derive(Clone, Copy, Debug, PartialEq, Eq, Structural)]
pub enum WordDefinition {
    IfWord,
    ElseWord,
    ThenWord,
    ConditionalSkip,
    ForWord,
    NextWord,
    ByNextWord,
    WhileWord,
    DoWord,
    AgainWord,
    IWord,
    LetWord,
    GetVarAddrWord,
    PushWord,
    PopWord,
    LenWord,
    GetFromIndexWord,
    SetInIndexWord,
    Add,
    Subtract,
    Multiply,
    Divide,
    RemOp,
    AbsOp,
    Equal,
    NotEqual,
    And,
    Or,
    Not,
    GraterThan,
    LessThan,
    Dot,
    Dup,
    TwoDup,
    DropWord,
    SwapWord,
    Rot,
    Peek,
    StartCompile,
    RunCompiled,
    Bye,
    Silent,
    Input,
    Nl,
    Emit,
    ToInt,
    ToLong,
    ToFloat,
    ToDouble,
    ToByte,
    ToString,
    StringConcat,
    StringSplit,
    StringSplitWhitespace,
    StringModeToggle,
    StringCreation,
    IntNumber,
    LongNumber,
    FloatNumber,
    DoubleNumber,
    ByteNumber,
    Compile,
    EndCompile,
    CommentToggle,
}

/// One entry of a word table.
pub type Word = (WordSymbol, WordDefinition);

/// A vocabulary that an engine can import.
pub trait WordList: Sized {
    fn new() -> Self;

    /// The entries of the vocabulary, in the order in which they are tried.
    fn get_words(&self) -> Vec<Word>;
}

} // verus!
