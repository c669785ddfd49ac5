use vstd::prelude::*;
use crate::input_system::{DoubleBuffer, Scan, at_end};
use crate::symbol_table::{SymbolTable, interned, well_keyed};
use crate::token::{Category, Token, plain};

verus! {

pub const NEWLINE: u8 = 10;
pub const SPACE: u8 = 32;
pub const DOUBLE_QUOTE: u8 = 34;
pub const HASH: u8 = 35;
pub const SINGLE_QUOTE: u8 = 39;
pub const OPEN_PAREN: u8 = 40;
pub const CLOSE_PAREN: u8 = 41;
pub const STAR: u8 = 42;
pub const PLUS: u8 = 43;
pub const COMMA: u8 = 44;
pub const MINUS: u8 = 45;
pub const DOT: u8 = 46;
pub const SLASH: u8 = 47;
pub const DIGIT_ZERO: u8 = 48;
pub const DIGIT_ONE: u8 = 49;
pub const DIGIT_NINE: u8 = 57;
pub const COLON: u8 = 58;
pub const LESS: u8 = 60;
pub const EQUAL: u8 = 61;
pub const GREATER: u8 = 62;
pub const UPPER_A: u8 = 65;
pub const UPPER_E: u8 = 69;
pub const UPPER_X: u8 = 88;
pub const UPPER_Z: u8 = 90;
pub const OPEN_BRACKET: u8 = 91;
pub const CLOSE_BRACKET: u8 = 93;
pub const UNDERSCORE: u8 = 95;
pub const LOWER_A: u8 = 97;
pub const LOWER_E: u8 = 101;
pub const LOWER_X: u8 = 120;
pub const LOWER_Z: u8 = 122;
pub const OPEN_BRACE: u8 = 123;
pub const CLOSE_BRACE: u8 = 125;

/// The class of one input byte, as the automaton sees it.
#[derive(Clone, Copy, PartialEq, Eq, Structural, Debug)]
pub enum Event {
    Letter,
    HexMark,
    Exponent,
    Zero,
    NonZeroDigit,
    Underscore,
    Hash,
    NewLine,
    SingleQuote,
    DoubleQuote,
    Plus,
    Minus,
    Star,
    Slash,
    Less,
    Greater,
    OpenParen,
    CloseParen,
    OpenBracket,
    CloseBracket,
    OpenBrace,
    CloseBrace,
    Comma,
    Colon,
    Dot,
    Equal,
    Space,
    Other,
}

#[derive(Clone, Copy, PartialEq, Eq, Structural, Debug)]
pub enum CommentState {
    /// Right after the `#`.
    Open,
    /// Inside the comment's text.
    Body,
}

#[derive(Clone, Copy, PartialEq, Eq, Structural, Debug)]
pub enum StringState {
    SingleOpen,
    SingleBody,
    DoubleOpen,
    DoubleBody,
    /// Two double quotes read: only a third one may follow.
    DoubleSecond,
}

/// Inside a `"""` block, which is dropped like a comment.
#[derive(Clone, Copy, PartialEq, Eq, Structural, Debug)]
pub enum DocState {
    Body,
    Close1,
    Close2,
}

#[derive(Clone, Copy, PartialEq, Eq, Structural, Debug)]
pub enum IntegerState {
    Decimal,
    LeadingZero,
    Hex,
}

#[derive(Clone, Copy, PartialEq, Eq, Structural, Debug)]
pub enum FloatState {
    /// Digits and a dot read.
    AfterDot,
    /// A dot read first.
    DotStart,
    /// Reading the digits after a dot or an exponent.
    Fraction,
    Exponent,
    ExponentSign,
}

#[derive(Clone, Copy, PartialEq, Eq, Structural, Debug)]
pub enum OperatorState {
    PlusMinus,
    Star,
    Less,
}

/// The state of the automaton: the category being read and its phase.
#[derive(Clone, Copy, PartialEq, Eq, Structural, Debug)]
pub enum State {
    Init,
    Id,
    Comment(CommentState),
    Str(StringState),
    Doc(DocState),
    Integer(IntegerState),
    Float(FloatState),
    Operator(OperatorState),
    /// A `=` read: a delimiter, or the start of `==`.
    Equal,
}

/// The classes of lexical error.
#[derive(Clone, Copy, PartialEq, Eq, Structural, Debug)]
pub enum ErrorKind {
    MalformedComment,
    MalformedQuote,
    MalformedFloat,
    TruncatedToken,
    /// A lexeme outgrew the scanning window.
    LexemeTooLong,
}

/// A lexical error and the line on which it was found.
#[derive(Clone, Copy, PartialEq, Eq, Structural, Debug)]
pub struct LexError {
    pub kind: ErrorKind,
    pub line: usize,
}

/// What the automaton does with the byte it has just read.
#[derive(Clone, Copy, PartialEq, Eq, Structural, Debug)]
pub enum Action {
    /// The byte belongs to the lexeme being read.
    Continue,
    /// The bytes read so far belong to no token and are dropped.
    Discard,
    /// The lexeme ends with this byte.
    Emit(Category),
    /// The lexeme ended before this byte, which is given back.
    EmitBack(Category),
    Fail(ErrorKind),
}

/// The class of byte `c`.
pub open spec fn event_of(c: u8) -> Event {
    if c == LOWER_E || c == UPPER_E {
        Event::Exponent
    } else if c == LOWER_X || c == UPPER_X {
        Event::HexMark
    } else if (UPPER_A <= c && c <= UPPER_Z) || (LOWER_A <= c && c <= LOWER_Z) {
        Event::Letter
    } else if c == DIGIT_ZERO {
        Event::Zero
    } else if DIGIT_ONE <= c && c <= DIGIT_NINE {
        Event::NonZeroDigit
    } else if c == UNDERSCORE {
        Event::Underscore
    } else if c == HASH {
        Event::Hash
    } else if c == NEWLINE {
        Event::NewLine
    } else if c == SINGLE_QUOTE {
        Event::SingleQuote
    } else if c == DOUBLE_QUOTE {
        Event::DoubleQuote
    } else if c == PLUS {
        Event::Plus
    } else if c == MINUS {
        Event::Minus
    } else if c == STAR {
        Event::Star
    } else if c == SLASH {
        Event::Slash
    } else if c == LESS {
        Event::Less
    } else if c == GREATER {
        Event::Greater
    } else if c == OPEN_PAREN {
        Event::OpenParen
    } else if c == CLOSE_PAREN {
        Event::CloseParen
    } else if c == OPEN_BRACKET {
        Event::OpenBracket
    } else if c == CLOSE_BRACKET {
        Event::CloseBracket
    } else if c == OPEN_BRACE {
        Event::OpenBrace
    } else if c == CLOSE_BRACE {
        Event::CloseBrace
    } else if c == COMMA {
        Event::Comma
    } else if c == COLON {
        Event::Colon
    } else if c == DOT {
        Event::Dot
    } else if c == EQUAL {
        Event::Equal
    } else if c == SPACE {
        Event::Space
    } else {
        Event::Other
    }
}

/// Computes the class of byte `c`.
pub fn classify(c: u8) -> (r: Event)
    ensures
        r == event_of(c),
{
    if c == LOWER_E || c == UPPER_E {
        Event::Exponent
    } else if c == LOWER_X || c == UPPER_X {
        Event::HexMark
    } else if (UPPER_A <= c && c <= UPPER_Z) || (LOWER_A <= c && c <= LOWER_Z) {
        Event::Letter
    } else if c == DIGIT_ZERO {
        Event::Zero
    } else if DIGIT_ONE <= c && c <= DIGIT_NINE {
        Event::NonZeroDigit
    } else if c == UNDERSCORE {
        Event::Underscore
    } else if c == HASH {
        Event::Hash
    } else if c == NEWLINE {
        Event::NewLine
    } else if c == SINGLE_QUOTE {
        Event::SingleQuote
    } else if c == DOUBLE_QUOTE {
        Event::DoubleQuote
    } else if c == PLUS {
        Event::Plus
    } else if c == MINUS {
        Event::Minus
    } else if c == STAR {
        Event::Star
    } else if c == SLASH {
        Event::Slash
    } else if c == LESS {
        Event::Less
    } else if c == GREATER {
        Event::Greater
    } else if c == OPEN_PAREN {
        Event::OpenParen
    } else if c == CLOSE_PAREN {
        Event::CloseParen
    } else if c == OPEN_BRACKET {
        Event::OpenBracket
    } else if c == CLOSE_BRACKET {
        Event::CloseBracket
    } else if c == OPEN_BRACE {
        Event::OpenBrace
    } else if c == CLOSE_BRACE {
        Event::CloseBrace
    } else if c == COMMA {
        Event::Comma
    } else if c == COLON {
        Event::Colon
    } else if c == DOT {
        Event::Dot
    } else if c == EQUAL {
        Event::Equal
    } else if c == SPACE {
        Event::Space
    } else {
        Event::Other
    }
}

/// The transition table: the next state and the action for state `s` on event `e`.
pub open spec fn delta(s: State, e: Event) -> (State, Action) {
    match s {
        State::Init => match e {
            Event::Letter | Event::HexMark | Event::Exponent => (State::Id, Action::Continue),
            Event::Hash => (State::Comment(CommentState::Open), Action::Continue),
            Event::SingleQuote => (State::Str(StringState::SingleOpen), Action::Continue),
            Event::DoubleQuote => (State::Str(StringState::DoubleOpen), Action::Continue),
            Event::NonZeroDigit => (State::Integer(IntegerState::Decimal), Action::Continue),
            Event::Zero => (State::Integer(IntegerState::LeadingZero), Action::Continue),
            Event::Dot => (State::Float(FloatState::DotStart), Action::Continue),
            Event::Plus | Event::Minus => (State::Operator(OperatorState::PlusMinus), Action::Continue),
            Event::Star => (State::Operator(OperatorState::Star), Action::Continue),
            Event::Less => (State::Operator(OperatorState::Less), Action::Continue),
            Event::Equal => (State::Equal, Action::Continue),
            Event::Slash | Event::Greater => (State::Init, Action::Emit(Category::Operator)),
            Event::OpenParen
            | Event::CloseParen
            | Event::OpenBracket
            | Event::CloseBracket
            | Event::OpenBrace
            | Event::CloseBrace
            | Event::Comma
            | Event::Colon => (State::Init, Action::Emit(Category::Delimiter)),
            _ => (State::Init, Action::Discard),
        },
        State::Id => match e {
            Event::Letter
            | Event::HexMark
            | Event::Exponent
            | Event::Zero
            | Event::NonZeroDigit
            | Event::Underscore => (State::Id, Action::Continue),
            _ => (State::Init, Action::EmitBack(Category::Identifier)),
        },
        State::Comment(CommentState::Open) => match e {
            Event::Hash | Event::NewLine => (State::Init, Action::Fail(ErrorKind::MalformedComment)),
            _ => (State::Comment(CommentState::Body), Action::Discard),
        },
        State::Comment(CommentState::Body) => match e {
            Event::NewLine => (State::Init, Action::Discard),
            _ => (State::Comment(CommentState::Body), Action::Discard),
        },
        State::Str(StringState::SingleOpen) => match e {
            Event::SingleQuote => (State::Init, Action::Fail(ErrorKind::MalformedQuote)),
            _ => (State::Str(StringState::SingleBody), Action::Continue),
        },
        State::Str(StringState::SingleBody) => match e {
            Event::SingleQuote => (State::Init, Action::Emit(Category::String)),
            _ => (State::Init, Action::Fail(ErrorKind::MalformedQuote)),
        },
        State::Str(StringState::DoubleOpen) => match e {
            Event::DoubleQuote => (State::Str(StringState::DoubleSecond), Action::Continue),
            _ => (State::Str(StringState::DoubleBody), Action::Continue),
        },
        State::Str(StringState::DoubleBody) => match e {
            Event::DoubleQuote => (State::Init, Action::Emit(Category::String)),
            _ => (State::Str(StringState::DoubleBody), Action::Continue),
        },
        State::Str(StringState::DoubleSecond) => match e {
            Event::DoubleQuote => (State::Doc(DocState::Body), Action::Discard),
            _ => (State::Init, Action::Fail(ErrorKind::MalformedQuote)),
        },
        State::Doc(DocState::Body) => match e {
            Event::DoubleQuote => (State::Doc(DocState::Close1), Action::Continue),
            _ => (State::Doc(DocState::Body), Action::Discard),
        },
        State::Doc(DocState::Close1) => match e {
            Event::DoubleQuote => (State::Doc(DocState::Close2), Action::Continue),
            _ => (State::Init, Action::Fail(ErrorKind::MalformedQuote)),
        },
        State::Doc(DocState::Close2) => match e {
            Event::DoubleQuote => (State::Init, Action::Discard),
            _ => (State::Init, Action::Fail(ErrorKind::MalformedQuote)),
        },
        State::Integer(IntegerState::Decimal) => match e {
            Event::Zero | Event::NonZeroDigit => (State::Integer(IntegerState::Decimal), Action::Continue),
            Event::Dot => (State::Float(FloatState::AfterDot), Action::Continue),
            Event::Exponent => (State::Float(FloatState::Exponent), Action::Continue),
            _ => (State::Init, Action::EmitBack(Category::Integer)),
        },
        State::Integer(IntegerState::LeadingZero) => match e {
            Event::HexMark => (State::Integer(IntegerState::Hex), Action::Continue),
            Event::Zero | Event::NonZeroDigit => (State::Integer(IntegerState::Decimal), Action::Continue),
            Event::Dot => (State::Float(FloatState::AfterDot), Action::Continue),
            Event::Exponent => (State::Float(FloatState::Exponent), Action::Continue),
            _ => (State::Init, Action::EmitBack(Category::Integer)),
        },
        State::Integer(IntegerState::Hex) => match e {
            Event::Zero | Event::NonZeroDigit => (State::Integer(IntegerState::Hex), Action::Continue),
            _ => (State::Init, Action::EmitBack(Category::Integer)),
        },
        State::Float(FloatState::AfterDot) => match e {
            Event::Zero | Event::NonZeroDigit => (State::Float(FloatState::Fraction), Action::Continue),
            Event::Space | Event::NewLine => (State::Init, Action::EmitBack(Category::Float)),
            _ => (State::Init, Action::Fail(ErrorKind::MalformedFloat)),
        },
        State::Float(FloatState::DotStart) => match e {
            Event::Zero | Event::NonZeroDigit => (State::Float(FloatState::Fraction), Action::Continue),
            _ => (State::Init, Action::Fail(ErrorKind::MalformedFloat)),
        },
        State::Float(FloatState::Fraction) => match e {
            Event::Zero | Event::NonZeroDigit => (State::Float(FloatState::Fraction), Action::Continue),
            _ => (State::Init, Action::EmitBack(Category::Float)),
        },
        State::Float(FloatState::Exponent) => match e {
            Event::Plus | Event::Minus => (State::Float(FloatState::ExponentSign), Action::Continue),
            Event::Zero | Event::NonZeroDigit => (State::Float(FloatState::Fraction), Action::Continue),
            _ => (State::Init, Action::Fail(ErrorKind::MalformedFloat)),
        },
        State::Float(FloatState::ExponentSign) => match e {
            Event::Zero | Event::NonZeroDigit => (State::Float(FloatState::Fraction), Action::Continue),
            _ => (State::Init, Action::Fail(ErrorKind::MalformedFloat)),
        },
        State::Operator(OperatorState::PlusMinus) => match e {
            Event::Equal => (State::Init, Action::Emit(Category::Delimiter)),
            _ => (State::Init, Action::EmitBack(Category::Operator)),
        },
        State::Operator(OperatorState::Star) => match e {
            Event::Star => (State::Init, Action::Emit(Category::Operator)),
            _ => (State::Init, Action::EmitBack(Category::Operator)),
        },
        State::Operator(OperatorState::Less) => match e {
            Event::Equal => (State::Init, Action::Emit(Category::Operator)),
            _ => (State::Init, Action::EmitBack(Category::Operator)),
        },
        State::Equal => match e {
            Event::Equal => (State::Init, Action::Emit(Category::Operator)),
            _ => (State::Init, Action::EmitBack(Category::Delimiter)),
        },
    }
}

/// Looks up the transition table.
pub fn transition(s: State, e: Event) -> (r: (State, Action))
    ensures
        r == delta(s, e),
{
    match s {
        State::Init => match e {
            Event::Letter | Event::HexMark | Event::Exponent => (State::Id, Action::Continue),
            Event::Hash => (State::Comment(CommentState::Open), Action::Continue),
            Event::SingleQuote => (State::Str(StringState::SingleOpen), Action::Continue),
            Event::DoubleQuote => (State::Str(StringState::DoubleOpen), Action::Continue),
            Event::NonZeroDigit => (State::Integer(IntegerState::Decimal), Action::Continue),
            Event::Zero => (State::Integer(IntegerState::LeadingZero), Action::Continue),
            Event::Dot => (State::Float(FloatState::DotStart), Action::Continue),
            Event::Plus | Event::Minus => (State::Operator(OperatorState::PlusMinus), Action::Continue),
            Event::Star => (State::Operator(OperatorState::Star), Action::Continue),
            Event::Less => (State::Operator(OperatorState::Less), Action::Continue),
            Event::Equal => (State::Equal, Action::Continue),
            Event::Slash | Event::Greater => (State::Init, Action::Emit(Category::Operator)),
            Event::OpenParen
            | Event::CloseParen
            | Event::OpenBracket
            | Event::CloseBracket
            | Event::OpenBrace
            | Event::CloseBrace
            | Event::Comma
            | Event::Colon => (State::Init, Action::Emit(Category::Delimiter)),
            _ => (State::Init, Action::Discard),
        },
        State::Id => match e {
            Event::Letter
            | Event::HexMark
            | Event::Exponent
            | Event::Zero
            | Event::NonZeroDigit
            | Event::Underscore => (State::Id, Action::Continue),
            _ => (State::Init, Action::EmitBack(Category::Identifier)),
        },
        State::Comment(CommentState::Open) => match e {
            Event::Hash | Event::NewLine => (State::Init, Action::Fail(ErrorKind::MalformedComment)),
            _ => (State::Comment(CommentState::Body), Action::Discard),
        },
        State::Comment(CommentState::Body) => match e {
            Event::NewLine => (State::Init, Action::Discard),
            _ => (State::Comment(CommentState::Body), Action::Discard),
        },
        State::Str(StringState::SingleOpen) => match e {
            Event::SingleQuote => (State::Init, Action::Fail(ErrorKind::MalformedQuote)),
            _ => (State::Str(StringState::SingleBody), Action::Continue),
        },
        State::Str(StringState::SingleBody) => match e {
            Event::SingleQuote => (State::Init, Action::Emit(Category::String)),
            _ => (State::Init, Action::Fail(ErrorKind::MalformedQuote)),
        },
        State::Str(StringState::DoubleOpen) => match e {
            Event::DoubleQuote => (State::Str(StringState::DoubleSecond), Action::Continue),
            _ => (State::Str(StringState::DoubleBody), Action::Continue),
        },
        State::Str(StringState::DoubleBody) => match e {
            Event::DoubleQuote => (State::Init, Action::Emit(Category::String)),
            _ => (State::Str(StringState::DoubleBody), Action::Continue),
        },
        State::Str(StringState::DoubleSecond) => match e {
            Event::DoubleQuote => (State::Doc(DocState::Body), Action::Discard),
            _ => (State::Init, Action::Fail(ErrorKind::MalformedQuote)),
        },
        State::Doc(DocState::Body) => match e {
            Event::DoubleQuote => (State::Doc(DocState::Close1), Action::Continue),
            _ => (State::Doc(DocState::Body), Action::Discard),
        },
        State::Doc(DocState::Close1) => match e {
            Event::DoubleQuote => (State::Doc(DocState::Close2), Action::Continue),
            _ => (State::Init, Action::Fail(ErrorKind::MalformedQuote)),
        },
        State::Doc(DocState::Close2) => match e {
            Event::DoubleQuote => (State::Init, Action::Discard),
            _ => (State::Init, Action::Fail(ErrorKind::MalformedQuote)),
        },
        State::Integer(IntegerState::Decimal) => match e {
            Event::Zero | Event::NonZeroDigit => (State::Integer(IntegerState::Decimal), Action::Continue),
            Event::Dot => (State::Float(FloatState::AfterDot), Action::Continue),
            Event::Exponent => (State::Float(FloatState::Exponent), Action::Continue),
            _ => (State::Init, Action::EmitBack(Category::Integer)),
        },
        State::Integer(IntegerState::LeadingZero) => match e {
            Event::HexMark => (State::Integer(IntegerState::Hex), Action::Continue),
            Event::Zero | Event::NonZeroDigit => (State::Integer(IntegerState::Decimal), Action::Continue),
            Event::Dot => (State::Float(FloatState::AfterDot), Action::Continue),
            Event::Exponent => (State::Float(FloatState::Exponent), Action::Continue),
            _ => (State::Init, Action::EmitBack(Category::Integer)),
        },
        State::Integer(IntegerState::Hex) => match e {
            Event::Zero | Event::NonZeroDigit => (State::Integer(IntegerState::Hex), Action::Continue),
            _ => (State::Init, Action::EmitBack(Category::Integer)),
        },
        State::Float(FloatState::AfterDot) => match e {
            Event::Zero | Event::NonZeroDigit => (State::Float(FloatState::Fraction), Action::Continue),
            Event::Space | Event::NewLine => (State::Init, Action::EmitBack(Category::Float)),
            _ => (State::Init, Action::Fail(ErrorKind::MalformedFloat)),
        },
        State::Float(FloatState::DotStart) => match e {
            Event::Zero | Event::NonZeroDigit => (State::Float(FloatState::Fraction), Action::Continue),
            _ => (State::Init, Action::Fail(ErrorKind::MalformedFloat)),
        },
        State::Float(FloatState::Fraction) => match e {
            Event::Zero | Event::NonZeroDigit => (State::Float(FloatState::Fraction), Action::Continue),
            _ => (State::Init, Action::EmitBack(Category::Float)),
        },
        State::Float(FloatState::Exponent) => match e {
            Event::Plus | Event::Minus => (State::Float(FloatState::ExponentSign), Action::Continue),
            Event::Zero | Event::NonZeroDigit => (State::Float(FloatState::Fraction), Action::Continue),
            _ => (State::Init, Action::Fail(ErrorKind::MalformedFloat)),
        },
        State::Float(FloatState::ExponentSign) => match e {
            Event::Zero | Event::NonZeroDigit => (State::Float(FloatState::Fraction), Action::Continue),
            _ => (State::Init, Action::Fail(ErrorKind::MalformedFloat)),
        },
        State::Operator(OperatorState::PlusMinus) => match e {
            Event::Equal => (State::Init, Action::Emit(Category::Delimiter)),
            _ => (State::Init, Action::EmitBack(Category::Operator)),
        },
        State::Operator(OperatorState::Star) => match e {
            Event::Star => (State::Init, Action::Emit(Category::Operator)),
            _ => (State::Init, Action::EmitBack(Category::Operator)),
        },
        State::Operator(OperatorState::Less) => match e {
            Event::Equal => (State::Init, Action::Emit(Category::Operator)),
            _ => (State::Init, Action::EmitBack(Category::Operator)),
        },
        State::Equal => match e {
            Event::Equal => (State::Init, Action::Emit(Category::Operator)),
            _ => (State::Init, Action::EmitBack(Category::Delimiter)),
        },
    }
}

/// The error for an input that ends in state `s` (other than `Init`).
pub open spec fn end_error(s: State) -> ErrorKind {
    match s {
        State::Float(FloatState::AfterDot)
        | State::Float(FloatState::DotStart)
        | State::Float(FloatState::Exponent)
        | State::Float(FloatState::ExponentSign) => ErrorKind::MalformedFloat,
        State::Str(StringState::DoubleSecond) | State::Doc(_) => ErrorKind::MalformedQuote,
        _ => ErrorKind::TruncatedToken,
    }
}

/// Computes the error for an input that ends in state `s`.
pub fn error_at_end(s: State) -> (r: ErrorKind)
    ensures
        r == end_error(s),
{
    match s {
        State::Float(FloatState::AfterDot)
        | State::Float(FloatState::DotStart)
        | State::Float(FloatState::Exponent)
        | State::Float(FloatState::ExponentSign) => ErrorKind::MalformedFloat,
        State::Str(StringState::DoubleSecond) | State::Doc(_) => ErrorKind::MalformedQuote,
        _ => ErrorKind::TruncatedToken,
    }
}

/// What one run of the automaton yields.
pub enum Outcome {
    /// A token of the category over the text between the two offsets.
    Token(Category, int, int),
    /// The text ended between tokens.
    Stop,
    /// An error, found after reading the text up to the offset.
    Fail(ErrorKind, int),
}

/// The run of the automaton on `s`, from state `state` with the lexeme starting
/// at `start` and the next byte at `pos`.
pub open spec fn run(s: Seq<u8>, state: State, start: int, pos: int) -> Outcome
    decreases s.len() - pos,
{
    if at_end(s, pos) {
        if state == State::Init {
            Outcome::Stop
        } else {
            Outcome::Fail(end_error(state), pos)
        }
    } else {
        let (next, action) = delta(state, event_of(s[pos]));
        match action {
            Action::Continue => run(s, next, start, pos + 1),
            Action::Discard => run(s, next, pos + 1, pos + 1),
            Action::Emit(c) => Outcome::Token(c, start, pos + 1),
            Action::EmitBack(c) => Outcome::Token(c, start, pos),
            Action::Fail(k) => Outcome::Fail(k, pos + 1),
        }
    }
}

/// The run from the same place never reads a byte `n` or more bytes past the
/// start of its lexeme.
pub open spec fn fits(s: Seq<u8>, state: State, start: int, pos: int, n: int) -> bool
    decreases s.len() - pos,
{
    &&& pos - start < n
    &&& !at_end(s, pos) ==> {
        let (next, action) = delta(state, event_of(s[pos]));
        match action {
            Action::Continue => fits(s, next, start, pos + 1, n),
            Action::Discard => fits(s, next, pos + 1, pos + 1, n),
            _ => true,
        }
    }
}

/// The number of newline bytes in `s`.
pub open spec fn newlines(s: Seq<u8>) -> nat
    decreases s.len(),
{
    if s.len() == 0 {
        0
    } else {
        newlines(s.drop_last()) + if s.last() == NEWLINE {
            1nat
        } else {
            0nat
        }
    }
}

/// The line on which offset `p` of `s` stands, counting from 1.
pub open spec fn line_at(s: Seq<u8>, p: int) -> nat {
    1 + newlines(s.subrange(0, p))
}

proof fn lemma_newlines_step(s: Seq<u8>, p: int)
    requires
        0 <= p < s.len(),
    ensures
        newlines(s.subrange(0, p + 1)) == newlines(s.subrange(0, p)) + if s[p] == NEWLINE {
            1nat
        } else {
            0nat
        },
{
    assert(s.subrange(0, p + 1).drop_last() =~= s.subrange(0, p));
}

proof fn lemma_newlines_bound(s: Seq<u8>, p: int)
    requires
        0 <= p <= s.len(),
    ensures
        newlines(s.subrange(0, p)) <= p,
    decreases p,
{
    if p > 0 {
        lemma_newlines_bound(s, p - 1);
        lemma_newlines_step(s, p - 1);
    }
}

/// What a call that found a token of category `c` over `text` returns: an
/// identifier goes through the symbol table, any other token is built directly.
pub open spec fn resolved(c: Category, text: Seq<u8>, before: crate::symbol_table::Entries, token: crate::token::TokenView, after: crate::symbol_table::Entries) -> bool {
    if c == Category::Identifier || c == Category::Keyword {
        interned(before, text, token, after)
    } else {
        token == plain(c, text) && after == before
    }
}

/// The result of one call on text `s` from offset `p`, with a window of halves
/// of `n` bytes: it is the run of the automaton from `p`, but for an error when
/// a lexeme outgrows the window.
pub open spec fn next_result(
    s: Seq<u8>,
    p: int,
    n: int,
    before: crate::symbol_table::Entries,
    r: Option<Result<Token, LexError>>,
    after: crate::symbol_table::Entries,
    p_after: int,
) -> bool {
    match r {
        None => run(s, State::Init, p, p) == Outcome::Stop && p_after >= p && after == before,
        Some(Ok(t)) => match run(s, State::Init, p, p) {
            Outcome::Token(c, st, en) => p_after == en && resolved(c, s.subrange(st, en), before, t@, after),
            _ => false,
        },
        Some(Err(e)) => after == before && p_after >= p && (
            (e.kind == ErrorKind::LexemeTooLong && !fits(s, State::Init, p, p, n))
            || match run(s, State::Init, p, p) {
                Outcome::Fail(k, at) => e.kind == k && e.line == line_at(s, at),
                _ => false,
            }),
    }
}

/// The tokenizer: reads a text through a double buffer and hands out one token
/// per call.
pub struct LexicalAnalyzer {
    double_buffer: DoubleBuffer,
    line_counter: usize,
}

impl LexicalAnalyzer {
    /// The text being scanned.
    pub closed spec fn source(&self) -> Seq<u8> {
        self.double_buffer.source()
    }

    /// The offset at which the next call starts.
    pub closed spec fn pos(&self) -> int {
        self.double_buffer.pos() as int
    }

    /// The size of one half of the scanning window.
    pub closed spec fn half(&self) -> int {
        self.double_buffer.half() as int
    }

    pub closed spec fn wf(&self) -> bool {
        &&& self.double_buffer.wf()
        &&& self.double_buffer.start() == self.double_buffer.pos()
        &&& self.line_counter == line_at(self.source(), self.pos())
    }

    /// A tokenizer over `source`, with a scanning window of two halves of
    /// `half` bytes.
    pub fn new(source: Vec<u8>, half: usize) -> (r: LexicalAnalyzer)
        requires
            half >= 2,
            source@.len() + 2 * half <= usize::MAX,
        ensures
            r.wf(),
            r.source() == source@,
            r.pos() == 0,
            r.half() == half,
    {
        let double_buffer = DoubleBuffer::new(source, half);
        let r = LexicalAnalyzer { double_buffer, line_counter: 1 };
        assert(r.source().subrange(0, 0) =~= Seq::<u8>::empty());
        r
    }

    /// The offset at which the next call starts.
    pub fn position(&self) -> (r: usize)
        requires
            self.wf(),
        ensures
            r == self.pos(),
    {
        self.double_buffer.position()
    }

    /// Reads the next token: `None` at the end of the text, an error where the
    /// text breaks the rules of the language.
    pub fn next(&mut self, table: &mut SymbolTable) -> (r: Option<Result<Token, LexError>>)
        requires
            old(self).wf(),
            well_keyed(old(table)@),
        ensures
            final(self).wf(),
            final(self).source() == old(self).source(),
            final(self).half() == old(self).half(),
            well_keyed(final(table)@),
            next_result(
                old(self).source(),
                old(self).pos(),
                old(self).half(),
                old(table)@,
                r,
                final(table)@,
                final(self).pos(),
            ),
    {
        let ghost s = self.source();
        let ghost p0 = self.pos();
        let ghost n = self.half();
        proof {
            self.double_buffer.lemma_bounds();
        }
        let mut state = State::Init;
        loop
            invariant
                self.double_buffer.wf(),
                s == old(self).source(),
                n == old(self).half(),
                p0 == old(self).pos(),
                self.source() == s,
                self.half() == n,
                table@ == old(table)@,
                well_keyed(table@),
                p0 <= self.double_buffer.start() <= self.double_buffer.pos(),
                state == State::Init ==> self.double_buffer.start() == self.double_buffer.pos(),
                run(s, State::Init, p0, p0) == run(
                    s,
                    state,
                    self.double_buffer.start() as int,
                    self.double_buffer.pos() as int,
                ),
                fits(s, State::Init, p0, p0, n) ==> fits(
                    s,
                    state,
                    self.double_buffer.start() as int,
                    self.double_buffer.pos() as int,
                    n,
                ),
                self.line_counter == line_at(s, self.double_buffer.pos() as int),
                s.len() + 2 * n <= usize::MAX,
                n >= 2,
            decreases s.len() - self.double_buffer.pos(),
        {
            let ghost pos = self.double_buffer.pos() as int;
            let ghost start = self.double_buffer.start() as int;
            let scan = self.double_buffer.next();
            match scan {
                Scan::End => {
                    if state == State::Init {
                        return None;
                    }
                    self.double_buffer.discard();
                    return Some(Err(LexError { kind: error_at_end(state), line: self.line_counter }));
                },
                Scan::Full => {
                    self.double_buffer.discard();
                    return Some(Err(LexError { kind: ErrorKind::LexemeTooLong, line: self.line_counter }));
                },
                Scan::Byte(c) => {
                    proof {
                        lemma_newlines_step(s, pos);
                        lemma_newlines_bound(s, pos);
                        lemma_newlines_bound(s, pos + 1);
                        assert(pos < s.len());
                        assert(c == s[pos]);
                        assert(self.line_counter <= pos + 1);
                    }
                    if c == NEWLINE {
                        self.line_counter = self.line_counter + 1;
                    }
                    let (next_state, action) = transition(state, classify(c));
                    match action {
                        Action::Continue => {
                            state = next_state;
                        },
                        Action::Discard => {
                            self.double_buffer.discard();
                            state = next_state;
                        },
                        Action::Emit(cat) => {
                            let text = self.double_buffer.get_lexeme();
                            return Some(Ok(make_token(cat, text, table)));
                        },
                        Action::EmitBack(cat) => {
                            self.double_buffer.back();
                            if c == NEWLINE {
                                self.line_counter = self.line_counter - 1;
                            }
                            let text = self.double_buffer.get_lexeme();
                            return Some(Ok(make_token(cat, text, table)));
                        },
                        Action::Fail(kind) => {
                            self.double_buffer.discard();
                            return Some(Err(LexError { kind, line: self.line_counter }));
                        },
                    }
                },
            }
        }
    }
}

/// Builds the token of category `c` over `text`, resolving an identifier
/// through the symbol table.
fn make_token(c: Category, text: Vec<u8>, table: &mut SymbolTable) -> (r: Token)
    requires
        well_keyed(old(table)@),
    ensures
        well_keyed(final(table)@),
        resolved(c, text@, old(table)@, r@, final(table)@),
{
    if c == Category::Identifier || c == Category::Keyword {
        table.lookup_or_insert(text)
    } else {
        Token::from_category(c, text)
    }
}

/// A byte that continues an identifier.
pub open spec fn is_word_byte(c: u8) -> bool {
    let e = event_of(c);
    e == Event::Letter || e == Event::HexMark || e == Event::Exponent || e == Event::Zero
        || e == Event::NonZeroDigit || e == Event::Underscore
}

/// A byte that starts an identifier.
pub open spec fn starts_word(c: u8) -> bool {
    let e = event_of(c);
    e == Event::Letter || e == Event::HexMark || e == Event::Exponent
}

/// A decimal digit.
pub open spec fn is_digit_byte(c: u8) -> bool {
    event_of(c) == Event::Zero || event_of(c) == Event::NonZeroDigit
}

proof fn lemma_identifier_tail(s: Seq<u8>, p: int, i: int, q: int)
    requires
        0 <= p < i <= q < s.len(),
        forall|k: int| i <= k < q ==> is_word_byte(#[trigger] s[k]),
        !is_word_byte(s[q]),
        s[q] != 0,
    ensures
        run(s, State::Id, p, i) == Outcome::Token(Category::Identifier, p, q),
    decreases q - i,
{
    if i < q {
        assert(is_word_byte(s[i]));
        lemma_identifier_tail(s, p, i + 1, q);
    }
}

/// Maximal munch for identifiers: a letter followed by letters, digits and
/// underscores, then by any other byte of the text, is read as one identifier
/// spanning exactly that run.
pub proof fn lemma_identifier_munch(s: Seq<u8>, p: int, q: int)
    requires
        0 <= p < q < s.len(),
        starts_word(s[p]),
        forall|k: int| p < k < q ==> is_word_byte(#[trigger] s[k]),
        !is_word_byte(s[q]),
        s[q] != 0,
    ensures
        run(s, State::Init, p, p) == Outcome::Token(Category::Identifier, p, q),
{
    lemma_identifier_tail(s, p, p + 1, q);
}

proof fn lemma_integer_tail(s: Seq<u8>, p: int, i: int, q: int)
    requires
        0 <= p < i <= q < s.len(),
        forall|k: int| i <= k < q ==> is_digit_byte(#[trigger] s[k]),
        !is_digit_byte(s[q]),
        event_of(s[q]) != Event::Dot,
        event_of(s[q]) != Event::Exponent,
        s[q] != 0,
    ensures
        run(s, State::Integer(IntegerState::Decimal), p, i) == Outcome::Token(Category::Integer, p, q),
    decreases q - i,
{
    if i < q {
        assert(is_digit_byte(s[i]));
        lemma_integer_tail(s, p, i + 1, q);
    }
}

/// Maximal munch for decimal integers: a non-zero digit followed by digits,
/// then by a byte that can neither extend the number nor turn it into a float,
/// is read as one integer spanning exactly that run.
pub proof fn lemma_integer_munch(s: Seq<u8>, p: int, q: int)
    requires
        0 <= p < q < s.len(),
        event_of(s[p]) == Event::NonZeroDigit,
        forall|k: int| p < k < q ==> is_digit_byte(#[trigger] s[k]),
        !is_digit_byte(s[q]),
        event_of(s[q]) != Event::Dot,
        event_of(s[q]) != Event::Exponent,
        s[q] != 0,
    ensures
        run(s, State::Init, p, p) == Outcome::Token(Category::Integer, p, q),
{
    lemma_integer_tail(s, p, p + 1, q);
}

/// States that can end a lexeme by giving back the byte after it.
pub open spec fn holds_lexeme(state: State) -> bool {
    match state {
        State::Id | State::Integer(_) | State::Float(_) | State::Operator(_) | State::Equal
        | State::Str(_) => true,
        _ => false,
    }
}

proof fn lemma_run_spans(s: Seq<u8>, p: int, state: State, start: int, pos: int)
    requires
        0 <= p <= start <= pos <= s.len(),
        state == State::Init ==> start == pos,
        holds_lexeme(state) ==> start < pos,
    ensures
        run(s, state, start, pos) matches Outcome::Token(_, st, en) ==> p <= st < en <= s.len(),
    decreases s.len() - pos,
{
    if !at_end(s, pos) {
        let (next, action) = delta(state, event_of(s[pos]));
        match action {
            Action::Continue => lemma_run_spans(s, p, next, start, pos + 1),
            Action::Discard => lemma_run_spans(s, p, next, pos + 1, pos + 1),
            _ => {},
        }
    }
}

/// The text of the first `k` tokens from offset `p`, each preceded by the bytes
/// dropped before it.
pub open spec fn rebuilt(s: Seq<u8>, p: int, k: nat) -> Seq<u8>
    decreases k,
{
    if k == 0 {
        Seq::empty()
    } else {
        match run(s, State::Init, p, p) {
            Outcome::Token(_, st, en) => s.subrange(p, st) + s.subrange(st, en) + rebuilt(
                s,
                en,
                (k - 1) as nat,
            ),
            _ => Seq::empty(),
        }
    }
}

/// The offset after the first `k` tokens from offset `p`.
pub open spec fn after_tokens(s: Seq<u8>, p: int, k: nat) -> int
    decreases k,
{
    if k == 0 {
        p
    } else {
        match run(s, State::Init, p, p) {
            Outcome::Token(_, _, en) => after_tokens(s, en, (k - 1) as nat),
            _ => p,
        }
    }
}

/// Each token read from offset `p` is not empty and lies after `p`: the
/// dropped bytes before it, then its text, are exactly the bytes up to its end.
pub proof fn lemma_token_spans(s: Seq<u8>, p: int)
    requires
        0 <= p <= s.len(),
    ensures
        run(s, State::Init, p, p) matches Outcome::Token(_, st, en) ==> {
            &&& p <= st < en <= s.len()
            &&& s.subrange(p, st) + s.subrange(st, en) == s.subrange(p, en)
        },
{
    lemma_run_spans(s, p, State::Init, p, p);
    if let Outcome::Token(_, st, en) = run(s, State::Init, p, p) {
        assert(s.subrange(p, st) + s.subrange(st, en) =~= s.subrange(p, en));
    }
}

/// Round trip: the texts of the tokens read one after another from offset `p`,
/// with the bytes dropped between them, give back the text up to where the
/// last of them ends.
pub proof fn lemma_round_trip(s: Seq<u8>, p: int, k: nat)
    requires
        0 <= p <= s.len(),
    ensures
        p <= after_tokens(s, p, k) <= s.len(),
        rebuilt(s, p, k) == s.subrange(p, after_tokens(s, p, k)),
    decreases k,
{
    if k > 0 {
        lemma_token_spans(s, p);
        if let Outcome::Token(_, st, en) = run(s, State::Init, p, p) {
            lemma_round_trip(s, en, (k - 1) as nat);
            let e = after_tokens(s, en, (k - 1) as nat);
            assert(s.subrange(p, en) + s.subrange(en, e) =~= s.subrange(p, e));
        } else {
            assert(s.subrange(p, p) =~= Seq::<u8>::empty());
        }
    } else {
        assert(s.subrange(p, p) =~= Seq::<u8>::empty());
    }
}

/// What a call handed out, with each token taken by its view.
pub open spec fn result_view(r: Option<Result<Token, LexError>>) -> Option<
    Result<crate::token::TokenView, LexError>,
> {
    match r {
        None => None,
        Some(Ok(t)) => Some(Ok(t@)),
        Some(Err(e)) => Some(Err(e)),
    }
}

/// The size of the scanning window does not change what a call returns, as
/// long as the lexeme fits in both windows: two calls from the same offset
/// with the same table, through windows of different sizes, hand out the same
/// token or error, leave the same table, and end a token at the same offset.
pub proof fn lemma_window_size_irrelevant(
    s: Seq<u8>,
    p: int,
    n1: int,
    n2: int,
    before: crate::symbol_table::Entries,
    r1: Option<Result<Token, LexError>>,
    after1: crate::symbol_table::Entries,
    q1: int,
    r2: Option<Result<Token, LexError>>,
    after2: crate::symbol_table::Entries,
    q2: int,
)
    requires
        next_result(s, p, n1, before, r1, after1, q1),
        next_result(s, p, n2, before, r2, after2, q2),
        fits(s, State::Init, p, p, n1),
        fits(s, State::Init, p, p, n2),
    ensures
        result_view(r1) == result_view(r2),
        after1 == after2,
        r1 is Some && r1.unwrap() is Ok ==> q1 == q2,
{
}

} // verus!
