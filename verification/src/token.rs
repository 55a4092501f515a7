//! The token model: token kinds, tokens, and the fixed classification tables
//! for keywords, punctuators, operators and comparators.
use vstd::prelude::*;

verus! {

use crate::util::str_eq;

/// Lexical categories of the restricted C dialect. String literals are not
/// produced by the lexer yet, but the kind is part of the model.
#[derive(Debug, PartialEq, Eq, Structural, Clone, Copy)]
pub enum TokenType {
    // Literals
    StringLit,
    IntLit,
    Char,
    // Identifier
    Identifier,
    // Special characters
    Underscore,
    // Punctuators
    LBrace,
    RBrace,
    LParen,
    RParen,
    LBrack,
    RBrack,
    Semi,
    Comma,
    Dot,
    Colon,
    // Operators
    Plus,
    Minus,
    Div,
    Mul,
    Assign,
    Not,
    And,
    Or,
    BitAnd,
    BitOr,
    Xor,
    Mod,
    BitComplement,
    // Comparators
    Eq,
    Lt,
    Gt,
    Le,
    Ge,
    Neq,
    // Keywords
    ReturnKeyword,
    IfKeyword,
    ElseKeyword,
    ElseIfKeyword,
    EnumKeyword,
    WhileKeyword,
    ForKeyword,
    IntKeyword,
    CharKeyword,
    StructKeyword,
    UnionKeyword,
    ContinueKeyword,
    BreakKeyword,
    StaticKeyword,
    VoidKeyword,
    // Error token
    Error,
}

/// A classified lexeme: a kind tag and the raw text it was read from.
#[derive(Debug, PartialEq, Clone)]
pub struct Token {
    pub value: Option<String>,
    pub token_type: TokenType,
}

/// The mathematical model of a token: its text as a sequence of characters.
pub struct TokenV {
    pub value: Option<Seq<char>>,
    pub token_type: TokenType,
}

impl View for Token {
    type V = TokenV;

    open spec fn view(&self) -> TokenV {
        TokenV {
            value: match self.value {
                Some(s) => Some(s@),
                None => None,
            },
            token_type: self.token_type,
        }
    }
}

impl DeepView for Token {
    type V = TokenV;

    open spec fn deep_view(&self) -> TokenV {
        self.view()
    }
}

// ---------------------------------------------------------------------------
// The fixed keyword table
// ---------------------------------------------------------------------------
pub open spec fn spec_keyword_of(s: Seq<char>) -> Option<TokenType> {
    if s == "int"@ {
        Some(TokenType::IntKeyword)
    } else if s == "char"@ {
        Some(TokenType::CharKeyword)
    } else if s == "return"@ {
        Some(TokenType::ReturnKeyword)
    } else if s == "if"@ {
        Some(TokenType::IfKeyword)
    } else if s == "while"@ {
        Some(TokenType::WhileKeyword)
    } else if s == "else"@ {
        Some(TokenType::ElseKeyword)
    } else if s == "for"@ {
        Some(TokenType::ForKeyword)
    } else if s == "else if"@ {
        Some(TokenType::ElseIfKeyword)
    } else if s == "struct"@ {
        Some(TokenType::StructKeyword)
    } else if s == "enum"@ {
        Some(TokenType::EnumKeyword)
    } else if s == "static"@ {
        Some(TokenType::StaticKeyword)
    } else if s == "break"@ {
        Some(TokenType::BreakKeyword)
    } else if s == "continue"@ {
        Some(TokenType::ContinueKeyword)
    } else if s == "void"@ {
        Some(TokenType::VoidKeyword)
    } else if s == "union"@ {
        Some(TokenType::UnionKeyword)
    } else {
        None
    }
}

pub fn keyword_of(s: &str) -> (r: Option<TokenType>)
    ensures
        r == spec_keyword_of(s@),
{
    if str_eq(s, "int") {
        Some(TokenType::IntKeyword)
    } else if str_eq(s, "char") {
        Some(TokenType::CharKeyword)
    } else if str_eq(s, "return") {
        Some(TokenType::ReturnKeyword)
    } else if str_eq(s, "if") {
        Some(TokenType::IfKeyword)
    } else if str_eq(s, "while") {
        Some(TokenType::WhileKeyword)
    } else if str_eq(s, "else") {
        Some(TokenType::ElseKeyword)
    } else if str_eq(s, "for") {
        Some(TokenType::ForKeyword)
    } else if str_eq(s, "else if") {
        Some(TokenType::ElseIfKeyword)
    } else if str_eq(s, "struct") {
        Some(TokenType::StructKeyword)
    } else if str_eq(s, "enum") {
        Some(TokenType::EnumKeyword)
    } else if str_eq(s, "static") {
        Some(TokenType::StaticKeyword)
    } else if str_eq(s, "break") {
        Some(TokenType::BreakKeyword)
    } else if str_eq(s, "continue") {
        Some(TokenType::ContinueKeyword)
    } else if str_eq(s, "void") {
        Some(TokenType::VoidKeyword)
    } else if str_eq(s, "union") {
        Some(TokenType::UnionKeyword)
    } else {
        None
    }
}

// ---------------------------------------------------------------------------
// The fixed punctuator table (single characters)
// ---------------------------------------------------------------------------
pub open spec fn spec_punctuator_char(c: char) -> Option<TokenType> {
    match c {
        '{' => Some(TokenType::LBrace),
        '}' => Some(TokenType::RBrace),
        '(' => Some(TokenType::LParen),
        ')' => Some(TokenType::RParen),
        '[' => Some(TokenType::LBrack),
        ']' => Some(TokenType::RBrack),
        '.' => Some(TokenType::Dot),
        ',' => Some(TokenType::Comma),
        ';' => Some(TokenType::Semi),
        ':' => Some(TokenType::Colon),
        _ => None,
    }
}

pub fn punctuator_char(c: char) -> (r: Option<TokenType>)
    ensures
        r == spec_punctuator_char(c),
{
    match c {
        '{' => Some(TokenType::LBrace),
        '}' => Some(TokenType::RBrace),
        '(' => Some(TokenType::LParen),
        ')' => Some(TokenType::RParen),
        '[' => Some(TokenType::LBrack),
        ']' => Some(TokenType::RBrack),
        '.' => Some(TokenType::Dot),
        ',' => Some(TokenType::Comma),
        ';' => Some(TokenType::Semi),
        ':' => Some(TokenType::Colon),
        _ => None,
    }
}

pub open spec fn spec_punctuator_of(s: Seq<char>) -> Option<TokenType> {
    if s.len() == 1 {
        spec_punctuator_char(s[0])
    } else {
        None
    }
}

pub fn punctuator_of(s: &str) -> (r: Option<TokenType>)
    ensures
        r == spec_punctuator_of(s@),
{
    if s.unicode_len() == 1 {
        punctuator_char(s.get_char(0))
    } else {
        None
    }
}

// ---------------------------------------------------------------------------
// The fixed operator table
// ---------------------------------------------------------------------------
/// Characters that may start an operator lexeme.
pub open spec fn spec_operator_char(c: char) -> Option<TokenType> {
    match c {
        '+' => Some(TokenType::Plus),
        '=' => Some(TokenType::Assign),
        '%' => Some(TokenType::Mod),
        '-' => Some(TokenType::Minus),
        '*' => Some(TokenType::Mul),
        '/' => Some(TokenType::Div),
        '|' => Some(TokenType::BitOr),
        '&' => Some(TokenType::BitAnd),
        '^' => Some(TokenType::Xor),
        '!' => Some(TokenType::Not),
        '~' => Some(TokenType::BitComplement),
        _ => None,
    }
}

pub fn operator_char(c: char) -> (r: Option<TokenType>)
    ensures
        r == spec_operator_char(c),
{
    match c {
        '+' => Some(TokenType::Plus),
        '=' => Some(TokenType::Assign),
        '%' => Some(TokenType::Mod),
        '-' => Some(TokenType::Minus),
        '*' => Some(TokenType::Mul),
        '/' => Some(TokenType::Div),
        '|' => Some(TokenType::BitOr),
        '&' => Some(TokenType::BitAnd),
        '^' => Some(TokenType::Xor),
        '!' => Some(TokenType::Not),
        '~' => Some(TokenType::BitComplement),
        _ => None,
    }
}

/// Operator lexemes: the single characters above plus the two-character
/// forms `||` and `&&`.
pub open spec fn spec_operator_of(s: Seq<char>) -> Option<TokenType> {
    if s == "||"@ {
        Some(TokenType::Or)
    } else if s == "&&"@ {
        Some(TokenType::And)
    } else if s.len() == 1 {
        spec_operator_char(s[0])
    } else {
        None
    }
}

pub fn operator_of(s: &str) -> (r: Option<TokenType>)
    ensures
        r == spec_operator_of(s@),
{
    if str_eq(s, "||") {
        Some(TokenType::Or)
    } else if str_eq(s, "&&") {
        Some(TokenType::And)
    } else if s.unicode_len() == 1 {
        proof {
            reveal_strlit("||");
            reveal_strlit("&&");
        }
        operator_char(s.get_char(0))
    } else {
        proof {
            reveal_strlit("||");
            reveal_strlit("&&");
        }
        None
    }
}

// ---------------------------------------------------------------------------
// The fixed comparator table
// ---------------------------------------------------------------------------
/// Comparator lexemes. `!` doubles as the logical-not operator; the scanner
/// reaches the comparator table only for `<` and `>`, but the classifier
/// keeps the union for lexemes handed in directly.
pub open spec fn spec_comparator_of(s: Seq<char>) -> Option<TokenType> {
    if s == "=="@ {
        Some(TokenType::Eq)
    } else if s == "<="@ {
        Some(TokenType::Le)
    } else if s == ">="@ {
        Some(TokenType::Ge)
    } else if s == "!="@ {
        Some(TokenType::Neq)
    } else if s == "<"@ {
        Some(TokenType::Lt)
    } else if s == ">"@ {
        Some(TokenType::Gt)
    } else if s == "!"@ {
        Some(TokenType::Not)
    } else {
        None
    }
}

pub fn comparator_of(s: &str) -> (r: Option<TokenType>)
    ensures
        r == spec_comparator_of(s@),
{
    if str_eq(s, "==") {
        Some(TokenType::Eq)
    } else if str_eq(s, "<=") {
        Some(TokenType::Le)
    } else if str_eq(s, ">=") {
        Some(TokenType::Ge)
    } else if str_eq(s, "!=") {
        Some(TokenType::Neq)
    } else if str_eq(s, "<") {
        Some(TokenType::Lt)
    } else if str_eq(s, ">") {
        Some(TokenType::Gt)
    } else if str_eq(s, "!") {
        Some(TokenType::Not)
    } else {
        None
    }
}

/// Whether a character belongs to the comparator class for scanning purposes:
/// `<` or `>` (the other comparator characters are claimed first by the
/// operator class).
pub open spec fn is_comparator_char(c: char) -> bool {
    c == '<' || c == '>'
}

pub fn comparator_char(c: char) -> (r: bool)
    ensures
        r == is_comparator_char(c),
{
    c == '<' || c == '>'
}

} // verus!
