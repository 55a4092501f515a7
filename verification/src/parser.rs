//! The parser: precedence-climbing recursive descent over the token stream,
//! with one-token lookahead plus a second token of lookahead to tell an
//! assignment expression from a plain expression.
//!
//! Grammar, precedence low to high: declare-assign, logical or, logical and,
//! equality, relational, additive, multiplicative, unary, primary. Each
//! binary level folds left-associatively. Declarations are registered in the
//! parser's symbol table as they are parsed. The first expectation mismatch
//! aborts the whole parse with an error carrying expected-versus-found
//! detail; no half-built node is ever returned.
use vstd::prelude::*;

verus! {

use crate::token::{Token, TokenType, TokenV};
use crate::ast::{
    view_expr_node,
    stmts_view,
    fns_view,
    strs_view,
    lemma_stmts_view_push,
    lemma_fns_view_push,
    lemma_strs_view_push,
    lemma_stmts_size_push,
    lemma_fns_size_push,
    Expr,
    ExprNode,
    Statement,
    StatementNode,
    FunctionNode,
    ProgramNode,
    ExprV,
    StatementV,
    FunctionV,
    ProgramV,
    esize,
    ssize,
    stmts_size,
    fsize,
    fns_size,
    is_decl,
};
use crate::symbol_table::{SymbolTable, SymTabV};
use crate::util::{is_i32_literal, int_of_digits, parse_i32};

/// Why a parse failed. Every error carries what the parser was looking at;
/// the first error halts the whole compilation.
#[derive(Debug, PartialEq, Eq, Structural, Clone, Copy)]
pub enum ParseError {
    /// A specific token kind was required and another was found.
    UnexpectedToken { expected: TokenType, found: TokenType },
    /// The token stream ended where a token was required.
    UnexpectedEnd,
    /// A token that should carry its raw text carries none.
    MissingTokenValue,
    /// An integer literal that is empty, not numeric, or too large.
    MalformedIntLiteral,
    /// A character literal not of the form 'x'.
    MalformedCharLiteral,
    /// No expression can start with this token.
    ExpectedFactor { found: TokenType },
    /// No unary operator stands here.
    ExpectedUnaryOperator { found: TokenType },
    /// No statement can start with this token.
    ExpectedStatement { found: TokenType },
}

pub struct Parser {
    pub token_index: usize,
    pub token_stream: Vec<Token>,
    /// Declarations registered so far, in parse order.
    pub symbol_table: SymbolTable,
}

impl Parser {
    /// The model of the remaining input: the token stream as token views.
    pub open spec fn toks(self) -> Seq<TokenV> {
        self.token_stream.deep_view()
    }

    pub open spec fn wf(self) -> bool {
        &&& self.token_index <= self.token_stream@.len()
        &&& self.symbol_table@.wf()
    }

    pub fn new(tokens: Vec<Token>) -> (r: Parser)
        ensures
            r.token_index == 0,
            r.token_stream == tokens,
            r.symbol_table@ == SymTabV::empty(),
            r.wf(),
    {
        Parser { token_index: 0, token_stream: tokens, symbol_table: SymbolTable::new() }
    }
}

// ---------------------------------------------------------------------------
// The model of expression parsing
// ---------------------------------------------------------------------------
// Each level takes the token views and a position and returns the parsed
// node with the position after it, or the error that stops the parse. The
// second element of each `decreases` clause ranks the levels so that calls
// at the same position descend the precedence ladder.
pub open spec fn sp_parse_integer(toks: Seq<TokenV>, i: int) -> Result<(ExprV, int), ParseError> {
    if i >= toks.len() {
        Err(ParseError::UnexpectedEnd)
    } else if toks[i].token_type != TokenType::IntLit {
        Err(ParseError::UnexpectedToken { expected: TokenType::IntLit, found: toks[i].token_type })
    } else {
        match toks[i].value {
            None => Err(ParseError::MalformedIntLiteral),
            Some(s) => if is_i32_literal(s) {
                Ok((ExprV::Number(int_of_digits(s) as i32), i + 1))
            } else {
                Err(ParseError::MalformedIntLiteral)
            },
        }
    }
}

pub open spec fn sp_parse_identifier(toks: Seq<TokenV>, i: int) -> Result<
    (ExprV, int),
    ParseError,
> {
    if i >= toks.len() {
        Err(ParseError::UnexpectedEnd)
    } else if toks[i].token_type != TokenType::Identifier {
        Err(
            ParseError::UnexpectedToken {
                expected: TokenType::Identifier,
                found: toks[i].token_type,
            },
        )
    } else {
        match toks[i].value {
            None => Err(ParseError::MissingTokenValue),
            Some(s) => Ok((ExprV::Identifier(s), i + 1)),
        }
    }
}

/// A character literal becomes the integer value of the character between
/// the quotes, so later stages treat it as a plain number.
pub open spec fn sp_parse_character(toks: Seq<TokenV>, i: int) -> Result<
    (ExprV, int),
    ParseError,
> {
    if i >= toks.len() {
        Err(ParseError::UnexpectedEnd)
    } else if toks[i].token_type != TokenType::Char {
        Err(ParseError::UnexpectedToken { expected: TokenType::Char, found: toks[i].token_type })
    } else {
        match toks[i].value {
            None => Err(ParseError::MalformedCharLiteral),
            Some(s) => if s.len() == 3 && s[0] == '\'' && s[2] == '\'' {
                Ok((ExprV::Number(s[1] as u32 as i32), i + 1))
            } else {
                Err(ParseError::MalformedCharLiteral)
            },
        }
    }
}

pub open spec fn sp_parse_factor(toks: Seq<TokenV>, i: int) -> Result<(ExprV, int), ParseError>
    decreases toks.len() - i, 2int,
{
    if i >= toks.len() {
        Err(ParseError::UnexpectedEnd)
    } else {
        match toks[i].token_type {
            TokenType::LParen => match sp_parse_expression(toks, i + 1) {
                Err(e) => Err(e),
                Ok((e, j)) => if j >= toks.len() {
                    Err(ParseError::UnexpectedEnd)
                } else if toks[j].token_type == TokenType::RParen {
                    Ok((e, j + 1))
                } else {
                    Err(
                        ParseError::UnexpectedToken {
                            expected: TokenType::RParen,
                            found: toks[j].token_type,
                        },
                    )
                },
            },
            TokenType::BitComplement => sp_parse_unary_operation(toks, i),
            TokenType::Minus => sp_parse_unary_operation(toks, i),
            TokenType::Not => sp_parse_unary_operation(toks, i),
            TokenType::IntLit => sp_parse_integer(toks, i),
            TokenType::Identifier => sp_parse_identifier(toks, i),
            _ => Err(ParseError::ExpectedFactor { found: toks[i].token_type }),
        }
    }
}

pub open spec fn sp_parse_unary_operation(toks: Seq<TokenV>, i: int) -> Result<
    (ExprV, int),
    ParseError,
>
    decreases toks.len() - i, 1int,
{
    if i >= toks.len() {
        Err(ParseError::UnexpectedEnd)
    } else {
        let op = toks[i].token_type;
        if op == TokenType::BitComplement || op == TokenType::Minus || op == TokenType::Not {
            match sp_parse_factor(toks, i + 1) {
                Err(e) => Err(e),
                Ok((operand, j)) => Ok((ExprV::UnaryOp(op, Some(Box::new(operand))), j)),
            }
        } else {
            Err(ParseError::ExpectedUnaryOperator { found: op })
        }
    }
}

/// Whether a token kind belongs to the operator set of one binary level.
pub open spec fn level_op(level: int, t: TokenType) -> bool {
    if level == 3 {
        t == TokenType::Mul || t == TokenType::Div
    } else if level == 4 {
        t == TokenType::Plus || t == TokenType::Minus
    } else if level == 5 {
        t == TokenType::Lt || t == TokenType::Gt || t == TokenType::Le || t == TokenType::Ge
    } else if level == 6 {
        t == TokenType::Eq || t == TokenType::Neq
    } else if level == 7 {
        t == TokenType::And
    } else {
        t == TokenType::Or
    }
}

/// One operand at the next-higher level, then a left-associative fold while
/// the current token carries this level's operator.
pub open spec fn sp_parse_level(toks: Seq<TokenV>, i: int, level: int) -> Result<
    (ExprV, int),
    ParseError,
>
    decreases toks.len() - i, level, 1int,
{
    if !(3 <= level <= 8) {
        Err(ParseError::UnexpectedEnd)
    } else {
        let below = if level == 3 {
            sp_parse_factor(toks, i)
        } else {
            sp_parse_level(toks, i, level - 1)
        };
        match below {
            Err(e) => Err(e),
            Ok((first, j)) => if i <= j <= toks.len() {
                sp_parse_level_rest(toks, first, j, level)
            } else {
                Err(ParseError::UnexpectedEnd)
            },
        }
    }
}

pub open spec fn sp_parse_level_rest(toks: Seq<TokenV>, acc: ExprV, j: int, level: int) -> Result<
    (ExprV, int),
    ParseError,
>
    decreases toks.len() - j, level, 0int,
{
    if !(3 <= level <= 8) {
        Err(ParseError::UnexpectedEnd)
    } else if j >= toks.len() {
        Err(ParseError::UnexpectedEnd)
    } else if j < 0 {
        Err(ParseError::UnexpectedEnd)
    } else if level_op(level, toks[j].token_type) {
        let op = toks[j].token_type;
        let below = if level == 3 {
            sp_parse_factor(toks, j + 1)
        } else {
            sp_parse_level(toks, j + 1, level - 1)
        };
        match below {
            Err(e) => Err(e),
            Ok((right, k)) => if j < k <= toks.len() {
                sp_parse_level_rest(
                    toks,
                    ExprV::BinaryOp(op, Box::new(acc), Box::new(right)),
                    k,
                    level,
                )
            } else {
                Err(ParseError::UnexpectedEnd)
            },
        }
    } else {
        Ok((acc, j))
    }
}

/// Assignment as an expression: when the current token is an identifier and
/// the next is `=`, fold a right-associative declare-assign node; otherwise
/// parse an or-expression.
pub open spec fn sp_parse_decl_assign(toks: Seq<TokenV>, i: int) -> Result<
    (ExprV, int),
    ParseError,
>
    decreases toks.len() - i, 9int,
{
    if 0 <= i && i < toks.len() && toks[i].token_type == TokenType::Identifier && i + 1
        < toks.len() && toks[i + 1].token_type == TokenType::Assign {
        match toks[i].value {
            None => Err(ParseError::MissingTokenValue),
            Some(name) => match sp_parse_decl_assign(toks, i + 2) {
                Err(e) => Err(e),
                Ok((rhs, j)) => Ok(
                    (
                        ExprV::DeclAssign(
                            Some(Box::new(ExprV::Identifier(name))),
                            Some(TokenType::Assign),
                            Some(Box::new(rhs)),
                        ),
                        j,
                    ),
                ),
            },
        }
    } else {
        sp_parse_level(toks, i, 8)
    }
}

pub open spec fn sp_parse_expression(toks: Seq<TokenV>, i: int) -> Result<(ExprV, int), ParseError>
    decreases toks.len() - i, 10int,
{
    sp_parse_decl_assign(toks, i)
}

// ---------------------------------------------------------------------------
// Expression parsing, executable
// ---------------------------------------------------------------------------
/// The tokens of a stream, viewed: one view per token.
pub proof fn lemma_toks_view(v: Vec<Token>)
    ensures
        v.deep_view().len() == v@.len(),
        forall|i: int| 0 <= i < v@.len() ==> v.deep_view()[i] == v@[i]@,
{
    assert forall|i: int| 0 <= i < v@.len() implies v.deep_view()[i] == v@[i]@ by {
        assert(v.deep_view()[i] == v@[i].deep_view());
    }
}

/// The contract every expression parser meets: the stream and the symbol
/// table are untouched, and the result together with the cursor movement is
/// exactly what the model says. A parsed node consumed at least one token
/// and holds no more nodes than tokens consumed.
pub open spec fn expr_step(
    p0: Parser,
    p1: Parser,
    r: Result<ExprNode, ParseError>,
    sp: Result<(ExprV, int), ParseError>,
) -> bool {
    &&& p1.token_stream == p0.token_stream
    &&& p1.symbol_table == p0.symbol_table
    &&& p1.wf()
    &&& p0.token_index <= p1.token_index <= p0.token_stream@.len()
    &&& match r {
        Ok(e) => {
            &&& sp == Ok::<(ExprV, int), ParseError>((e@, p1.token_index as int))
            &&& p0.token_index < p1.token_index
            &&& esize(e@) <= p1.token_index - p0.token_index
        },
        Err(pe) => sp == Err::<(ExprV, int), ParseError>(pe),
    }
}

impl Parser {
    pub fn parse_integer(&mut self) -> (r: Result<ExprNode, ParseError>)
        requires
            old(self).wf(),
        ensures
            expr_step(
                *old(self),
                *final(self),
                r,
                sp_parse_integer(old(self).toks(), old(self).token_index as int),
            ),
    {
        proof {
            lemma_toks_view(self.token_stream);
        }
        if self.token_index >= self.token_stream.len() {
            return Err(ParseError::UnexpectedEnd);
        }
        let tt = self.token_stream[self.token_index].token_type;
        if tt != TokenType::IntLit {
            return Err(ParseError::UnexpectedToken { expected: TokenType::IntLit, found: tt });
        }
        let parsed: i32 = match &self.token_stream[self.token_index].value {
            Some(s) => match parse_i32(s.as_str()) {
                Some(v) => v,
                None => {
                    return Err(ParseError::MalformedIntLiteral);
                },
            },
            None => {
                return Err(ParseError::MalformedIntLiteral);
            },
        };
        self.consume();
        Ok(ExprNode { expr: Expr::Number(parsed) })
    }

    pub fn parse_identifier(&mut self) -> (r: Result<ExprNode, ParseError>)
        requires
            old(self).wf(),
        ensures
            expr_step(
                *old(self),
                *final(self),
                r,
                sp_parse_identifier(old(self).toks(), old(self).token_index as int),
            ),
    {
        proof {
            lemma_toks_view(self.token_stream);
        }
        if self.token_index >= self.token_stream.len() {
            return Err(ParseError::UnexpectedEnd);
        }
        let tt = self.token_stream[self.token_index].token_type;
        if tt != TokenType::Identifier {
            return Err(ParseError::UnexpectedToken { expected: TokenType::Identifier, found: tt });
        }
        let name: String = match &self.token_stream[self.token_index].value {
            Some(s) => s.clone(),
            None => {
                return Err(ParseError::MissingTokenValue);
            },
        };
        self.consume();
        Ok(ExprNode { expr: Expr::Identifier(name) })
    }

    /// Parses a character literal into the integer value of its character,
    /// so code generation can treat it like any number.
    pub fn parse_character(&mut self) -> (r: Result<ExprNode, ParseError>)
        requires
            old(self).wf(),
        ensures
            expr_step(
                *old(self),
                *final(self),
                r,
                sp_parse_character(old(self).toks(), old(self).token_index as int),
            ),
    {
        proof {
            lemma_toks_view(self.token_stream);
        }
        if self.token_index >= self.token_stream.len() {
            return Err(ParseError::UnexpectedEnd);
        }
        let tt = self.token_stream[self.token_index].token_type;
        if tt != TokenType::Char {
            return Err(ParseError::UnexpectedToken { expected: TokenType::Char, found: tt });
        }
        let parsed: i32 = match &self.token_stream[self.token_index].value {
            Some(s) => {
                if s.as_str().unicode_len() == 3 && s.as_str().get_char(0) == '\''
                    && s.as_str().get_char(2) == '\'' {
                    (s.as_str().get_char(1) as u32) as i32
                } else {
                    return Err(ParseError::MalformedCharLiteral);
                }
            },
            None => {
                return Err(ParseError::MalformedCharLiteral);
            },
        };
        self.consume();
        Ok(ExprNode { expr: Expr::Number(parsed) })
    }

    pub fn parse_unary_operation(&mut self) -> (r: Result<ExprNode, ParseError>)
        requires
            old(self).wf(),
        ensures
            expr_step(
                *old(self),
                *final(self),
                r,
                sp_parse_unary_operation(old(self).toks(), old(self).token_index as int),
            ),
        decreases old(self).token_stream@.len() - old(self).token_index, 1int,
    {
        proof {
            lemma_toks_view(self.token_stream);
        }
        if self.token_index >= self.token_stream.len() {
            return Err(ParseError::UnexpectedEnd);
        }
        let op = self.token_stream[self.token_index].token_type;
        if op == TokenType::BitComplement || op == TokenType::Minus || op == TokenType::Not {
            self.consume();
            let operand = match self.parse_factor() {
                Ok(e) => e,
                Err(pe) => {
                    return Err(pe);
                },
            };
            let ghost ov = operand@;
            let node = ExprNode { expr: Expr::UnaryOp(op, Some(Box::new(operand))) };
            proof {
                assert(node@ == ExprV::UnaryOp(op, Some(Box::new(ov))));
                assert(esize(node@) == 1 + esize(ov));
            }
            Ok(node)
        } else {
            Err(ParseError::ExpectedUnaryOperator { found: op })
        }
    }

    pub fn parse_factor(&mut self) -> (r: Result<ExprNode, ParseError>)
        requires
            old(self).wf(),
        ensures
            expr_step(
                *old(self),
                *final(self),
                r,
                sp_parse_factor(old(self).toks(), old(self).token_index as int),
            ),
        decreases old(self).token_stream@.len() - old(self).token_index, 2int,
    {
        proof {
            lemma_toks_view(self.token_stream);
        }
        if self.token_index >= self.token_stream.len() {
            return Err(ParseError::UnexpectedEnd);
        }
        let tt = self.token_stream[self.token_index].token_type;
        match tt {
            TokenType::LParen => {
                self.consume();
                let inner = match self.parse_expression() {
                    Ok(e) => e,
                    Err(pe) => {
                        return Err(pe);
                    },
                };
                if self.token_index >= self.token_stream.len() {
                    return Err(ParseError::UnexpectedEnd);
                }
                let closing = self.token_stream[self.token_index].token_type;
                if closing == TokenType::RParen {
                    self.consume();
                    Ok(inner)
                } else {
                    Err(ParseError::UnexpectedToken { expected: TokenType::RParen, found: closing })
                }
            },
            TokenType::BitComplement => self.parse_unary_operation(),
            TokenType::Minus => self.parse_unary_operation(),
            TokenType::Not => self.parse_unary_operation(),
            TokenType::IntLit => self.parse_integer(),
            TokenType::Identifier => self.parse_identifier(),
            _ => Err(ParseError::ExpectedFactor { found: tt }),
        }
    }

    /// One left-associative binary level: parses one operand at the level
    /// below, then folds further operands while the current token carries one
    /// of this level's operators. `level` picks the operator set; see
    /// `level_op`.
    #[verifier::loop_isolation(false)]
    fn parse_binary_level(&mut self, level: u8) -> (r: Result<ExprNode, ParseError>)
        requires
            old(self).wf(),
            3 <= level <= 8,
        ensures
            expr_step(
                *old(self),
                *final(self),
                r,
                sp_parse_level(old(self).toks(), old(self).token_index as int, level as int),
            ),
        decreases old(self).token_stream@.len() - old(self).token_index, level as int, 1int,
    {
        proof {
            lemma_toks_view(self.token_stream);
        }
        let ghost toks = self.toks();
        let ghost i0 = self.token_index as int;
        let ghost stream0 = self.token_stream;
        let ghost st0 = self.symbol_table;
        let below = if level == 3 {
            self.parse_factor()
        } else {
            self.parse_binary_level(level - 1)
        };
        let mut left = match below {
            Ok(e) => e,
            Err(pe) => {
                return Err(pe);
            },
        };
        loop
            invariant
                3 <= level <= 8,
                self.wf(),
                self.token_stream == stream0,
                self.symbol_table == st0,
                toks == stream0.deep_view(),
                i0 < self.token_index <= stream0@.len(),
                esize(left@) <= self.token_index - i0,
                sp_parse_level(toks, i0, level as int) == sp_parse_level_rest(
                    toks,
                    left@,
                    self.token_index as int,
                    level as int,
                ),
            decreases stream0@.len() - self.token_index,
        {
            if self.token_index >= self.token_stream.len() {
                return Err(ParseError::UnexpectedEnd);
            }
            proof {
                lemma_toks_view(self.token_stream);
            }
            let tt = self.token_stream[self.token_index].token_type;
            let here: bool = match level {
                3 => tt == TokenType::Mul || tt == TokenType::Div,
                4 => tt == TokenType::Plus || tt == TokenType::Minus,
                5 => tt == TokenType::Lt || tt == TokenType::Gt || tt == TokenType::Le || tt
                    == TokenType::Ge,
                6 => tt == TokenType::Eq || tt == TokenType::Neq,
                7 => tt == TokenType::And,
                _ => tt == TokenType::Or,
            };
            proof {
                assert(here == level_op(level as int, tt));
            }
            if !here {
                break ;
            }
            self.consume();
            let right_res = if level == 3 {
                self.parse_factor()
            } else {
                self.parse_binary_level(level - 1)
            };
            let right = match right_res {
                Ok(e) => e,
                Err(pe) => {
                    return Err(pe);
                },
            };
            left = ExprNode { expr: Expr::BinaryOp(tt, Box::new(left), Box::new(right)) };
        }
        Ok(left)
    }

    pub fn parse_term(&mut self) -> (r: Result<ExprNode, ParseError>)
        requires
            old(self).wf(),
        ensures
            expr_step(
                *old(self),
                *final(self),
                r,
                sp_parse_level(old(self).toks(), old(self).token_index as int, 3),
            ),
        decreases old(self).token_stream@.len() - old(self).token_index, 3int, 2int,
    {
        self.parse_binary_level(3)
    }

    pub fn parse_add(&mut self) -> (r: Result<ExprNode, ParseError>)
        requires
            old(self).wf(),
        ensures
            expr_step(
                *old(self),
                *final(self),
                r,
                sp_parse_level(old(self).toks(), old(self).token_index as int, 4),
            ),
        decreases old(self).token_stream@.len() - old(self).token_index, 4int, 2int,
    {
        self.parse_binary_level(4)
    }

    pub fn parse_relation(&mut self) -> (r: Result<ExprNode, ParseError>)
        requires
            old(self).wf(),
        ensures
            expr_step(
                *old(self),
                *final(self),
                r,
                sp_parse_level(old(self).toks(), old(self).token_index as int, 5),
            ),
        decreases old(self).token_stream@.len() - old(self).token_index, 5int, 2int,
    {
        self.parse_binary_level(5)
    }

    pub fn parse_eqality(&mut self) -> (r: Result<ExprNode, ParseError>)
        requires
            old(self).wf(),
        ensures
            expr_step(
                *old(self),
                *final(self),
                r,
                sp_parse_level(old(self).toks(), old(self).token_index as int, 6),
            ),
        decreases old(self).token_stream@.len() - old(self).token_index, 6int, 2int,
    {
        self.parse_binary_level(6)
    }

    pub fn parse_and(&mut self) -> (r: Result<ExprNode, ParseError>)
        requires
            old(self).wf(),
        ensures
            expr_step(
                *old(self),
                *final(self),
                r,
                sp_parse_level(old(self).toks(), old(self).token_index as int, 7),
            ),
        decreases old(self).token_stream@.len() - old(self).token_index, 7int, 2int,
    {
        self.parse_binary_level(7)
    }

    pub fn parse_or(&mut self) -> (r: Result<ExprNode, ParseError>)
        requires
            old(self).wf(),
        ensures
            expr_step(
                *old(self),
                *final(self),
                r,
                sp_parse_level(old(self).toks(), old(self).token_index as int, 8),
            ),
        decreases old(self).token_stream@.len() - old(self).token_index, 8int, 2int,
    {
        self.parse_binary_level(8)
    }

    /// Assignment as an expression. When the current token is an identifier
    /// and the one after it is `=`, the right-hand side is parsed
    /// recursively, so chains like `a = b = 5` associate to the right;
    /// otherwise this is an or-expression.
    pub fn parse_decl_assign(&mut self) -> (r: Result<ExprNode, ParseError>)
        requires
            old(self).wf(),
        ensures
            expr_step(
                *old(self),
                *final(self),
                r,
                sp_parse_decl_assign(old(self).toks(), old(self).token_index as int),
            ),
        decreases old(self).token_stream@.len() - old(self).token_index, 9int,
    {
        proof {
            lemma_toks_view(self.token_stream);
        }
        let n = self.token_stream.len();
        let i = self.token_index;
        let assign_form: bool = if i < n {
            if self.token_stream[i].token_type == TokenType::Identifier && i + 1 < n {
                self.token_stream[i + 1].token_type == TokenType::Assign
            } else {
                false
            }
        } else {
            false
        };
        if assign_form {
            let name: String = match &self.token_stream[i].value {
                Some(s) => s.clone(),
                None => {
                    return Err(ParseError::MissingTokenValue);
                },
            };
            self.consume();
            self.consume();
            let rhs = match self.parse_decl_assign() {
                Ok(e) => e,
                Err(pe) => {
                    return Err(pe);
                },
            };
            let ghost nv = name@;
            let ghost nv_str = name;
            let ghost rv = rhs@;
            let node = ExprNode {
                expr: Expr::DeclAssign(
                    Some(Box::new(ExprNode { expr: Expr::Identifier(name) })),
                    Some(TokenType::Assign),
                    Some(Box::new(rhs)),
                ),
            };
            proof {
                assert(view_expr_node(ExprNode { expr: Expr::Identifier(nv_str) })
                    == ExprV::Identifier(nv));
                assert(node@ == ExprV::DeclAssign(
                    Some(Box::new(ExprV::Identifier(nv))),
                    Some(TokenType::Assign),
                    Some(Box::new(rv)),
                ));
                assert(esize(ExprV::Identifier(nv)) == 1);
                assert(esize(node@) == 2 + esize(rv));
            }
            Ok(node)
        } else {
            self.parse_or()
        }
    }

    /// The whole expression grammar starts at the declare-assign level.
    pub fn parse_expression(&mut self) -> (r: Result<ExprNode, ParseError>)
        requires
            old(self).wf(),
        ensures
            expr_step(
                *old(self),
                *final(self),
                r,
                sp_parse_expression(old(self).toks(), old(self).token_index as int),
            ),
        decreases old(self).token_stream@.len() - old(self).token_index, 10int,
    {
        self.parse_decl_assign()
    }
}

// ---------------------------------------------------------------------------
// The model of statement, function and program parsing
// ---------------------------------------------------------------------------
/// `int a = expr;`, `int a;`, `char c = expr;`: the declared type, the
/// identifier, an optional initializer, and the closing semicolon.
pub open spec fn sp_parse_assignment(toks: Seq<TokenV>, i: int) -> Result<
    (StatementV, int),
    ParseError,
>
    decreases toks.len() - i, 11int,
{
    if i >= toks.len() || i < 0 {
        Err(ParseError::UnexpectedEnd)
    } else {
        let kw = toks[i].token_type;
        if kw != TokenType::IntKeyword && kw != TokenType::CharKeyword {
            Err(ParseError::UnexpectedToken { expected: TokenType::IntKeyword, found: kw })
        } else if i + 1 >= toks.len() {
            Err(ParseError::UnexpectedEnd)
        } else if toks[i + 1].token_type != TokenType::Identifier {
            Err(
                ParseError::UnexpectedToken {
                    expected: TokenType::Identifier,
                    found: toks[i + 1].token_type,
                },
            )
        } else if toks[i + 1].value is None {
            Err(ParseError::MissingTokenValue)
        } else if i + 2 >= toks.len() {
            Err(ParseError::UnexpectedEnd)
        } else if toks[i + 2].token_type == TokenType::Assign {
            match sp_parse_decl_assign(toks, i + 3) {
                Err(e) => Err(e),
                Ok((e, j)) => if j >= toks.len() {
                    Err(ParseError::UnexpectedEnd)
                } else if toks[j].token_type == TokenType::Semi {
                    Ok(
                        (
                            StatementV::Assignment(
                                kw,
                                toks[i + 1],
                                Some(TokenType::Assign),
                                Some(Box::new(e)),
                            ),
                            j + 1,
                        ),
                    )
                } else {
                    Err(
                        ParseError::UnexpectedToken {
                            expected: TokenType::Semi,
                            found: toks[j].token_type,
                        },
                    )
                },
            }
        } else if toks[i + 2].token_type == TokenType::Semi {
            Ok((StatementV::Assignment(kw, toks[i + 1], None, None), i + 3))
        } else {
            Err(
                ParseError::UnexpectedToken {
                    expected: TokenType::Semi,
                    found: toks[i + 2].token_type,
                },
            )
        }
    }
}

pub open spec fn sp_parse_return(toks: Seq<TokenV>, i: int) -> Result<(StatementV, int), ParseError>
    decreases toks.len() - i, 11int,
{
    if i >= toks.len() || i < 0 {
        Err(ParseError::UnexpectedEnd)
    } else if toks[i].token_type != TokenType::ReturnKeyword {
        Err(
            ParseError::UnexpectedToken {
                expected: TokenType::ReturnKeyword,
                found: toks[i].token_type,
            },
        )
    } else {
        match sp_parse_expression(toks, i + 1) {
            Err(e) => Err(e),
            Ok((e, j)) => if j >= toks.len() {
                Err(ParseError::UnexpectedEnd)
            } else if toks[j].token_type == TokenType::Semi {
                Ok((StatementV::Return(e), j + 1))
            } else {
                Err(
                    ParseError::UnexpectedToken {
                        expected: TokenType::Semi,
                        found: toks[j].token_type,
                    },
                )
            },
        }
    }
}

/// A bare expression statement: `expr;`.
pub open spec fn sp_parse_decl_assign_for_statement(toks: Seq<TokenV>, i: int) -> Result<
    (StatementV, int),
    ParseError,
>
    decreases toks.len() - i, 11int,
{
    match sp_parse_decl_assign(toks, i) {
        Err(e) => Err(e),
        Ok((e, j)) => if j >= toks.len() {
            Err(ParseError::UnexpectedEnd)
        } else if toks[j].token_type == TokenType::Semi {
            Ok((StatementV::DeclAssignForStmnt(Some(Box::new(e))), j + 1))
        } else {
            Err(ParseError::UnexpectedToken { expected: TokenType::Semi, found: toks[j].token_type })
        },
    }
}

/// Statement dispatch on the leading token: a type keyword opens a
/// declaration, `return` a return statement, an identifier or a literal a
/// bare expression statement.
pub open spec fn sp_parse_statement(toks: Seq<TokenV>, i: int) -> Result<
    (StatementV, int),
    ParseError,
>
    decreases toks.len() - i, 12int,
{
    if i >= toks.len() || i < 0 {
        Err(ParseError::UnexpectedEnd)
    } else {
        match toks[i].token_type {
            TokenType::IntKeyword => sp_parse_assignment(toks, i),
            TokenType::CharKeyword => sp_parse_assignment(toks, i),
            TokenType::ReturnKeyword => sp_parse_return(toks, i),
            TokenType::Identifier => sp_parse_decl_assign_for_statement(toks, i),
            TokenType::IntLit => sp_parse_decl_assign_for_statement(toks, i),
            _ => Err(ParseError::ExpectedStatement { found: toks[i].token_type }),
        }
    }
}

/// The statements of a function body, up to the closing brace.
pub open spec fn sp_parse_statements(toks: Seq<TokenV>, j: int) -> Result<
    (Seq<StatementV>, int),
    ParseError,
>
    decreases toks.len() - j, 13int,
{
    if j >= toks.len() || j < 0 {
        Err(ParseError::UnexpectedEnd)
    } else if toks[j].token_type == TokenType::RBrace {
        Ok((Seq::empty(), j))
    } else {
        match sp_parse_statement(toks, j) {
            Err(e) => Err(e),
            Ok((s, k)) => if j < k <= toks.len() {
                match sp_parse_statements(toks, k) {
                    Err(e) => Err(e),
                    Ok((ss, m)) => Ok((seq![s] + ss, m)),
                }
            } else {
                Err(ParseError::UnexpectedEnd)
            },
        }
    }
}

/// A function: `int name ( ) { statements }`.
pub open spec fn sp_parse_function(toks: Seq<TokenV>, i: int) -> Result<
    (FunctionV, int),
    ParseError,
>
    decreases toks.len() - i, 14int,
{
    if i >= toks.len() || i < 0 {
        Err(ParseError::UnexpectedEnd)
    } else if toks[i].token_type != TokenType::IntKeyword {
        Err(
            ParseError::UnexpectedToken {
                expected: TokenType::IntKeyword,
                found: toks[i].token_type,
            },
        )
    } else if i + 1 >= toks.len() {
        Err(ParseError::UnexpectedEnd)
    } else if toks[i + 1].token_type != TokenType::Identifier {
        Err(
            ParseError::UnexpectedToken {
                expected: TokenType::Identifier,
                found: toks[i + 1].token_type,
            },
        )
    } else if toks[i + 1].value is None {
        Err(ParseError::MissingTokenValue)
    } else if i + 2 >= toks.len() {
        Err(ParseError::UnexpectedEnd)
    } else if toks[i + 2].token_type != TokenType::LParen {
        Err(
            ParseError::UnexpectedToken {
                expected: TokenType::LParen,
                found: toks[i + 2].token_type,
            },
        )
    } else if i + 3 >= toks.len() {
        Err(ParseError::UnexpectedEnd)
    } else if toks[i + 3].token_type != TokenType::RParen {
        Err(
            ParseError::UnexpectedToken {
                expected: TokenType::RParen,
                found: toks[i + 3].token_type,
            },
        )
    } else if i + 4 >= toks.len() {
        Err(ParseError::UnexpectedEnd)
    } else if toks[i + 4].token_type != TokenType::LBrace {
        Err(
            ParseError::UnexpectedToken {
                expected: TokenType::LBrace,
                found: toks[i + 4].token_type,
            },
        )
    } else {
        match sp_parse_statements(toks, i + 5) {
            Err(e) => Err(e),
            Ok((ss, k)) => if k >= toks.len() {
                Err(ParseError::UnexpectedEnd)
            } else if toks[k].token_type == TokenType::RBrace {
                Ok(
                    (
                        FunctionV {
                            return_value: toks[i].token_type,
                            name: toks[i + 1].value->Some_0,
                            body: ss,
                        },
                        k + 1,
                    ),
                )
            } else {
                Err(
                    ParseError::UnexpectedToken {
                        expected: TokenType::RBrace,
                        found: toks[k].token_type,
                    },
                )
            },
        }
    }
}

/// The functions of a program, one after the other until the stream ends.
pub open spec fn sp_parse_functions(toks: Seq<TokenV>, i: int) -> Result<
    (Seq<FunctionV>, int),
    ParseError,
>
    decreases toks.len() - i, 15int,
{
    if i >= toks.len() {
        Ok((Seq::empty(), i))
    } else {
        match sp_parse_function(toks, i) {
            Err(e) => Err(e),
            Ok((f, j)) => if i < j <= toks.len() {
                match sp_parse_functions(toks, j) {
                    Err(e) => Err(e),
                    Ok((fs, m)) => Ok((seq![f] + fs, m)),
                }
            } else {
                Err(ParseError::UnexpectedEnd)
            },
        }
    }
}

/// The model of the whole parse: every function of the stream, with the
/// function names collected in order for the forward declarations. An empty
/// stream is an empty program; leftover tokens that do not open a function
/// are an error.
pub open spec fn sp_parse_program(toks: Seq<TokenV>) -> Result<ProgramV, ParseError> {
    match sp_parse_functions(toks, 0) {
        Err(e) => Err(e),
        Ok((fs, _)) => Ok(ProgramV { function_names: fn_names(fs), body: fs }),
    }
}

/// The names of a sequence of functions, in order.
pub open spec fn fn_names(fs: Seq<FunctionV>) -> Seq<Seq<char>> {
    fs.map_values(|f: FunctionV| f.name)
}

pub proof fn lemma_fn_names_push(fs: Seq<FunctionV>, f: FunctionV)
    ensures
        fn_names(fs.push(f)) == fn_names(fs).push(f.name),
{
    assert(fn_names(fs.push(f)) =~= fn_names(fs).push(f.name));
}

// ---------------------------------------------------------------------------
// The model of declaration registration
// ---------------------------------------------------------------------------
/// The name a declaration statement registers.
pub open spec fn decl_name(s: StatementV) -> Seq<char> {
    match s {
        StatementV::Assignment(_, tok, _, _) => match tok.value {
            Some(v) => v,
            None => Seq::empty(),
        },
        _ => Seq::empty(),
    }
}

/// Whether a declaration statement carries an initializer.
pub open spec fn decl_initialized(s: StatementV) -> bool {
    match s {
        StatementV::Assignment(_, _, op, _) => op == Some(TokenType::Assign),
        _ => false,
    }
}

/// The symbol table after one statement: an `int` declaration registers one
/// entry, every other statement leaves the table unchanged.
pub open spec fn table_after_stmt(t: SymTabV, s: StatementV) -> SymTabV {
    if is_decl(s) {
        t.push_entry(decl_name(s), decl_initialized(s))
    } else {
        t
    }
}

pub open spec fn table_after_stmts(t: SymTabV, ss: Seq<StatementV>) -> SymTabV
    decreases ss.len(),
{
    if ss.len() == 0 {
        t
    } else {
        table_after_stmts(table_after_stmt(t, ss.first()), ss.drop_first())
    }
}

pub open spec fn table_after_fns(t: SymTabV, fs: Seq<FunctionV>) -> SymTabV
    decreases fs.len(),
{
    if fs.len() == 0 {
        t
    } else {
        table_after_fns(table_after_stmts(t, fs.first().body), fs.drop_first())
    }
}

/// The symbol table that one parse of this program populates, walking
/// declarations left to right, depth first.
pub open spec fn table_after_program(t: SymTabV, p: ProgramV) -> SymTabV {
    table_after_fns(t, p.body)
}

// ---------------------------------------------------------------------------
// Statement, function and program parsing, executable
// ---------------------------------------------------------------------------
pub proof fn lemma_table_after_stmts_push(t: SymTabV, ss: Seq<StatementV>, s: StatementV)
    ensures
        table_after_stmts(t, ss.push(s)) == table_after_stmt(table_after_stmts(t, ss), s),
    decreases ss.len(),
{
    assert(ss.push(s).len() == ss.len() + 1);
    if ss.len() == 0 {
        assert(ss.push(s).drop_first() =~= Seq::<StatementV>::empty());
        assert(ss.push(s).first() == s);
        assert(table_after_stmts(table_after_stmt(t, s), Seq::<StatementV>::empty())
            == table_after_stmt(t, s));
        assert(table_after_stmts(t, ss) == t);
    } else {
        assert(ss.push(s).drop_first() =~= ss.drop_first().push(s));
        assert(ss.push(s).first() == ss.first());
        lemma_table_after_stmts_push(table_after_stmt(t, ss.first()), ss.drop_first(), s);
    }
}

pub proof fn lemma_table_after_fns_push(t: SymTabV, fs: Seq<FunctionV>, f: FunctionV)
    ensures
        table_after_fns(t, fs.push(f)) == table_after_stmts(table_after_fns(t, fs), f.body),
    decreases fs.len(),
{
    assert(fs.push(f).len() == fs.len() + 1);
    if fs.len() == 0 {
        assert(fs.push(f).drop_first() =~= Seq::<FunctionV>::empty());
        assert(fs.push(f).first() == f);
        assert(table_after_fns(t, fs) == t);
        assert(table_after_fns(table_after_stmts(t, f.body), Seq::<FunctionV>::empty())
            == table_after_stmts(t, f.body));
    } else {
        assert(fs.push(f).drop_first() =~= fs.drop_first().push(f));
        assert(fs.push(f).first() == fs.first());
        lemma_table_after_fns_push(table_after_stmts(t, fs.first().body), fs.drop_first(), f);
    }
}

/// The capacity the symbol table needs before parsing goes on: one fresh
/// slot for every remaining token is always enough, because a declaration
/// spends at least one token.
pub open spec fn table_room(p: Parser) -> bool {
    p.symbol_table.current_stack_offset as int + 4 * (p.token_stream@.len() - p.token_index)
        <= u32::MAX as int
}

/// The contract every statement parser meets: the stream is untouched, and
/// on success the result, the cursor movement and the symbol-table change
/// are exactly what the model says. A failed statement leaves the table as
/// it was.
pub open spec fn stmt_step(
    p0: Parser,
    p1: Parser,
    r: Result<StatementNode, ParseError>,
    sp: Result<(StatementV, int), ParseError>,
) -> bool {
    &&& p1.token_stream == p0.token_stream
    &&& p1.wf()
    &&& p0.token_index <= p1.token_index <= p0.token_stream@.len()
    &&& match r {
        Ok(s) => {
            &&& sp == Ok::<(StatementV, int), ParseError>((s@, p1.token_index as int))
            &&& p0.token_index < p1.token_index
            &&& ssize(s@) <= p1.token_index - p0.token_index
            &&& p1.symbol_table@ == table_after_stmt(p0.symbol_table@, s@)
        },
        Err(pe) => {
            &&& sp == Err::<(StatementV, int), ParseError>(pe)
            &&& p1.symbol_table == p0.symbol_table
        },
    }
}

impl Parser {
    /// Parses a declaration statement: type keyword, identifier, optional
    /// `= expression`, semicolon. An `int` declaration is registered in the
    /// symbol table, marked initialized exactly when an initializer is
    /// present.
    pub fn parse_assignment(&mut self) -> (r: Result<StatementNode, ParseError>)
        requires
            old(self).wf(),
            table_room(*old(self)),
        ensures
            stmt_step(
                *old(self),
                *final(self),
                r,
                sp_parse_assignment(old(self).toks(), old(self).token_index as int),
            ),
        decreases old(self).token_stream@.len() - old(self).token_index, 11int,
    {
        proof {
            lemma_toks_view(self.token_stream);
        }
        let n = self.token_stream.len();
        let i = self.token_index;
        if i >= n {
            return Err(ParseError::UnexpectedEnd);
        }
        let kw = self.token_stream[i].token_type;
        if kw != TokenType::IntKeyword && kw != TokenType::CharKeyword {
            return Err(ParseError::UnexpectedToken { expected: TokenType::IntKeyword, found: kw });
        }
        if i + 1 >= n {
            return Err(ParseError::UnexpectedEnd);
        }
        let id_type = self.token_stream[i + 1].token_type;
        if id_type != TokenType::Identifier {
            return Err(
                ParseError::UnexpectedToken { expected: TokenType::Identifier, found: id_type },
            );
        }
        let name: String = match &self.token_stream[i + 1].value {
            Some(s) => s.clone(),
            None => {
                return Err(ParseError::MissingTokenValue);
            },
        };
        if i + 2 >= n {
            return Err(ParseError::UnexpectedEnd);
        }
        let t2 = self.token_stream[i + 2].token_type;
        if t2 == TokenType::Assign {
            self.consume();
            self.consume();
            self.consume();
            let e = match self.parse_decl_assign() {
                Ok(e) => e,
                Err(pe) => {
                    return Err(pe);
                },
            };
            if self.token_index >= n {
                return Err(ParseError::UnexpectedEnd);
            }
            let ts = self.token_stream[self.token_index].token_type;
            if ts != TokenType::Semi {
                return Err(ParseError::UnexpectedToken { expected: TokenType::Semi, found: ts });
            }
            self.consume();
            let ghost ev = e@;
            let ghost nv = name@;
            let stmt = StatementNode {
                statement: Statement::Assignment(
                    kw,
                    Token { value: Some(name.clone()), token_type: TokenType::Identifier },
                    Some(TokenType::Assign),
                    Some(Box::new(e)),
                ),
            };
            proof {
                assert(stmt@ == StatementV::Assignment(
                    kw,
                    TokenV { value: Some(nv), token_type: TokenType::Identifier },
                    Some(TokenType::Assign),
                    Some(Box::new(ev)),
                ));
                assert(old(self).toks()[i + 1] == TokenV {
                    value: Some(nv),
                    token_type: TokenType::Identifier,
                });
                assert(ssize(stmt@) == 1 + esize(ev));
            }
            if kw == TokenType::IntKeyword {
                self.symbol_table.add_entry(name, true);
            }
            Ok(stmt)
        } else if t2 == TokenType::Semi {
            self.consume();
            self.consume();
            self.consume();
            let ghost nv = name@;
            let stmt = StatementNode {
                statement: Statement::Assignment(
                    kw,
                    Token { value: Some(name.clone()), token_type: TokenType::Identifier },
                    None,
                    None,
                ),
            };
            proof {
                assert(stmt@ == StatementV::Assignment(
                    kw,
                    TokenV { value: Some(nv), token_type: TokenType::Identifier },
                    None,
                    None,
                ));
                assert(old(self).toks()[i + 1] == TokenV {
                    value: Some(nv),
                    token_type: TokenType::Identifier,
                });
                assert(ssize(stmt@) == 1);
            }
            if kw == TokenType::IntKeyword {
                self.symbol_table.add_entry(name, false);
            }
            Ok(stmt)
        } else {
            Err(ParseError::UnexpectedToken { expected: TokenType::Semi, found: t2 })
        }
    }

    /// Parses `return expression ;`.
    pub fn parse_return(&mut self) -> (r: Result<StatementNode, ParseError>)
        requires
            old(self).wf(),
        ensures
            stmt_step(
                *old(self),
                *final(self),
                r,
                sp_parse_return(old(self).toks(), old(self).token_index as int),
            ),
        decreases old(self).token_stream@.len() - old(self).token_index, 11int,
    {
        proof {
            lemma_toks_view(self.token_stream);
        }
        let n = self.token_stream.len();
        if self.token_index >= n {
            return Err(ParseError::UnexpectedEnd);
        }
        let tt = self.token_stream[self.token_index].token_type;
        if tt != TokenType::ReturnKeyword {
            return Err(
                ParseError::UnexpectedToken { expected: TokenType::ReturnKeyword, found: tt },
            );
        }
        self.consume();
        let e = match self.parse_expression() {
            Ok(e) => e,
            Err(pe) => {
                return Err(pe);
            },
        };
        if self.token_index >= n {
            return Err(ParseError::UnexpectedEnd);
        }
        let ts = self.token_stream[self.token_index].token_type;
        if ts != TokenType::Semi {
            return Err(ParseError::UnexpectedToken { expected: TokenType::Semi, found: ts });
        }
        self.consume();
        let ghost ev = e@;
        let stmt = StatementNode { statement: Statement::Return(e) };
        proof {
            assert(stmt@ == StatementV::Return(ev));
            assert(ssize(stmt@) == 1 + esize(ev));
        }
        Ok(stmt)
    }

    /// Parses a bare expression statement: `expression ;`.
    pub fn parse_decl_assign_for_statement(&mut self) -> (r: Result<StatementNode, ParseError>)
        requires
            old(self).wf(),
        ensures
            stmt_step(
                *old(self),
                *final(self),
                r,
                sp_parse_decl_assign_for_statement(
                    old(self).toks(),
                    old(self).token_index as int,
                ),
            ),
        decreases old(self).token_stream@.len() - old(self).token_index, 11int,
    {
        proof {
            lemma_toks_view(self.token_stream);
        }
        let n = self.token_stream.len();
        let e = match self.parse_decl_assign() {
            Ok(e) => e,
            Err(pe) => {
                return Err(pe);
            },
        };
        if self.token_index >= n {
            return Err(ParseError::UnexpectedEnd);
        }
        let ts = self.token_stream[self.token_index].token_type;
        if ts != TokenType::Semi {
            return Err(ParseError::UnexpectedToken { expected: TokenType::Semi, found: ts });
        }
        self.consume();
        let ghost ev = e@;
        let stmt = StatementNode { statement: Statement::DeclAssignForStmnt(Some(Box::new(e))) };
        proof {
            assert(stmt@ == StatementV::DeclAssignForStmnt(Some(Box::new(ev))));
            assert(ssize(stmt@) == 1 + esize(ev));
        }
        Ok(stmt)
    }

    /// Dispatches on the leading token of a statement.
    pub fn parse_statement(&mut self) -> (r: Result<StatementNode, ParseError>)
        requires
            old(self).wf(),
            table_room(*old(self)),
        ensures
            stmt_step(
                *old(self),
                *final(self),
                r,
                sp_parse_statement(old(self).toks(), old(self).token_index as int),
            ),
        decreases old(self).token_stream@.len() - old(self).token_index, 12int,
    {
        proof {
            lemma_toks_view(self.token_stream);
        }
        if self.token_index >= self.token_stream.len() {
            return Err(ParseError::UnexpectedEnd);
        }
        let tt = self.token_stream[self.token_index].token_type;
        match tt {
            TokenType::IntKeyword => self.parse_assignment(),
            TokenType::CharKeyword => self.parse_assignment(),
            TokenType::ReturnKeyword => self.parse_return(),
            TokenType::Identifier => self.parse_decl_assign_for_statement(),
            TokenType::IntLit => self.parse_decl_assign_for_statement(),
            _ => Err(ParseError::ExpectedStatement { found: tt }),
        }
    }
}

/// The contract of function parsing: on success the function node, the
/// cursor movement and the declarations registered are exactly what the
/// model says. On failure the statements parsed before the error keep their
/// registrations, but the table never grows by more than the tokens read.
pub open spec fn fn_step(
    p0: Parser,
    p1: Parser,
    r: Result<FunctionNode, ParseError>,
    sp: Result<(FunctionV, int), ParseError>,
) -> bool {
    &&& p1.token_stream == p0.token_stream
    &&& p1.wf()
    &&& p0.token_index <= p1.token_index <= p0.token_stream@.len()
    &&& p1.symbol_table@.entries.len() - p0.symbol_table@.entries.len() <= p1.token_index
        - p0.token_index
    &&& match r {
        Ok(f) => {
            &&& sp == Ok::<(FunctionV, int), ParseError>((f@, p1.token_index as int))
            &&& p0.token_index < p1.token_index
            &&& fsize(f@) <= p1.token_index - p0.token_index
            &&& p1.symbol_table@ == table_after_stmts(p0.symbol_table@, f@.body)
        },
        Err(pe) => sp == Err::<(FunctionV, int), ParseError>(pe),
    }
}

impl Parser {
    /// Parses one function: `int name ( ) { statements }`. The body's
    /// declarations are registered in the symbol table as they are parsed.
    #[verifier::loop_isolation(false)]
    pub fn parse_function(&mut self) -> (r: Result<FunctionNode, ParseError>)
        requires
            old(self).wf(),
            table_room(*old(self)),
        ensures
            fn_step(
                *old(self),
                *final(self),
                r,
                sp_parse_function(old(self).toks(), old(self).token_index as int),
            ),
        decreases old(self).token_stream@.len() - old(self).token_index, 14int,
    {
        proof {
            lemma_toks_view(self.token_stream);
        }
        let ghost toks = self.toks();
        let n = self.token_stream.len();
        let i = self.token_index;
        if i >= n {
            return Err(ParseError::UnexpectedEnd);
        }
        let return_type = self.token_stream[i].token_type;
        if return_type != TokenType::IntKeyword {
            return Err(
                ParseError::UnexpectedToken { expected: TokenType::IntKeyword, found: return_type },
            );
        }
        if i + 1 >= n {
            return Err(ParseError::UnexpectedEnd);
        }
        let id_type = self.token_stream[i + 1].token_type;
        if id_type != TokenType::Identifier {
            return Err(
                ParseError::UnexpectedToken { expected: TokenType::Identifier, found: id_type },
            );
        }
        let function_name: String = match &self.token_stream[i + 1].value {
            Some(s) => s.clone(),
            None => {
                return Err(ParseError::MissingTokenValue);
            },
        };
        if i + 2 >= n {
            return Err(ParseError::UnexpectedEnd);
        }
        let t2 = self.token_stream[i + 2].token_type;
        if t2 != TokenType::LParen {
            return Err(ParseError::UnexpectedToken { expected: TokenType::LParen, found: t2 });
        }
        if i + 3 >= n {
            return Err(ParseError::UnexpectedEnd);
        }
        let t3 = self.token_stream[i + 3].token_type;
        if t3 != TokenType::RParen {
            return Err(ParseError::UnexpectedToken { expected: TokenType::RParen, found: t3 });
        }
        if i + 4 >= n {
            return Err(ParseError::UnexpectedEnd);
        }
        let t4 = self.token_stream[i + 4].token_type;
        if t4 != TokenType::LBrace {
            return Err(ParseError::UnexpectedToken { expected: TokenType::LBrace, found: t4 });
        }
        self.consume();
        self.consume();
        self.consume();
        self.consume();
        self.consume();
        let ghost start = self.token_index as int;
        let ghost st_entry = self.symbol_table@;
        let mut statement_list: Vec<StatementNode> = Vec::new();
        loop
            invariant
                self.wf(),
                self.token_stream == old(self).token_stream,
                start <= self.token_index <= n,
                self.symbol_table.current_stack_offset as int + 4 * (n - self.token_index)
                    <= u32::MAX as int,
                self.symbol_table@ == table_after_stmts(st_entry, stmts_view(statement_list@)),
                self.symbol_table@.entries.len() <= st_entry.entries.len() + (self.token_index
                    - start),
                stmts_size(stmts_view(statement_list@)) <= self.token_index - start,
                match sp_parse_statements(toks, self.token_index as int) {
                    Ok((ss, m)) => sp_parse_statements(toks, start) == Ok::<
                        (Seq<StatementV>, int),
                        ParseError,
                    >((stmts_view(statement_list@) + ss, m)),
                    Err(e) => sp_parse_statements(toks, start) == Err::<
                        (Seq<StatementV>, int),
                        ParseError,
                    >(e),
                },
            decreases n - self.token_index,
        {
            if self.token_index >= n {
                return Err(ParseError::UnexpectedEnd);
            }
            let tt = self.token_stream[self.token_index].token_type;
            if tt == TokenType::RBrace {
                break ;
            }
            let ghost cur = self.token_index as int;
            let ghost views0 = stmts_view(statement_list@);
            let s = match self.parse_statement() {
                Ok(s) => s,
                Err(pe) => {
                    return Err(pe);
                },
            };
            proof {
                let k = self.token_index as int;
                lemma_stmts_view_push(statement_list@, s);
                lemma_table_after_stmts_push(st_entry, views0, s@);
                lemma_stmts_size_push(views0, s@);
                match sp_parse_statements(toks, k) {
                    Ok((ss2, m)) => {
                        assert(sp_parse_statements(toks, cur) == Ok::<
                            (Seq<StatementV>, int),
                            ParseError,
                        >((seq![s@] + ss2, m)));
                        assert(views0 + (seq![s@] + ss2) =~= views0.push(s@) + ss2);
                    },
                    Err(e) => {},
                }
            }
            statement_list.push(s);
        }
        let ghost close = self.token_index as int;
        self.consume();
        let ghost views = stmts_view(statement_list@);
        let ghost nv = function_name@;
        let function_node = FunctionNode {
            return_value: return_type,
            name: function_name,
            body: statement_list,
        };
        proof {
            assert(function_node@ == FunctionV {
                return_value: TokenType::IntKeyword,
                name: nv,
                body: views,
            });
            assert(views + Seq::<StatementV>::empty() =~= views);
            assert(sp_parse_statements(toks, close) == Ok::<(Seq<StatementV>, int), ParseError>(
                (Seq::empty(), close),
            ));
            assert(sp_parse_statements(toks, start) == Ok::<(Seq<StatementV>, int), ParseError>(
                (views, close),
            ));
        }
        Ok(function_node)
    }

    /// Parses every function of the stream, collecting the function names in
    /// order for the forward declarations. An empty stream yields an empty
    /// program; tokens that do not open a function stop the parse with an
    /// error.
    #[verifier::loop_isolation(false)]
    pub fn parse_program(&mut self) -> (r: Result<ProgramNode, ParseError>)
        requires
            old(self).wf(),
            table_room(*old(self)),
        ensures
            final(self).token_stream == old(self).token_stream,
            final(self).wf(),
            old(self).token_index <= final(self).token_index <= old(self).token_stream@.len(),
            match r {
                Ok(p) => {
                    &&& sp_parse_functions(old(self).toks(), old(self).token_index as int) == Ok::<
                        (Seq<FunctionV>, int),
                        ParseError,
                    >((p@.body, final(self).token_index as int))
                    &&& p@.function_names == fn_names(p@.body)
                    &&& fns_size(p@.body) <= final(self).token_index - old(self).token_index
                    &&& final(self).symbol_table@ == table_after_fns(
                        old(self).symbol_table@,
                        p@.body,
                    )
                },
                Err(pe) => sp_parse_functions(old(self).toks(), old(self).token_index as int)
                    == Err::<(Seq<FunctionV>, int), ParseError>(pe),
            },
    {
        proof {
            lemma_toks_view(self.token_stream);
        }
        let ghost toks = self.toks();
        let ghost i0 = self.token_index as int;
        let ghost st_entry = self.symbol_table@;
        let n = self.token_stream.len();
        let mut function_list: Vec<FunctionNode> = Vec::new();
        let mut function_identifiers: Vec<String> = Vec::new();
        loop
            invariant
                self.wf(),
                self.token_stream == old(self).token_stream,
                i0 <= self.token_index <= n,
                self.symbol_table.current_stack_offset as int + 4 * (n - self.token_index)
                    <= u32::MAX as int,
                self.symbol_table@ == table_after_fns(st_entry, fns_view(function_list@)),
                strs_view(function_identifiers@) == fn_names(fns_view(function_list@)),
                fns_size(fns_view(function_list@)) <= self.token_index - i0,
                match sp_parse_functions(toks, self.token_index as int) {
                    Ok((fs2, m)) => sp_parse_functions(toks, i0) == Ok::<
                        (Seq<FunctionV>, int),
                        ParseError,
                    >((fns_view(function_list@) + fs2, m)),
                    Err(e) => sp_parse_functions(toks, i0) == Err::<
                        (Seq<FunctionV>, int),
                        ParseError,
                    >(e),
                },
            decreases n - self.token_index,
        {
            if self.token_index >= n {
                break ;
            }
            let ghost cur = self.token_index as int;
            let ghost views0 = fns_view(function_list@);
            let f = match self.parse_function() {
                Ok(f) => f,
                Err(pe) => {
                    return Err(pe);
                },
            };
            function_identifiers.push(f.name.clone());
            proof {
                let k = self.token_index as int;
                lemma_fns_view_push(function_list@, f);
                lemma_strs_view_push(function_identifiers@.drop_last(), f.name);
                assert(function_identifiers@.drop_last()
                    =~= function_identifiers@.subrange(0, function_identifiers@.len() - 1));
                lemma_fn_names_push(views0, f@);
                lemma_table_after_fns_push(st_entry, views0, f@);
                lemma_fns_size_push(views0, f@);
                match sp_parse_functions(toks, k) {
                    Ok((fs2, m)) => {
                        assert(sp_parse_functions(toks, cur) == Ok::<
                            (Seq<FunctionV>, int),
                            ParseError,
                        >((seq![f@] + fs2, m)));
                        assert(views0 + (seq![f@] + fs2) =~= views0.push(f@) + fs2);
                    },
                    Err(e) => {},
                }
            }
            function_list.push(f);
        }
        proof {
            assert(sp_parse_functions(toks, self.token_index as int) == Ok::<
                (Seq<FunctionV>, int),
                ParseError,
            >((Seq::empty(), self.token_index as int)));
            assert(fns_view(function_list@) + Seq::<FunctionV>::empty()
                =~= fns_view(function_list@));
        }
        let program_node = ProgramNode {
            function_names: function_identifiers,
            body: function_list,
        };
        Ok(program_node)
    }
}

} // verus!
