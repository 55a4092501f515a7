//! The abstract syntax tree: expressions, statements, functions and the
//! program node, together with their mathematical models and size measures.
//!
//! All nodes are created once during parsing and are read-only thereafter;
//! the tree owns its children exclusively.
use vstd::prelude::*;

verus! {

use crate::token::{Token, TokenType, TokenV};

/// Expressions. Optional operands model constructs that are legitimately
/// optional in the grammar; the parser never builds a half-finished node (it
/// reports an error instead), and the generator rejects such shapes.
#[derive(Debug, PartialEq)]
pub enum Expr {
    Number(i32),
    Identifier(String),
    UnaryOp(TokenType, Option<Box<ExprNode>>),
    BinaryOp(TokenType, Box<ExprNode>, Box<ExprNode>),
    /// `a = expr`, assignment as an expression; also carries a bare
    /// sub-expression when no target is present.
    DeclAssign(Option<Box<ExprNode>>, Option<TokenType>, Option<Box<ExprNode>>),
}

#[derive(Debug, PartialEq)]
pub struct ExprNode {
    pub expr: Expr,
}

/// Statements of a function body.
#[derive(Debug, PartialEq)]
pub enum Statement {
    /// `return expr;`
    Return(ExprNode),
    /// `int a = expr;`, `int a;`, `char c = expr;`: declared type, the
    /// identifier token, the optional `=`, and the optional initializer.
    Assignment(TokenType, Token, Option<TokenType>, Option<Box<ExprNode>>),
    /// A bare expression statement: `expr;`.
    DeclAssignForStmnt(Option<Box<ExprNode>>),
}

#[derive(Debug, PartialEq)]
pub struct StatementNode {
    pub statement: Statement,
}

#[derive(Debug, PartialEq)]
pub struct FunctionNode {
    pub return_value: TokenType,
    pub name: String,
    pub body: Vec<StatementNode>,
}

#[derive(Debug, PartialEq)]
pub struct ProgramNode {
    /// All function names of the program, in order, for the forward
    /// `.global` declarations.
    pub function_names: Vec<String>,
    pub body: Vec<FunctionNode>,
}

// ---------------------------------------------------------------------------
// Models
// ---------------------------------------------------------------------------
pub enum ExprV {
    Number(i32),
    Identifier(Seq<char>),
    UnaryOp(TokenType, Option<Box<ExprV>>),
    BinaryOp(TokenType, Box<ExprV>, Box<ExprV>),
    DeclAssign(Option<Box<ExprV>>, Option<TokenType>, Option<Box<ExprV>>),
}

pub enum StatementV {
    Return(ExprV),
    Assignment(TokenType, TokenV, Option<TokenType>, Option<Box<ExprV>>),
    DeclAssignForStmnt(Option<Box<ExprV>>),
}

pub struct FunctionV {
    pub return_value: TokenType,
    pub name: Seq<char>,
    pub body: Seq<StatementV>,
}

pub struct ProgramV {
    pub function_names: Seq<Seq<char>>,
    pub body: Seq<FunctionV>,
}

pub open spec fn view_expr_node(e: ExprNode) -> ExprV
    decreases e,
{
    match e.expr {
        Expr::Number(n) => ExprV::Number(n),
        Expr::Identifier(s) => ExprV::Identifier(s@),
        Expr::UnaryOp(op, oe) => ExprV::UnaryOp(
            op,
            match oe {
                Some(b) => Some(Box::new(view_expr_node(*b))),
                None => None,
            },
        ),
        Expr::BinaryOp(op, l, r) => ExprV::BinaryOp(
            op,
            Box::new(view_expr_node(*l)),
            Box::new(view_expr_node(*r)),
        ),
        Expr::DeclAssign(ot, oop, oe) => ExprV::DeclAssign(
            match ot {
                Some(b) => Some(Box::new(view_expr_node(*b))),
                None => None,
            },
            oop,
            match oe {
                Some(b) => Some(Box::new(view_expr_node(*b))),
                None => None,
            },
        ),
    }
}

impl View for ExprNode {
    type V = ExprV;

    open spec fn view(&self) -> ExprV {
        view_expr_node(*self)
    }
}

pub open spec fn view_statement_node(s: StatementNode) -> StatementV {
    match s.statement {
        Statement::Return(e) => StatementV::Return(e@),
        Statement::Assignment(ty, tok, oop, oe) => StatementV::Assignment(
            ty,
            tok@,
            oop,
            match oe {
                Some(b) => Some(Box::new(view_expr_node(*b))),
                None => None,
            },
        ),
        Statement::DeclAssignForStmnt(oe) => StatementV::DeclAssignForStmnt(
            match oe {
                Some(b) => Some(Box::new(view_expr_node(*b))),
                None => None,
            },
        ),
    }
}

impl View for StatementNode {
    type V = StatementV;

    open spec fn view(&self) -> StatementV {
        view_statement_node(*self)
    }
}

/// The views of a sequence of statement nodes.
pub open spec fn stmts_view(v: Seq<StatementNode>) -> Seq<StatementV> {
    v.map_values(|s: StatementNode| s@)
}

/// The views of a sequence of function nodes.
pub open spec fn fns_view(v: Seq<FunctionNode>) -> Seq<FunctionV> {
    v.map_values(|f: FunctionNode| f@)
}

/// The views of a sequence of strings.
pub open spec fn strs_view(v: Seq<String>) -> Seq<Seq<char>> {
    v.map_values(|s: String| s@)
}

impl View for FunctionNode {
    type V = FunctionV;

    open spec fn view(&self) -> FunctionV {
        FunctionV { return_value: self.return_value, name: self.name@, body: stmts_view(self.body@) }
    }
}

impl View for ProgramNode {
    type V = ProgramV;

    open spec fn view(&self) -> ProgramV {
        ProgramV { function_names: strs_view(self.function_names@), body: fns_view(self.body@) }
    }
}

pub proof fn lemma_stmts_view_push(v: Seq<StatementNode>, s: StatementNode)
    ensures
        stmts_view(v.push(s)) == stmts_view(v).push(s@),
{
    assert(stmts_view(v.push(s)) =~= stmts_view(v).push(s@));
}

pub proof fn lemma_fns_view_push(v: Seq<FunctionNode>, f: FunctionNode)
    ensures
        fns_view(v.push(f)) == fns_view(v).push(f@),
{
    assert(fns_view(v.push(f)) =~= fns_view(v).push(f@));
}

pub proof fn lemma_strs_view_push(v: Seq<String>, s: String)
    ensures
        strs_view(v.push(s)) == strs_view(v).push(s@),
{
    assert(strs_view(v.push(s)) =~= strs_view(v).push(s@));
}

// ---------------------------------------------------------------------------
// Size measures, used to bound label allocation and stack allocation
// ---------------------------------------------------------------------------
pub open spec fn esize(e: ExprV) -> nat
    decreases e,
{
    match e {
        ExprV::Number(_) => 1,
        ExprV::Identifier(_) => 1,
        ExprV::UnaryOp(_, oe) => 1 + (match oe {
            Some(b) => esize(*b),
            None => 0,
        }),
        ExprV::BinaryOp(_, l, r) => 1 + esize(*l) + esize(*r),
        ExprV::DeclAssign(ot, _, oe) => 1 + (match ot {
            Some(b) => esize(*b),
            None => 0,
        }) + (match oe {
            Some(b) => esize(*b),
            None => 0,
        }),
    }
}

/// The size of an optional operand.
pub open spec fn opt_esize(oe: Option<Box<ExprV>>) -> nat {
    match oe {
        Some(b) => esize(*b),
        None => 0,
    }
}

pub open spec fn ssize(s: StatementV) -> nat {
    match s {
        StatementV::Return(e) => 1 + esize(e),
        StatementV::Assignment(_, _, _, oe) => 1 + opt_esize(oe),
        StatementV::DeclAssignForStmnt(oe) => 1 + opt_esize(oe),
    }
}

pub open spec fn stmts_size(ss: Seq<StatementV>) -> nat
    decreases ss.len(),
{
    if ss.len() == 0 {
        0
    } else {
        ssize(ss.first()) + stmts_size(ss.drop_first())
    }
}

pub open spec fn fsize(f: FunctionV) -> nat {
    1 + stmts_size(f.body)
}

pub open spec fn fns_size(fs: Seq<FunctionV>) -> nat
    decreases fs.len(),
{
    if fs.len() == 0 {
        0
    } else {
        fsize(fs.first()) + fns_size(fs.drop_first())
    }
}

// ---------------------------------------------------------------------------
// Declarations
// ---------------------------------------------------------------------------
/// Whether a statement registers a symbol-table entry: every `int`
/// declaration does, with or without an initializer. `char` declarations do
/// not allocate a stack slot.
pub open spec fn is_decl(s: StatementV) -> bool {
    match s {
        StatementV::Assignment(ty, _, _, _) => ty == TokenType::IntKeyword,
        _ => false,
    }
}

/// The number of statements of a body that register a symbol-table entry.
pub open spec fn decl_count(ss: Seq<StatementV>) -> nat
    decreases ss.len(),
{
    if ss.len() == 0 {
        0
    } else {
        (if is_decl(ss.first()) {
            1 as nat
        } else {
            0 as nat
        }) + decl_count(ss.drop_first())
    }
}

pub open spec fn fns_decl_count(fs: Seq<FunctionV>) -> nat
    decreases fs.len(),
{
    if fs.len() == 0 {
        0
    } else {
        decl_count(fs.first().body) + fns_decl_count(fs.drop_first())
    }
}

/// A sequence law used when a parsed statement joins a body: the size of a
/// body grown by one statement.
pub proof fn lemma_stmts_size_push(ss: Seq<StatementV>, s: StatementV)
    ensures
        stmts_size(ss.push(s)) == stmts_size(ss) + ssize(s),
    decreases ss.len(),
{
    assert(ss.push(s).len() == ss.len() + 1);
    if ss.len() == 0 {
        assert(ss.push(s).drop_first() =~= Seq::<StatementV>::empty());
        assert(ss.push(s).first() == s);
        assert(stmts_size(Seq::<StatementV>::empty()) == 0);
        assert(stmts_size(ss.push(s)) == ssize(s));
        assert(stmts_size(ss) == 0);
    } else {
        assert(ss.push(s).drop_first() =~= ss.drop_first().push(s));
        assert(ss.push(s).first() == ss.first());
        lemma_stmts_size_push(ss.drop_first(), s);
        assert(stmts_size(ss.push(s)) == ssize(ss.first()) + stmts_size(ss.drop_first().push(s)));
        assert(stmts_size(ss) == ssize(ss.first()) + stmts_size(ss.drop_first()));
    }
}

pub proof fn lemma_fns_size_push(fs: Seq<FunctionV>, f: FunctionV)
    ensures
        fns_size(fs.push(f)) == fns_size(fs) + fsize(f),
    decreases fs.len(),
{
    assert(fs.push(f).len() == fs.len() + 1);
    if fs.len() == 0 {
        assert(fs.push(f).drop_first() =~= Seq::<FunctionV>::empty());
        assert(fs.push(f).first() == f);
        assert(fns_size(Seq::<FunctionV>::empty()) == 0);
        assert(fns_size(fs.push(f)) == fsize(f));
        assert(fns_size(fs) == 0);
    } else {
        assert(fs.push(f).drop_first() =~= fs.drop_first().push(f));
        assert(fs.push(f).first() == fs.first());
        lemma_fns_size_push(fs.drop_first(), f);
        assert(fns_size(fs.push(f)) == fsize(fs.first()) + fns_size(fs.drop_first().push(f)));
        assert(fns_size(fs) == fsize(fs.first()) + fns_size(fs.drop_first()));
    }
}

pub proof fn lemma_decl_count_push(ss: Seq<StatementV>, s: StatementV)
    ensures
        decl_count(ss.push(s)) == decl_count(ss) + (if is_decl(s) {
            1 as nat
        } else {
            0 as nat
        }),
    decreases ss.len(),
{
    assert(ss.push(s).len() == ss.len() + 1);
    if ss.len() == 0 {
        assert(ss.push(s).drop_first() =~= Seq::<StatementV>::empty());
        assert(ss.push(s).first() == s);
        assert(decl_count(Seq::<StatementV>::empty()) == 0);
        assert(decl_count(ss) == 0);
    } else {
        assert(ss.push(s).drop_first() =~= ss.drop_first().push(s));
        assert(ss.push(s).first() == ss.first());
        lemma_decl_count_push(ss.drop_first(), s);
        assert(decl_count(ss.push(s)) == (if is_decl(ss.first()) {
            1 as nat
        } else {
            0 as nat
        }) + decl_count(ss.drop_first().push(s)));
        assert(decl_count(ss) == (if is_decl(ss.first()) {
            1 as nat
        } else {
            0 as nat
        }) + decl_count(ss.drop_first()));
    }
}

/// Every declaration is a statement of its own, so a body holds at least as
/// many statement nodes as declarations.
pub proof fn lemma_decl_count_le_size(ss: Seq<StatementV>)
    ensures
        decl_count(ss) <= stmts_size(ss),
    decreases ss.len(),
{
    if ss.len() > 0 {
        lemma_decl_count_le_size(ss.drop_first());
    }
}

pub proof fn lemma_fns_decl_count_le_size(fs: Seq<FunctionV>)
    ensures
        fns_decl_count(fs) <= fns_size(fs),
    decreases fs.len(),
{
    if fs.len() > 0 {
        lemma_decl_count_le_size(fs.first().body);
        lemma_fns_decl_count_le_size(fs.drop_first());
    }
}

} // verus!
