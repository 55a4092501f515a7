//! The code generator: a post-order walk of the syntax tree that emits
//! ARM64 assembly text.
//!
//! Every expression leaves its value in `w0`. A binary operation evaluates
//! one operand, spills it to a temporary stack slot, evaluates the other,
//! reloads the spilled value into `w1` and combines the two. Short-circuit
//! and relational operators draw branch labels from a monotonically
//! increasing counter that is threaded through the whole walk and never
//! reset between functions, so label numbers are unique across one
//! compilation. Stack slots for `int` variables are re-derived by this
//! second pass over the tree in the same left-to-right order the parser
//! used, and each function's frame is sized up front from the declarations
//! its body holds.
use vstd::prelude::*;

verus! {

use crate::token::{TokenType, TokenV};
use crate::ast::{
    view_expr_node,
    view_statement_node,
    Expr,
    ExprNode,
    Statement,
    StatementNode,
    FunctionNode,
    ProgramNode,
    ExprV,
    StatementV,
    FunctionV,
    ProgramV,
    esize,
    ssize,
    stmts_size,
    fsize,
    fns_size,
    is_decl,
    decl_count,
    fns_decl_count,
    stmts_view,
    fns_view,
    strs_view,
};
use crate::symbol_table::{SymbolTable, SymTabV, EntryV};
use crate::parser::{
    table_after_stmt,
    table_after_stmts,
    table_after_fns,
    lemma_table_after_stmts_push,
    lemma_table_after_fns_push,
};
use crate::ast::{lemma_decl_count_push, lemma_stmts_size_push, lemma_fns_size_push};
use crate::util::{dec_int, dec_nat, i32_to_dec, u32_to_dec, u64_to_dec};

/// Why generation failed. Unsupported tree shapes and references to
/// undeclared identifiers are hard errors: the generator never emits
/// silently wrong instructions.
#[derive(Debug, PartialEq)]
pub enum GenError {
    /// An identifier was read or assigned before any declaration of it.
    UndeclaredIdentifier(String),
    /// An operator the generator does not implement.
    UnsupportedOperator(TokenType),
    /// A node that should carry an operand carries none.
    MissingOperand,
    /// An assignment target that is not a plain identifier.
    UnsupportedTarget,
    /// A statement shape the generator does not implement.
    UnsupportedStatement,
}

pub enum GenErrV {
    UndeclaredIdentifier(Seq<char>),
    UnsupportedOperator(TokenType),
    MissingOperand,
    UnsupportedTarget,
    UnsupportedStatement,
}

impl View for GenError {
    type V = GenErrV;

    open spec fn view(&self) -> GenErrV {
        match self {
            GenError::UndeclaredIdentifier(s) => GenErrV::UndeclaredIdentifier(s@),
            GenError::UnsupportedOperator(t) => GenErrV::UnsupportedOperator(*t),
            GenError::MissingOperand => GenErrV::MissingOperand,
            GenError::UnsupportedTarget => GenErrV::UnsupportedTarget,
            GenError::UnsupportedStatement => GenErrV::UnsupportedStatement,
        }
    }
}

// ---------------------------------------------------------------------------
// The model of expression generation
// ---------------------------------------------------------------------------
/// The text of one expression, with the label counter after it. `st` is the
/// table of declarations seen so far by this walk, `fn_alloc` the enclosing
/// function's final allocation total: a variable at offset `o` lives at
/// `[sp, fn_alloc - o]`, for stores and loads alike. `c` is the last label
/// number in use.
pub open spec fn sp_gen_expr(e: ExprV, st: SymTabV, fn_alloc: int, c: int) -> Result<
    (Seq<char>, int),
    GenErrV,
>
    decreases esize(e), 1int,
{
    match e {
        ExprV::Number(n) => Ok(("\n\tmov w0, #"@ + dec_int(n as int), c)),
        ExprV::Identifier(name) => match st.spec_lookup(name) {
            None => Err(GenErrV::UndeclaredIdentifier(name)),
            Some(en) => if en.is_initialized {
                Ok(("\n\tldr w0, [sp, "@ + dec_int(fn_alloc - en.stack_offset) + "]"@, c))
            } else {
                Ok((Seq::empty(), c))
            },
        },
        ExprV::UnaryOp(op, oe) => match oe {
            None => if op == TokenType::Minus || op == TokenType::BitComplement || op
                == TokenType::Not {
                Err(GenErrV::MissingOperand)
            } else {
                Err(GenErrV::UnsupportedOperator(op))
            },
            Some(b) => match sp_gen_expr(*b, st, fn_alloc, c) {
                Err(ge) => if op == TokenType::Minus || op == TokenType::BitComplement || op
                    == TokenType::Not {
                    Err(ge)
                } else {
                    Err(GenErrV::UnsupportedOperator(op))
                },
                Ok((et, c1)) => if op == TokenType::Minus {
                    Ok((et + "\n\tneg w0, w0"@, c1))
                } else if op == TokenType::BitComplement {
                    Ok((et + "\n\tmvn w0, w0"@, c1))
                } else if op == TokenType::Not {
                    Ok((et + "\n\tcmp w0, #0\n\tmov w0, #0\n\tcset w0, eq"@, c1))
                } else {
                    Err(GenErrV::UnsupportedOperator(op))
                },
            },
        },
        ExprV::BinaryOp(op, l, r) => sp_gen_binary(op, *l, *r, st, fn_alloc, c),
        ExprV::DeclAssign(ot, _oop, oe) => match oe {
            None => Err(GenErrV::MissingOperand),
            Some(b) => match sp_gen_expr(*b, st, fn_alloc, c) {
                Err(ge) => Err(ge),
                Ok((et, c1)) => match ot {
                    None => Ok((et, c1)),
                    Some(t) => match *t {
                        ExprV::Identifier(name) => match st.spec_lookup(name) {
                            None => Err(GenErrV::UndeclaredIdentifier(name)),
                            Some(en) => Ok(
                                (
                                    et + "\n\tstr w0, [sp, #"@ + dec_int(
                                        fn_alloc - en.stack_offset,
                                    ) + "]"@,
                                    c1,
                                ),
                            ),
                        },
                        _ => Err(GenErrV::UnsupportedTarget),
                    },
                },
            },
        },
    }
}

/// The text of one binary operation. Addition evaluates its right operand
/// first (so label numbers inside it come first), all other operators
/// evaluate left before right; the emitted text always places the left
/// operand's code first, around the spill of `w0`.
pub open spec fn sp_gen_binary(
    op: TokenType,
    l: ExprV,
    r: ExprV,
    st: SymTabV,
    fn_alloc: int,
    c: int,
) -> Result<(Seq<char>, int), GenErrV>
    decreases esize(l) + esize(r), 2int,
{
    if op == TokenType::Plus {
        match sp_gen_expr(r, st, fn_alloc, c) {
            Err(ge) => Err(ge),
            Ok((rt, c1)) => match sp_gen_expr(l, st, fn_alloc, c1) {
                Err(ge) => Err(ge),
                Ok((lt, c2)) => Ok(
                    (
                        lt + "\n\tsub sp, sp, #16\n\tstr w0, [sp, 12]"@ + rt
                            + "\n\tldr w1, [sp, 12]\n\tadd w0, w0, w1\n\tadd sp, sp, 16"@,
                        c2,
                    ),
                ),
            },
        }
    } else {
        match sp_gen_expr(l, st, fn_alloc, c) {
            Err(ge) => Err(ge),
            Ok((lt, c1)) => match sp_gen_expr(r, st, fn_alloc, c1) {
                Err(ge) => Err(ge),
                Ok((rt, c2)) => if op == TokenType::Minus {
                    Ok(
                        (
                            lt + "\n\tsub sp, sp, #16\n\tstr w0, [sp, 12]\n"@ + rt
                                + "\n\tldr w1, [sp, 12]\n\tsub w0, w1, w0\n\tadd sp, sp, 16"@,
                            c2,
                        ),
                    )
                } else if op == TokenType::Mul {
                    Ok(
                        (
                            lt + "\n\tsub sp, sp, #16\n\tstr w0, [sp, 12]\n\t"@ + rt
                                + "\n\tldr w1, [sp, 12]\n\tmul w0, w1, w0\n\tadd sp, sp, 16"@,
                            c2,
                        ),
                    )
                } else if op == TokenType::Div {
                    Ok(
                        (
                            lt + "\n\tsub sp, sp, #16\n\tstr w0, [sp, 12]\n\t"@ + rt
                                + "\n\tldr w1, [sp, 12]\n\tsdiv w0, w1, w0\n\tadd sp, sp, 16"@,
                            c2,
                        ),
                    )
                } else if op == TokenType::Or {
                    Ok(
                        (
                            lt + "\n\tsub sp, sp, #16\n\tstr w0, [sp, 12]\n\t"@ + rt
                                + "\n\tldr w1, [sp, 12]\n\tcmp w1, 0\n\tbne .L"@ + dec_int(c2 + 1)
                                + "\n\tcmp w0, 0\n\tbeq .L"@ + dec_int(c2 + 2) + "\n.L"@ + dec_int(
                                c2 + 1,
                            ) + ":\n\tmov w0, 1\n\tb .L"@ + dec_int(c2 + 3) + "\n.L"@ + dec_int(
                                c2 + 2,
                            ) + ":\n\tmov w0, 0\n.L"@ + dec_int(c2 + 3)
                                + ":\n\tadd sp, sp, 16"@,
                            c2 + 3,
                        ),
                    )
                } else if op == TokenType::And {
                    Ok(
                        (
                            lt + "\n\tsub sp, sp, #16\n\tstr w0, [sp, 12]\n\t"@ + rt
                                + "\n\tldr w1, [sp, 12]\n\tcmp w1, 0\n\tbeq .L"@ + dec_int(c2 + 1)
                                + "\n\tcmp w0, 0\n\tbeq .L"@ + dec_int(c2 + 1)
                                + "\n\tmov w0, 1\n\tb .L"@ + dec_int(c2 + 2) + "\n.L"@ + dec_int(
                                c2 + 1,
                            ) + ":\n\tmov w0, 0\n.L"@ + dec_int(c2 + 2)
                                + ":\n\tadd sp, sp, 16"@,
                            c2 + 2,
                        ),
                    )
                } else if op == TokenType::Eq {
                    Ok(
                        (
                            lt + "\n\tsub sp, sp, #16\n\tstr w0, [sp, 12]\n\t"@ + rt
                                + "\n\tldr w1, [sp, 12]\n\tcmp w1, w0\n\tcset w0, eq\n\tadd sp, sp, 16"@,
                            c2,
                        ),
                    )
                } else if op == TokenType::Neq {
                    Ok(
                        (
                            lt + "\n\tsub sp, sp, #16\n\tstr w0, [sp, 12]\n\t"@ + rt
                                + "\n\tldr w1, [sp, 12]\n\tcmp w0, w1\n\tcset w0, ne\n\tadd sp, sp, 16"@,
                            c2,
                        ),
                    )
                } else if op == TokenType::Lt {
                    Ok(
                        (
                            lt + "\n\tsub sp, sp, 16\n\tstr w0, [sp, 12]\n\t"@ + rt
                                + "\n\tldr w1, [sp, 12]\n\tcmp w1, w0\n\tblt .L"@ + dec_int(c2 + 1)
                                + "\n\tmov w0, 0\n\tb .L"@ + dec_int(c2 + 2) + "\n.L"@ + dec_int(
                                c2 + 1,
                            ) + ":\n\tmov w0, 1\n.L"@ + dec_int(c2 + 2)
                                + ":\n\tadd sp, sp, 16\n\t"@,
                            c2 + 2,
                        ),
                    )
                } else if op == TokenType::Gt {
                    Ok(
                        (
                            lt + "\n\tsub sp, sp, 16\n\tstr w0, [sp, 12]\n\t"@ + rt
                                + "\n\tldr w1, [sp, 12]\n\tcmp w1, w0\n\tbgt .L"@ + dec_int(c2 + 1)
                                + "\n\tmov w0, 0\n\t b .L"@ + dec_int(c2 + 2) + "\n.L"@ + dec_int(
                                c2 + 1,
                            ) + ":\n\tmov w0, 1\n.L"@ + dec_int(c2 + 2) + ":\n\tadd sp, sp, 16"@,
                            c2 + 2,
                        ),
                    )
                } else if op == TokenType::Le {
                    Ok(
                        (
                            lt + "\n\tsub sp, sp, #16\n\tstr w0, [sp, 16]\n\t"@ + rt
                                + "\n\tldr w1, [sp, 16]\n\tcmp w1, w0\n\tble .L"@ + dec_int(c2 + 1)
                                + "\n\tmov w0, 0\n\tb .L"@ + dec_int(c2 + 2) + "\n.L"@ + dec_int(
                                c2 + 1,
                            ) + ":\n\tmov w0, 1\n.L"@ + dec_int(c2 + 2) + ":\n\tadd sp, sp, 16"@,
                            c2 + 2,
                        ),
                    )
                } else if op == TokenType::Ge {
                    Ok(
                        (
                            lt + "\n\tsub sp, sp, #16\n\tstr w0, [sp, 16]\n\t"@ + rt
                                + "\n\tldr w1, [sp, 16]\n\tcmp w1, w0\n\tbge .L"@ + dec_int(c2 + 1)
                                + "\n\tmov w0, 0\n\tb .L"@ + dec_int(c2 + 2) + "\n.L"@ + dec_int(
                                c2 + 1,
                            ) + ":\n\tmov w0, 1\n.L"@ + dec_int(c2 + 2) + ":\n\tadd sp, sp, 16"@,
                            c2 + 2,
                        ),
                    )
                } else {
                    Err(GenErrV::UnsupportedOperator(op))
                },
            },
        }
    }
}

// ---------------------------------------------------------------------------
// The model of statement, function and program generation
// ---------------------------------------------------------------------------
/// The text of one statement, with the table and label counter after it.
/// `fn_base` is the allocation total at the enclosing function's entry and
/// `fn_alloc` its final total: the frame reservation is emitted at the first
/// declaration, sized for the whole function, and a return releases it only
/// when a declaration already executed.
pub open spec fn sp_gen_stmt(s: StatementV, st: SymTabV, fn_base: int, fn_alloc: int, c: int) -> Result<
    (Seq<char>, SymTabV, int),
    GenErrV,
> {
    match s {
        StatementV::Return(e) => match sp_gen_expr(e, st, fn_alloc, c) {
            Err(ge) => Err(ge),
            Ok((et, c1)) => {
                let restore: Seq<char> = if st.current_stack_offset > fn_base {
                    "\n\tadd sp, sp, #"@ + dec_int(fn_alloc - fn_base)
                } else {
                    Seq::empty()
                };
                Ok((et + restore + "\n\tret"@, st, c1))
            },
        },
        StatementV::Assignment(kw, tok, oop, oe) => if kw == TokenType::IntKeyword {
            let reserve: Seq<char> = if st.current_stack_offset == fn_base {
                "\n\tsub sp, sp, #"@ + dec_int(fn_alloc - fn_base)
            } else {
                Seq::empty()
            };
            if oop == Some(TokenType::Assign) {
                match oe {
                    None => Err(GenErrV::MissingOperand),
                    Some(b) => match sp_gen_expr(*b, st, fn_alloc, c) {
                        Err(ge) => Err(ge),
                        Ok((et, c1)) => if tok.token_type == TokenType::Identifier
                            && tok.value is Some {
                            let st2 = st.push_entry(tok.value->Some_0, true);
                            Ok(
                                (
                                    reserve + et + "\n\tstr w0, [sp, #"@ + dec_int(
                                        fn_alloc - (st.current_stack_offset + 4),
                                    ) + "]"@,
                                    st2,
                                    c1,
                                ),
                            )
                        } else {
                            Err(GenErrV::UnsupportedStatement)
                        },
                    },
                }
            } else {
                if tok.token_type == TokenType::Identifier && tok.value is Some {
                    let st2 = st.push_entry(tok.value->Some_0, false);
                    Ok((reserve, st2, c))
                } else {
                    Err(GenErrV::UnsupportedStatement)
                }
            }
        } else if kw == TokenType::CharKeyword {
            if oop == Some(TokenType::Assign) {
                match oe {
                    None => Err(GenErrV::MissingOperand),
                    Some(b) => match sp_gen_expr(*b, st, fn_alloc, c) {
                        Err(ge) => Err(ge),
                        Ok((et, c1)) => Ok(
                            (
                                "\n\tsub sp, sp, #16\n\t"@ + et
                                    + "\n\tstr w0, [sp,12]\n\tmov w0, 0\n\tadd sp, sp, 16\n\t"@,
                                st,
                                c1,
                            ),
                        ),
                    },
                }
            } else {
                Err(GenErrV::UnsupportedStatement)
            }
        } else {
            Err(GenErrV::UnsupportedStatement)
        },
        StatementV::DeclAssignForStmnt(oe) => match oe {
            None => Err(GenErrV::MissingOperand),
            Some(b) => match sp_gen_expr(*b, st, fn_alloc, c) {
                Err(ge) => Err(ge),
                Ok((et, c1)) => Ok((et, st, c1)),
            },
        },
    }
}

/// The text of a function body: each statement's text behind a newline and
/// a tab.
pub open spec fn sp_gen_stmts(
    ss: Seq<StatementV>,
    st: SymTabV,
    fn_base: int,
    fn_alloc: int,
    c: int,
) -> Result<(Seq<char>, SymTabV, int), GenErrV>
    decreases ss.len(),
{
    if ss.len() == 0 {
        Ok((Seq::empty(), st, c))
    } else {
        match sp_gen_stmt(ss.first(), st, fn_base, fn_alloc, c) {
            Err(ge) => Err(ge),
            Ok((t1, st1, c1)) => match sp_gen_stmts(ss.drop_first(), st1, fn_base, fn_alloc, c1) {
                Err(ge) => Err(ge),
                Ok((t2, st2, c2)) => Ok((seq!['\n', '\t'] + t1 + t2, st2, c2)),
            },
        }
    }
}

/// The text of one function's body. The frame is sized up front: the final
/// allocation is the entry allocation plus four bytes per declaration of
/// the body.
pub open spec fn sp_gen_function(f: FunctionV, st: SymTabV, c: int) -> Result<
    (Seq<char>, SymTabV, int),
    GenErrV,
> {
    sp_gen_stmts(
        f.body,
        st,
        st.current_stack_offset as int,
        st.current_stack_offset + 4 * decl_count(f.body),
        c,
    )
}

/// The `.global` directives for the collected function names.
pub open spec fn sp_gen_globals(names: Seq<Seq<char>>) -> Seq<char>
    decreases names.len(),
{
    if names.len() == 0 {
        Seq::empty()
    } else {
        "\t.global _"@ + names.first() + "\n"@ + sp_gen_globals(names.drop_first())
    }
}

/// The labelled blocks of the program's functions.
pub open spec fn sp_gen_fns(fs: Seq<FunctionV>, st: SymTabV, c: int) -> Result<
    (Seq<char>, SymTabV, int),
    GenErrV,
>
    decreases fs.len(),
{
    if fs.len() == 0 {
        Ok((Seq::empty(), st, c))
    } else {
        match sp_gen_function(fs.first(), st, c) {
            Err(ge) => Err(ge),
            Ok((t1, st1, c1)) => match sp_gen_fns(fs.drop_first(), st1, c1) {
                Err(ge) => Err(ge),
                Ok((t2, st2, c2)) => Ok(
                    ("\n_"@ + fs.first().name + ":"@ + t1 + "\n"@ + t2, st2, c2),
                ),
            },
        }
    }
}

/// The text of the whole program: the text section header, one
/// global-visibility directive per function name, then one labelled block
/// per function.
pub open spec fn sp_gen_program(p: ProgramV, st: SymTabV, c: int) -> Result<
    (Seq<char>, SymTabV, int),
    GenErrV,
> {
    match sp_gen_fns(p.body, st, c) {
        Err(ge) => Err(ge),
        Ok((t, st1, c1)) => Ok(("\t.text\n"@ + sp_gen_globals(p.function_names) + t, st1, c1)),
    }
}

/// What one compilation's generation step produces from a program and a
/// starting table, with the label counter starting at one.
pub open spec fn sp_generate(p: ProgramV, st: SymTabV) -> Result<Seq<char>, GenErrV> {
    match sp_gen_program(p, st, 1) {
        Err(ge) => Err(ge),
        Ok((t, _, _)) => Ok(t),
    }
}

// ---------------------------------------------------------------------------
// Expression generation, executable
// ---------------------------------------------------------------------------
impl ExprNode {
    /// Emits the ARM64 text of one expression. `st` holds the declarations
    /// the walk has seen so far, `fn_alloc` the enclosing function's final
    /// allocation total, and `labels` the last branch-label number in use.
    pub fn generate_assembly(
        &self,
        st: &SymbolTable,
        fn_alloc: u32,
        labels: &mut u64,
    ) -> (r: Result<String, GenError>)
        requires
            st@.wf(),
            st.current_stack_offset <= fn_alloc,
            1 <= *old(labels),
            *old(labels) + 3 * esize(view_expr_node(*self)) <= u64::MAX,
        ensures
            *old(labels) <= *final(labels),
            *final(labels) <= *old(labels) + 3 * esize(view_expr_node(*self)),
            match r {
                Ok(s) => sp_gen_expr(self@, st@, fn_alloc as int, *old(labels) as int) == Ok::<
                    (Seq<char>, int),
                    GenErrV,
                >((s@, *final(labels) as int)),
                Err(ge) => sp_gen_expr(self@, st@, fn_alloc as int, *old(labels) as int) == Err::<
                    (Seq<char>, int),
                    GenErrV,
                >(ge@),
            },
        decreases esize(view_expr_node(*self)), 1int,
    {
        match &self.expr {
            Expr::Number(n) => {
                let mut out = String::from_str("\n\tmov w0, #");
                let digits = i32_to_dec(*n);
                out.append(digits.as_str());
                proof {
                    assert(self@ == ExprV::Number(*n));
                    assert(out@ =~= "\n\tmov w0, #"@ + dec_int(*n as int));
                }
                Ok(out)
            },
            Expr::Identifier(name) => {
                proof {
                    assert(self@ == ExprV::Identifier(name@));
                    crate::symbol_table::lemma_lookup_offset_in_range(st@, name@);
                }
                match st.lookup(name.as_str()) {
                    None => Err(GenError::UndeclaredIdentifier(name.clone())),
                    Some(en) => {
                        if en.is_initialized {
                            let mut out = String::from_str("\n\tldr w0, [sp, ");
                            let digits = u32_to_dec(fn_alloc - en.stack_offset);
                            out.append(digits.as_str());
                            out.append("]");
                            proof {
                                assert(out@ =~= "\n\tldr w0, [sp, "@ + dec_int(
                                    fn_alloc - en@.stack_offset,
                                ) + "]"@);
                            }
                            Ok(out)
                        } else {
                            let out = String::new();
                            proof {
                                assert(out@ =~= Seq::<char>::empty());
                            }
                            Ok(out)
                        }
                    },
                }
            },
            Expr::UnaryOp(op, oe) => {
                let opv = *op;
                if !(opv == TokenType::Minus || opv == TokenType::BitComplement || opv
                    == TokenType::Not) {
                    return Err(GenError::UnsupportedOperator(opv));
                }
                match oe {
                    None => Err(GenError::MissingOperand),
                    Some(b) => {
                        proof {
                            assert(self@ == ExprV::UnaryOp(
                                opv,
                                Some(Box::new(view_expr_node(**b))),
                            ));
                            assert(esize(self@) == 1 + esize(view_expr_node(**b)));
                        }
                        let sub = b.generate_assembly(st, fn_alloc, labels);
                        match sub {
                            Err(ge) => Err(ge),
                            Ok(mut out) => {
                                let ghost sub_text = out@;
                                if opv == TokenType::Minus {
                                    out.append("\n\tneg w0, w0");
                                    proof {
                                        assert(out@ =~= sub_text + "\n\tneg w0, w0"@);
                                    }
                                    Ok(out)
                                } else if opv == TokenType::BitComplement {
                                    out.append("\n\tmvn w0, w0");
                                    proof {
                                        assert(out@ =~= sub_text + "\n\tmvn w0, w0"@);
                                    }
                                    Ok(out)
                                } else {
                                    out.append("\n\tcmp w0, #0\n\tmov w0, #0\n\tcset w0, eq");
                                    proof {
                                        assert(out@ =~= sub_text
                                            + "\n\tcmp w0, #0\n\tmov w0, #0\n\tcset w0, eq"@);
                                    }
                                    Ok(out)
                                }
                            },
                        }
                    },
                }
            },
            Expr::BinaryOp(op, l, r) => {
                proof {
                    assert(self@ == ExprV::BinaryOp(
                        *op,
                        Box::new(view_expr_node(**l)),
                        Box::new(view_expr_node(**r)),
                    ));
                    assert(esize(self@) == 1 + esize(view_expr_node(**l)) + esize(
                        view_expr_node(**r),
                    ));
                }
                gen_binary(*op, l, r, st, fn_alloc, labels)
            },
            Expr::DeclAssign(ot, _oop, oe) => {
                proof {
                    assert(esize(self@) >= 1 + (match self@ {
                        ExprV::DeclAssign(_, _, Some(b)) => esize(*b),
                        _ => 0nat,
                    }));
                }
                match oe {
                    None => Err(GenError::MissingOperand),
                    Some(b) => {
                        proof {
                            assert(esize(view_expr_node(**b)) <= esize(self@));
                        }
                        let sub = b.generate_assembly(st, fn_alloc, labels);
                        match sub {
                            Err(ge) => Err(ge),
                            Ok(mut out) => {
                                let ghost sub_text = out@;
                                match ot {
                                    None => Ok(out),
                                    Some(t) => match &t.expr {
                                        Expr::Identifier(name) => {
                                            proof {
                                                assert(view_expr_node(**t) == ExprV::Identifier(
                                                    name@,
                                                ));
                                                crate::symbol_table::lemma_lookup_offset_in_range(
                                                    st@,
                                                    name@,
                                                );
                                            }
                                            match st.lookup(name.as_str()) {
                                                None => Err(
                                                    GenError::UndeclaredIdentifier(name.clone()),
                                                ),
                                                Some(en) => {
                                                    out.append("\n\tstr w0, [sp, #");
                                                    let digits = u32_to_dec(
                                                        fn_alloc - en.stack_offset,
                                                    );
                                                    out.append(digits.as_str());
                                                    out.append("]");
                                                    proof {
                                                        assert(out@ =~= sub_text
                                                            + "\n\tstr w0, [sp, #"@ + dec_int(
                                                            fn_alloc - en@.stack_offset,
                                                        ) + "]"@);
                                                    }
                                                    Ok(out)
                                                },
                                            }
                                        },
                                        _ => Err(GenError::UnsupportedTarget),
                                    },
                                }
                            },
                        }
                    },
                }
            },
        }
    }
}

/// Emits one binary operation: the left operand's code, the spill of `w0`,
/// the right operand's code, then the reload and combining instructions,
/// with fresh branch labels where the operator needs control flow.
fn gen_binary(
    op: TokenType,
    l: &ExprNode,
    r: &ExprNode,
    st: &SymbolTable,
    fn_alloc: u32,
    labels: &mut u64,
) -> (res: Result<String, GenError>)
    requires
        st@.wf(),
        st.current_stack_offset <= fn_alloc,
        1 <= *old(labels),
        *old(labels) + 3 * (esize(view_expr_node(*l)) + esize(view_expr_node(*r))) + 3
            <= u64::MAX,
    ensures
        *old(labels) <= *final(labels),
        *final(labels) <= *old(labels) + 3 * (esize(view_expr_node(*l)) + esize(
            view_expr_node(*r),
        )) + 3,
        match res {
            Ok(s) => sp_gen_binary(op, l@, r@, st@, fn_alloc as int, *old(labels) as int) == Ok::<
                (Seq<char>, int),
                GenErrV,
            >((s@, *final(labels) as int)),
            Err(ge) => sp_gen_binary(op, l@, r@, st@, fn_alloc as int, *old(labels) as int)
                == Err::<(Seq<char>, int), GenErrV>(ge@),
        },
    decreases esize(view_expr_node(*l)) + esize(view_expr_node(*r)), 2int,
{
    if op == TokenType::Plus {
        let rt = match r.generate_assembly(st, fn_alloc, labels) {
            Ok(s) => s,
            Err(ge) => {
                return Err(ge);
            },
        };
        let mut out = match l.generate_assembly(st, fn_alloc, labels) {
            Ok(s) => s,
            Err(ge) => {
                return Err(ge);
            },
        };
        let ghost lt0 = out@;
        out.append("\n\tsub sp, sp, #16\n\tstr w0, [sp, 12]");
        out.append(rt.as_str());
        out.append("\n\tldr w1, [sp, 12]\n\tadd w0, w0, w1\n\tadd sp, sp, 16");
        proof {
            assert(out@ =~= lt0 + "\n\tsub sp, sp, #16\n\tstr w0, [sp, 12]"@ + rt@
                + "\n\tldr w1, [sp, 12]\n\tadd w0, w0, w1\n\tadd sp, sp, 16"@);
        }
        return Ok(out);
    }
    let mut out = match l.generate_assembly(st, fn_alloc, labels) {
        Ok(s) => s,
        Err(ge) => {
            return Err(ge);
        },
    };
    let rt = match r.generate_assembly(st, fn_alloc, labels) {
        Ok(s) => s,
        Err(ge) => {
            return Err(ge);
        },
    };
    let ghost lt0 = out@;
    if op == TokenType::Minus {
        out.append("\n\tsub sp, sp, #16\n\tstr w0, [sp, 12]\n");
        out.append(rt.as_str());
        out.append("\n\tldr w1, [sp, 12]\n\tsub w0, w1, w0\n\tadd sp, sp, 16");
        proof {
            assert(out@ =~= lt0 + "\n\tsub sp, sp, #16\n\tstr w0, [sp, 12]\n"@ + rt@
                + "\n\tldr w1, [sp, 12]\n\tsub w0, w1, w0\n\tadd sp, sp, 16"@);
        }
        Ok(out)
    } else if op == TokenType::Mul {
        out.append("\n\tsub sp, sp, #16\n\tstr w0, [sp, 12]\n\t");
        out.append(rt.as_str());
        out.append("\n\tldr w1, [sp, 12]\n\tmul w0, w1, w0\n\tadd sp, sp, 16");
        proof {
            assert(out@ =~= lt0 + "\n\tsub sp, sp, #16\n\tstr w0, [sp, 12]\n\t"@ + rt@
                + "\n\tldr w1, [sp, 12]\n\tmul w0, w1, w0\n\tadd sp, sp, 16"@);
        }
        Ok(out)
    } else if op == TokenType::Div {
        out.append("\n\tsub sp, sp, #16\n\tstr w0, [sp, 12]\n\t");
        out.append(rt.as_str());
        out.append("\n\tldr w1, [sp, 12]\n\tsdiv w0, w1, w0\n\tadd sp, sp, 16");
        proof {
            assert(out@ =~= lt0 + "\n\tsub sp, sp, #16\n\tstr w0, [sp, 12]\n\t"@ + rt@
                + "\n\tldr w1, [sp, 12]\n\tsdiv w0, w1, w0\n\tadd sp, sp, 16"@);
        }
        Ok(out)
    } else if op == TokenType::Eq {
        out.append("\n\tsub sp, sp, #16\n\tstr w0, [sp, 12]\n\t");
        out.append(rt.as_str());
        out.append("\n\tldr w1, [sp, 12]\n\tcmp w1, w0\n\tcset w0, eq\n\tadd sp, sp, 16");
        proof {
            assert(out@ =~= lt0 + "\n\tsub sp, sp, #16\n\tstr w0, [sp, 12]\n\t"@ + rt@
                + "\n\tldr w1, [sp, 12]\n\tcmp w1, w0\n\tcset w0, eq\n\tadd sp, sp, 16"@);
        }
        Ok(out)
    } else if op == TokenType::Neq {
        out.append("\n\tsub sp, sp, #16\n\tstr w0, [sp, 12]\n\t");
        out.append(rt.as_str());
        out.append("\n\tldr w1, [sp, 12]\n\tcmp w0, w1\n\tcset w0, ne\n\tadd sp, sp, 16");
        proof {
            assert(out@ =~= lt0 + "\n\tsub sp, sp, #16\n\tstr w0, [sp, 12]\n\t"@ + rt@
                + "\n\tldr w1, [sp, 12]\n\tcmp w0, w1\n\tcset w0, ne\n\tadd sp, sp, 16"@);
        }
        Ok(out)
    } else if op == TokenType::Or {
        let f = *labels + 1;
        let d1 = u64_to_dec(f);
        let d2 = u64_to_dec(f + 1);
        let d3 = u64_to_dec(f + 2);
        out.append("\n\tsub sp, sp, #16\n\tstr w0, [sp, 12]\n\t");
        out.append(rt.as_str());
        out.append("\n\tldr w1, [sp, 12]\n\tcmp w1, 0\n\tbne .L");
        out.append(d1.as_str());
        out.append("\n\tcmp w0, 0\n\tbeq .L");
        out.append(d2.as_str());
        out.append("\n.L");
        out.append(d1.as_str());
        out.append(":\n\tmov w0, 1\n\tb .L");
        out.append(d3.as_str());
        out.append("\n.L");
        out.append(d2.as_str());
        out.append(":\n\tmov w0, 0\n.L");
        out.append(d3.as_str());
        out.append(":\n\tadd sp, sp, 16");
        *labels = f + 2;
        proof {
            assert(dec_int(f as int) == dec_nat(f as nat));
            assert(dec_int(f + 1 as int) == dec_nat((f + 1) as nat));
            assert(dec_int(f + 2 as int) == dec_nat((f + 2) as nat));
            assert(out@ =~= lt0 + "\n\tsub sp, sp, #16\n\tstr w0, [sp, 12]\n\t"@ + rt@
                + "\n\tldr w1, [sp, 12]\n\tcmp w1, 0\n\tbne .L"@ + dec_int(f as int)
                + "\n\tcmp w0, 0\n\tbeq .L"@ + dec_int(f + 1 as int) + "\n.L"@ + dec_int(f as int)
                + ":\n\tmov w0, 1\n\tb .L"@ + dec_int(f + 2 as int) + "\n.L"@ + dec_int(
                f + 1 as int,
            ) + ":\n\tmov w0, 0\n.L"@ + dec_int(f + 2 as int) + ":\n\tadd sp, sp, 16"@);
        }
        Ok(out)
    } else if op == TokenType::And {
        let f = *labels + 1;
        let d1 = u64_to_dec(f);
        let d2 = u64_to_dec(f + 1);
        out.append("\n\tsub sp, sp, #16\n\tstr w0, [sp, 12]\n\t");
        out.append(rt.as_str());
        out.append("\n\tldr w1, [sp, 12]\n\tcmp w1, 0\n\tbeq .L");
        out.append(d1.as_str());
        out.append("\n\tcmp w0, 0\n\tbeq .L");
        out.append(d1.as_str());
        out.append("\n\tmov w0, 1\n\tb .L");
        out.append(d2.as_str());
        out.append("\n.L");
        out.append(d1.as_str());
        out.append(":\n\tmov w0, 0\n.L");
        out.append(d2.as_str());
        out.append(":\n\tadd sp, sp, 16");
        *labels = f + 1;
        proof {
            assert(dec_int(f as int) == dec_nat(f as nat));
            assert(dec_int(f + 1 as int) == dec_nat((f + 1) as nat));
            assert(out@ =~= lt0 + "\n\tsub sp, sp, #16\n\tstr w0, [sp, 12]\n\t"@ + rt@
                + "\n\tldr w1, [sp, 12]\n\tcmp w1, 0\n\tbeq .L"@ + dec_int(f as int)
                + "\n\tcmp w0, 0\n\tbeq .L"@ + dec_int(f as int) + "\n\tmov w0, 1\n\tb .L"@
                + dec_int(f + 1 as int) + "\n.L"@ + dec_int(f as int) + ":\n\tmov w0, 0\n.L"@
                + dec_int(f + 1 as int) + ":\n\tadd sp, sp, 16"@);
        }
        Ok(out)
    } else if op == TokenType::Lt {
        let f = *labels + 1;
        let d1 = u64_to_dec(f);
        let d2 = u64_to_dec(f + 1);
        out.append("\n\tsub sp, sp, 16\n\tstr w0, [sp, 12]\n\t");
        out.append(rt.as_str());
        out.append("\n\tldr w1, [sp, 12]\n\tcmp w1, w0\n\tblt .L");
        out.append(d1.as_str());
        out.append("\n\tmov w0, 0\n\tb .L");
        out.append(d2.as_str());
        out.append("\n.L");
        out.append(d1.as_str());
        out.append(":\n\tmov w0, 1\n.L");
        out.append(d2.as_str());
        out.append(":\n\tadd sp, sp, 16\n\t");
        *labels = f + 1;
        proof {
            assert(dec_int(f as int) == dec_nat(f as nat));
            assert(dec_int(f + 1 as int) == dec_nat((f + 1) as nat));
            assert(out@ =~= lt0 + "\n\tsub sp, sp, 16\n\tstr w0, [sp, 12]\n\t"@ + rt@
                + "\n\tldr w1, [sp, 12]\n\tcmp w1, w0\n\tblt .L"@ + dec_int(f as int)
                + "\n\tmov w0, 0\n\tb .L"@ + dec_int(f + 1 as int) + "\n.L"@ + dec_int(f as int)
                + ":\n\tmov w0, 1\n.L"@ + dec_int(f + 1 as int) + ":\n\tadd sp, sp, 16\n\t"@);
        }
        Ok(out)
    } else if op == TokenType::Gt {
        let f = *labels + 1;
        let d1 = u64_to_dec(f);
        let d2 = u64_to_dec(f + 1);
        out.append("\n\tsub sp, sp, 16\n\tstr w0, [sp, 12]\n\t");
        out.append(rt.as_str());
        out.append("\n\tldr w1, [sp, 12]\n\tcmp w1, w0\n\tbgt .L");
        out.append(d1.as_str());
        out.append("\n\tmov w0, 0\n\t b .L");
        out.append(d2.as_str());
        out.append("\n.L");
        out.append(d1.as_str());
        out.append(":\n\tmov w0, 1\n.L");
        out.append(d2.as_str());
        out.append(":\n\tadd sp, sp, 16");
        *labels = f + 1;
        proof {
            assert(dec_int(f as int) == dec_nat(f as nat));
            assert(dec_int(f + 1 as int) == dec_nat((f + 1) as nat));
            assert(out@ =~= lt0 + "\n\tsub sp, sp, 16\n\tstr w0, [sp, 12]\n\t"@ + rt@
                + "\n\tldr w1, [sp, 12]\n\tcmp w1, w0\n\tbgt .L"@ + dec_int(f as int)
                + "\n\tmov w0, 0\n\t b .L"@ + dec_int(f + 1 as int) + "\n.L"@ + dec_int(f as int)
                + ":\n\tmov w0, 1\n.L"@ + dec_int(f + 1 as int) + ":\n\tadd sp, sp, 16"@);
        }
        Ok(out)
    } else if op == TokenType::Le {
        let f = *labels + 1;
        let d1 = u64_to_dec(f);
        let d2 = u64_to_dec(f + 1);
        out.append("\n\tsub sp, sp, #16\n\tstr w0, [sp, 16]\n\t");
        out.append(rt.as_str());
        out.append("\n\tldr w1, [sp, 16]\n\tcmp w1, w0\n\tble .L");
        out.append(d1.as_str());
        out.append("\n\tmov w0, 0\n\tb .L");
        out.append(d2.as_str());
        out.append("\n.L");
        out.append(d1.as_str());
        out.append(":\n\tmov w0, 1\n.L");
        out.append(d2.as_str());
        out.append(":\n\tadd sp, sp, 16");
        *labels = f + 1;
        proof {
            assert(dec_int(f as int) == dec_nat(f as nat));
            assert(dec_int(f + 1 as int) == dec_nat((f + 1) as nat));
            assert(out@ =~= lt0 + "\n\tsub sp, sp, #16\n\tstr w0, [sp, 16]\n\t"@ + rt@
                + "\n\tldr w1, [sp, 16]\n\tcmp w1, w0\n\tble .L"@ + dec_int(f as int)
                + "\n\tmov w0, 0\n\tb .L"@ + dec_int(f + 1 as int) + "\n.L"@ + dec_int(f as int)
                + ":\n\tmov w0, 1\n.L"@ + dec_int(f + 1 as int) + ":\n\tadd sp, sp, 16"@);
        }
        Ok(out)
    } else if op == TokenType::Ge {
        let f = *labels + 1;
        let d1 = u64_to_dec(f);
        let d2 = u64_to_dec(f + 1);
        out.append("\n\tsub sp, sp, #16\n\tstr w0, [sp, 16]\n\t");
        out.append(rt.as_str());
        out.append("\n\tldr w1, [sp, 16]\n\tcmp w1, w0\n\tbge .L");
        out.append(d1.as_str());
        out.append("\n\tmov w0, 0\n\tb .L");
        out.append(d2.as_str());
        out.append("\n.L");
        out.append(d1.as_str());
        out.append(":\n\tmov w0, 1\n.L");
        out.append(d2.as_str());
        out.append(":\n\tadd sp, sp, 16");
        *labels = f + 1;
        proof {
            assert(dec_int(f as int) == dec_nat(f as nat));
            assert(dec_int(f + 1 as int) == dec_nat((f + 1) as nat));
            assert(out@ =~= lt0 + "\n\tsub sp, sp, #16\n\tstr w0, [sp, 16]\n\t"@ + rt@
                + "\n\tldr w1, [sp, 16]\n\tcmp w1, w0\n\tbge .L"@ + dec_int(f as int)
                + "\n\tmov w0, 0\n\tb .L"@ + dec_int(f + 1 as int) + "\n.L"@ + dec_int(f as int)
                + ":\n\tmov w0, 1\n.L"@ + dec_int(f + 1 as int) + ":\n\tadd sp, sp, 16"@);
        }
        Ok(out)
    } else {
        Err(GenError::UnsupportedOperator(op))
    }
}

// ---------------------------------------------------------------------------
// Statement generation, executable
// ---------------------------------------------------------------------------
impl StatementNode {
    /// Emits the ARM64 text of one statement, registering `int` declarations
    /// in the table as the walk passes them. `fn_base` is the allocation
    /// total at the enclosing function's entry, `fn_alloc` its final total.
    pub fn generate_assembly(
        &self,
        st: &mut SymbolTable,
        fn_base: u32,
        fn_alloc: u32,
        labels: &mut u64,
    ) -> (r: Result<String, GenError>)
        requires
            old(st)@.wf(),
            fn_base <= old(st).current_stack_offset <= fn_alloc,
            is_decl(view_statement_node(*self)) ==> old(st).current_stack_offset + 4 <= fn_alloc,
            1 <= *old(labels),
            *old(labels) + 3 * ssize(view_statement_node(*self)) <= u64::MAX,
        ensures
            final(st)@.wf(),
            fn_base <= final(st).current_stack_offset <= fn_alloc,
            *old(labels) <= *final(labels),
            *final(labels) <= *old(labels) + 3 * ssize(view_statement_node(*self)),
            match r {
                Ok(s) => sp_gen_stmt(
                    self@,
                    old(st)@,
                    fn_base as int,
                    fn_alloc as int,
                    *old(labels) as int,
                ) == Ok::<(Seq<char>, SymTabV, int), GenErrV>(
                    (s@, final(st)@, *final(labels) as int),
                ) && final(st)@ == table_after_stmt(old(st)@, self@),
                Err(ge) => sp_gen_stmt(
                    self@,
                    old(st)@,
                    fn_base as int,
                    fn_alloc as int,
                    *old(labels) as int,
                ) == Err::<(Seq<char>, SymTabV, int), GenErrV>(ge@) && *final(st) == *old(st),
            },
    {
        match &self.statement {
            Statement::Return(e) => {
                proof {
                    assert(self@ == StatementV::Return(e@));
                    assert(ssize(self@) == 1 + esize(e@));
                }
                let sub = e.generate_assembly(st, fn_alloc, labels);
                match sub {
                    Err(ge) => Err(ge),
                    Ok(mut out) => {
                        let ghost et = out@;
                        let ghost restored = st.current_stack_offset > fn_base;
                        if st.current_allocation() > fn_base {
                            out.append("\n\tadd sp, sp, #");
                            let d = u32_to_dec(fn_alloc - fn_base);
                            out.append(d.as_str());
                        }
                        let ghost with_restore = out@;
                        out.append("\n\tret");
                        proof {
                            if restored {
                                assert(with_restore =~= et + ("\n\tadd sp, sp, #"@ + dec_int(
                                    fn_alloc - fn_base,
                                )));
                            } else {
                                assert(with_restore =~= et + Seq::<char>::empty());
                            }
                            assert(out@ =~= et + (if restored {
                                "\n\tadd sp, sp, #"@ + dec_int(fn_alloc - fn_base)
                            } else {
                                Seq::<char>::empty()
                            }) + "\n\tret"@);
                        }
                        Ok(out)
                    },
                }
            },
            Statement::Assignment(kw, tok, oop, oe) => {
                let kwv = *kw;
                let is_assign: bool = match oop {
                    Some(t) => *t == TokenType::Assign,
                    None => false,
                };
                if kwv == TokenType::IntKeyword {
                    let mut out = String::new();
                    if st.current_allocation() == fn_base {
                        out.append("\n\tsub sp, sp, #");
                        let d = u32_to_dec(fn_alloc - fn_base);
                        out.append(d.as_str());
                    }
                    let ghost reserve = out@;
                    proof {
                        if old(st).current_stack_offset == fn_base {
                            assert(reserve =~= "\n\tsub sp, sp, #"@ + dec_int(
                                fn_alloc - fn_base,
                            ));
                        } else {
                            assert(reserve =~= Seq::<char>::empty());
                        }
                    }
                    if is_assign {
                        match oe {
                            None => Err(GenError::MissingOperand),
                            Some(b) => {
                                proof {
                                    assert(self@ == StatementV::Assignment(
                                        kwv,
                                        tok@,
                                        *oop,
                                        Some(Box::new(view_expr_node(**b))),
                                    ));
                                    assert(ssize(self@) == 1 + esize(view_expr_node(**b)));
                                }
                                let sub = b.generate_assembly(st, fn_alloc, labels);
                                match sub {
                                    Err(ge) => Err(ge),
                                    Ok(et) => {
                                        if tok.token_type == TokenType::Identifier {
                                            match &tok.value {
                                                Some(nm) => {
                                                    let name = nm.clone();
                                                    out.append(et.as_str());
                                                    out.append("\n\tstr w0, [sp, #");
                                                    let off = st.current_allocation() + 4;
                                                    let d = u32_to_dec(fn_alloc - off);
                                                    out.append(d.as_str());
                                                    out.append("]");
                                                    st.add_entry(name, true);
                                                    proof {
                                                        assert(out@ =~= reserve + et@
                                                            + "\n\tstr w0, [sp, #"@ + dec_int(
                                                            fn_alloc as int - (
                                                            old(st).current_stack_offset + 4),
                                                        ) + "]"@);
                                                    }
                                                    Ok(out)
                                                },
                                                None => Err(GenError::UnsupportedStatement),
                                            }
                                        } else {
                                            Err(GenError::UnsupportedStatement)
                                        }
                                    },
                                }
                            },
                        }
                    } else {
                        proof {
                            assert(self@ == StatementV::Assignment(kwv, tok@, *oop, match oe {
                                Some(b) => Some(Box::new(view_expr_node(**b))),
                                None => None,
                            }));
                        }
                        if tok.token_type == TokenType::Identifier {
                            match &tok.value {
                                Some(nm) => {
                                    let name = nm.clone();
                                    st.add_entry(name, false);
                                    Ok(out)
                                },
                                None => Err(GenError::UnsupportedStatement),
                            }
                        } else {
                            Err(GenError::UnsupportedStatement)
                        }
                    }
                } else if kwv == TokenType::CharKeyword {
                    if is_assign {
                        match oe {
                            None => Err(GenError::MissingOperand),
                            Some(b) => {
                                proof {
                                    assert(self@ == StatementV::Assignment(
                                        kwv,
                                        tok@,
                                        *oop,
                                        Some(Box::new(view_expr_node(**b))),
                                    ));
                                    assert(ssize(self@) == 1 + esize(view_expr_node(**b)));
                                }
                                let sub = b.generate_assembly(st, fn_alloc, labels);
                                match sub {
                                    Err(ge) => Err(ge),
                                    Ok(et) => {
                                        let mut out = String::from_str("\n\tsub sp, sp, #16\n\t");
                                        out.append(et.as_str());
                                        out.append(
                                            "\n\tstr w0, [sp,12]\n\tmov w0, 0\n\tadd sp, sp, 16\n\t",
                                        );
                                        proof {
                                            assert(out@ =~= "\n\tsub sp, sp, #16\n\t"@ + et@
                                                + "\n\tstr w0, [sp,12]\n\tmov w0, 0\n\tadd sp, sp, 16\n\t"@);
                                        }
                                        Ok(out)
                                    },
                                }
                            },
                        }
                    } else {
                        Err(GenError::UnsupportedStatement)
                    }
                } else {
                    Err(GenError::UnsupportedStatement)
                }
            },
            Statement::DeclAssignForStmnt(oe) => {
                match oe {
                    None => Err(GenError::MissingOperand),
                    Some(b) => {
                        proof {
                            assert(self@ == StatementV::DeclAssignForStmnt(
                                Some(Box::new(view_expr_node(**b))),
                            ));
                            assert(ssize(self@) == 1 + esize(view_expr_node(**b)));
                        }
                        b.generate_assembly(st, fn_alloc, labels)
                    },
                }
            },
        }
    }
}

// ---------------------------------------------------------------------------
// Function and program generation, executable
// ---------------------------------------------------------------------------
impl FunctionNode {
    /// Emits the body of one function. A pre-pass counts the body's
    /// declarations so the frame reservation, emitted at the first
    /// declaration, covers every variable of the function.
    #[verifier::loop_isolation(false)]
    #[verifier::rlimit(60)]
    pub fn generate_assembly(&self, st: &mut SymbolTable, labels: &mut u64) -> (r: Result<
        String,
        GenError,
    >)
        requires
            old(st)@.wf(),
            old(st).current_stack_offset as int + 4 * decl_count(stmts_view(self.body@))
                <= u32::MAX as int,
            1 <= *old(labels),
            *old(labels) + 3 * stmts_size(stmts_view(self.body@)) <= u64::MAX,
        ensures
            final(st)@.wf(),
            old(st).current_stack_offset <= final(st).current_stack_offset,
            final(st).current_stack_offset as int <= old(st).current_stack_offset as int + 4
                * decl_count(stmts_view(self.body@)),
            *old(labels) <= *final(labels),
            *final(labels) <= *old(labels) + 3 * stmts_size(stmts_view(self.body@)),
            match r {
                Ok(s) => sp_gen_function(self@, old(st)@, *old(labels) as int) == Ok::<
                    (Seq<char>, SymTabV, int),
                    GenErrV,
                >((s@, final(st)@, *final(labels) as int)) && final(st)@ == table_after_stmts(
                    old(st)@,
                    stmts_view(self.body@),
                ),
                Err(ge) => sp_gen_function(self@, old(st)@, *old(labels) as int) == Err::<
                    (Seq<char>, SymTabV, int),
                    GenErrV,
                >(ge@),
            },
    {
        let ghost views = stmts_view(self.body@);
        let n = self.body.len();
        proof {
            assert(views.len() == n) by {
                assert(views.len() == self.body@.len());
            }
        }
        // Pre-pass: how many statements of the body claim a stack slot.
        let mut d: usize = 0;
        let mut k: usize = 0;
        while k < n
            invariant
                k <= n,
                d <= k,
                d == decl_count(views.subrange(0, k as int)),
            decreases n - k,
        {
            let here: bool = match &self.body[k].statement {
                Statement::Assignment(ty, _, _, _) => *ty == TokenType::IntKeyword,
                _ => false,
            };
            proof {
                assert(views[k as int] == self.body@[k as int]@);
                assert(here == is_decl(views[k as int]));
                lemma_decl_count_push(views.subrange(0, k as int), views[k as int]);
                assert(views.subrange(0, k as int).push(views[k as int]) =~= views.subrange(
                    0,
                    k + 1,
                ));
            }
            if here {
                d = d + 1;
            }
            k = k + 1;
        }
        proof {
            assert(views.subrange(0, n as int) =~= views);
        }
        let fn_base = st.current_allocation();
        let fn_alloc: u32 = fn_base + 4 * (d as u32);
        let ghost st0 = st@;
        let ghost c0 = *labels as int;
        let mut out = String::new();
        let mut k: usize = 0;
        proof {
            assert(views.subrange(0, 0) =~= Seq::<StatementV>::empty());
            assert(views.subrange(0, n as int) =~= views);
        }
        while k < n
            invariant
                k <= n,
                st@.wf(),
                fn_base <= st.current_stack_offset <= fn_alloc,
                fn_alloc as int == st.current_stack_offset as int + 4 * decl_count(
                    views.subrange(k as int, n as int),
                ),
                st@ == table_after_stmts(st0, views.subrange(0, k as int)),
                c0 <= *labels,
                *labels as int + 3 * stmts_size(views.subrange(k as int, n as int))
                    <= u64::MAX,
                *labels as int <= c0 + 3 * stmts_size(views.subrange(0, k as int)),
                stmts_size(views.subrange(0, k as int)) + stmts_size(
                    views.subrange(k as int, n as int),
                ) == stmts_size(views),
                match sp_gen_stmts(
                    views.subrange(k as int, n as int),
                    st@,
                    fn_base as int,
                    fn_alloc as int,
                    *labels as int,
                ) {
                    Ok((t2, stf, cf)) => sp_gen_stmts(
                        views,
                        st0,
                        fn_base as int,
                        fn_alloc as int,
                        c0,
                    ) == Ok::<(Seq<char>, SymTabV, int), GenErrV>((out@ + t2, stf, cf)),
                    Err(ge) => sp_gen_stmts(views, st0, fn_base as int, fn_alloc as int, c0)
                        == Err::<(Seq<char>, SymTabV, int), GenErrV>(ge),
                },
            decreases n - k,
        {
            let ghost rem = views.subrange(k as int, n as int);
            let ghost rem2 = views.subrange(k + 1, n as int);
            proof {
                assert(views[k as int] == self.body@[k as int]@);
                assert(rem.first() == views[k as int]);
                assert(rem.drop_first() =~= rem2);
                assert(decl_count(rem) == (if is_decl(views[k as int]) {
                    1 as nat
                } else {
                    0 as nat
                }) + decl_count(rem2));
                assert(stmts_size(rem) == ssize(views[k as int]) + stmts_size(rem2));
            }
            let ghost st_before = st@;
            let ghost c_before = *labels as int;
            let ghost out_before = out@;
            let t1 = match self.body[k].generate_assembly(st, fn_base, fn_alloc, labels) {
                Ok(t) => t,
                Err(ge) => {
                    return Err(ge);
                },
            };
            out.append("\n\t");
            out.append(t1.as_str());
            proof {
                reveal_strlit("\n\t");
                assert("\n\t"@ =~= seq!['\n', '\t']);
                assert(out@ =~= out_before + (seq!['\n', '\t'] + t1@));
                lemma_table_after_stmts_push(st0, views.subrange(0, k as int), views[k as int]);
                assert(views.subrange(0, k as int).push(views[k as int]) =~= views.subrange(
                    0,
                    k + 1,
                ));
                lemma_stmts_size_push(views.subrange(0, k as int), views[k as int]);
                match sp_gen_stmts(rem2, st@, fn_base as int, fn_alloc as int, *labels as int) {
                    Ok((t2, stf, cf)) => {
                        assert(sp_gen_stmts(rem, st_before, fn_base as int, fn_alloc as int,
                            c_before) == Ok::<(Seq<char>, SymTabV, int), GenErrV>(
                            ((seq!['\n', '\t'] + t1@) + t2, stf, cf),
                        ));
                        assert(out_before + ((seq!['\n', '\t'] + t1@) + t2) =~= out@ + t2);
                    },
                    Err(ge) => {},
                }
            }
            k = k + 1;
        }
        proof {
            assert(views.subrange(n as int, n as int) =~= Seq::<StatementV>::empty());
            assert(sp_gen_stmts(
                views.subrange(n as int, n as int),
                st@,
                fn_base as int,
                fn_alloc as int,
                *labels as int,
            ) == Ok::<(Seq<char>, SymTabV, int), GenErrV>((Seq::empty(), st@, *labels as int)));
            assert(out@ + Seq::<char>::empty() =~= out@);
            assert(self@.body == views);
        }
        Ok(out)
    }
}

impl ProgramNode {
    /// Emits the whole program: the text section header, one
    /// global-visibility directive per collected function name, then each
    /// function behind its label.
    #[verifier::loop_isolation(false)]
    #[verifier::rlimit(60)]
    pub fn generate_assembly(&self, st: &mut SymbolTable, labels: &mut u64) -> (r: Result<
        String,
        GenError,
    >)
        requires
            old(st)@.wf(),
            old(st).current_stack_offset as int + 4 * fns_decl_count(fns_view(self.body@))
                <= u32::MAX as int,
            1 <= *old(labels),
            *old(labels) + 3 * fns_size(fns_view(self.body@)) <= u64::MAX,
        ensures
            final(st)@.wf(),
            match r {
                Ok(s) => sp_gen_program(self@, old(st)@, *old(labels) as int) == Ok::<
                    (Seq<char>, SymTabV, int),
                    GenErrV,
                >((s@, final(st)@, *final(labels) as int)) && final(st)@ == table_after_fns(
                    old(st)@,
                    fns_view(self.body@),
                ),
                Err(ge) => sp_gen_program(self@, old(st)@, *old(labels) as int) == Err::<
                    (Seq<char>, SymTabV, int),
                    GenErrV,
                >(ge@),
            },
    {
        let ghost names = strs_view(self.function_names@);
        let ghost fviews = fns_view(self.body@);
        let mut out = String::from_str("\t.text\n");
        let m = self.function_names.len();
        proof {
            assert(names.len() == m) by {
                assert(names.len() == self.function_names@.len());
            }
            assert(names.subrange(0, m as int) =~= names);
        }
        let mut k: usize = 0;
        while k < m
            invariant
                k <= m,
                out@ + sp_gen_globals(names.subrange(k as int, m as int)) == "\t.text\n"@
                    + sp_gen_globals(names),
            decreases m - k,
        {
            let ghost out_before = out@;
            out.append("\t.global _");
            out.append(self.function_names[k].as_str());
            out.append("\n");
            proof {
                assert(names[k as int] == self.function_names@[k as int]@);
                assert(names.subrange(k as int, m as int).first() == names[k as int]);
                assert(names.subrange(k as int, m as int).drop_first() =~= names.subrange(
                    k + 1,
                    m as int,
                ));
                assert(out@ =~= out_before + ("\t.global _"@ + names[k as int] + "\n"@));
                assert(out@ + sp_gen_globals(names.subrange(k + 1, m as int)) =~= out_before
                    + sp_gen_globals(names.subrange(k as int, m as int)));
            }
            k = k + 1;
        }
        proof {
            assert(names.subrange(m as int, m as int) =~= Seq::<Seq<char>>::empty());
            assert(sp_gen_globals(names.subrange(m as int, m as int)) =~= Seq::<char>::empty());
            assert(out@ + Seq::<char>::empty() =~= out@);
            assert(out@ == "\t.text\n"@ + sp_gen_globals(names));
        }
        let ghost prefix = out@;
        let ghost st0 = st@;
        let ghost c0 = *labels as int;
        let ghost mut fnacc: Seq<char> = Seq::empty();
        let n = self.body.len();
        proof {
            assert(fviews.len() == n) by {
                assert(fviews.len() == self.body@.len());
            }
            assert(out@ =~= prefix + fnacc);
            assert(fviews.subrange(0, n as int) =~= fviews);
        }
        let mut k: usize = 0;
        while k < n
            invariant
                k <= n,
                st@.wf(),
                out@ == prefix + fnacc,
                st.current_stack_offset as int + 4 * fns_decl_count(
                    fviews.subrange(k as int, n as int),
                ) <= u32::MAX as int,
                1 <= *labels,
                *labels as int + 3 * fns_size(fviews.subrange(k as int, n as int)) <= u64::MAX,
                match sp_gen_fns(fviews.subrange(k as int, n as int), st@, *labels as int) {
                    Ok((t2, stf, cf)) => sp_gen_fns(fviews, st0, c0) == Ok::<
                        (Seq<char>, SymTabV, int),
                        GenErrV,
                    >((fnacc + t2, stf, cf)),
                    Err(ge) => sp_gen_fns(fviews, st0, c0) == Err::<
                        (Seq<char>, SymTabV, int),
                        GenErrV,
                    >(ge),
                },
                st@ == table_after_fns(st0, fviews.subrange(0, k as int)),
            decreases n - k,
        {
            let ghost rem = fviews.subrange(k as int, n as int);
            let ghost rem2 = fviews.subrange(k + 1, n as int);
            proof {
                assert(fviews[k as int] == self.body@[k as int]@);
                assert(rem.first() == fviews[k as int]);
                assert(rem.drop_first() =~= rem2);
                assert(fns_decl_count(rem) == decl_count(fviews[k as int].body) + fns_decl_count(
                    rem2,
                ));
                assert(fns_size(rem) == fsize(fviews[k as int]) + fns_size(rem2));
                assert(fviews[k as int].body == stmts_view(self.body@[k as int].body@));
            }
            let ghost st_before = st@;
            let ghost c_before = *labels as int;
            let t1 = match self.body[k].generate_assembly(st, labels) {
                Ok(t) => t,
                Err(ge) => {
                    return Err(ge);
                },
            };
            out.append("\n_");
            out.append(self.body[k].name.as_str());
            out.append(":");
            out.append(t1.as_str());
            out.append("\n");
            proof {
                let piece = "\n_"@ + fviews[k as int].name + ":"@ + t1@ + "\n"@;
                let fnacc0 = fnacc;
                assert(out@ =~= (prefix + fnacc0) + piece);
                fnacc = fnacc0 + piece;
                assert(prefix + fnacc =~= (prefix + fnacc0) + piece);
                lemma_table_after_fns_push(st0, fviews.subrange(0, k as int), fviews[k as int]);
                assert(fviews.subrange(0, k as int).push(fviews[k as int]) =~= fviews.subrange(
                    0,
                    k + 1,
                ));
                match sp_gen_fns(rem2, st@, *labels as int) {
                    Ok((t2, stf, cf)) => {
                        assert(sp_gen_fns(rem, st_before, c_before) == Ok::<
                            (Seq<char>, SymTabV, int),
                            GenErrV,
                        >((piece + t2, stf, cf)));
                        assert(fnacc0 + (piece + t2) =~= fnacc + t2);
                    },
                    Err(ge) => {},
                }
            }
            k = k + 1;
        }
        proof {
            assert(fviews.subrange(n as int, n as int) =~= Seq::<FunctionV>::empty());
            assert(sp_gen_fns(fviews.subrange(n as int, n as int), st@, *labels as int) == Ok::<
                (Seq<char>, SymTabV, int),
                GenErrV,
            >((Seq::empty(), st@, *labels as int)));
            assert(fnacc + Seq::<char>::empty() =~= fnacc);
            assert(self@.body == fviews);
            assert(self@.function_names == names);
        }
        Ok(out)
    }
}

/// Walks the whole tree, threading the symbol table it was built with and a
/// fresh label counter through the walk.
pub struct Generator {
    pub root: ProgramNode,
    /// The state the walk derives its stack offsets into.
    pub symbol_table: SymbolTable,
}

impl Generator {
    pub fn new(root_node: ProgramNode, symbol_table: SymbolTable) -> (r: Generator)
        ensures
            r.root == root_node,
            r.symbol_table == symbol_table,
    {
        Generator { root: root_node, symbol_table }
    }

    /// Generates the program's assembly text, starting the branch-label
    /// counter at one.
    pub fn walk_da_tree(&mut self) -> (r: Result<String, GenError>)
        requires
            old(self).symbol_table@.wf(),
            old(self).symbol_table.current_stack_offset as int + 4 * fns_decl_count(
                fns_view(old(self).root.body@),
            ) <= u32::MAX as int,
            1 + 3 * fns_size(fns_view(old(self).root.body@)) <= u64::MAX,
        ensures
            final(self).root == old(self).root,
            match r {
                Ok(s) => sp_generate(old(self).root@, old(self).symbol_table@) == Ok::<
                    Seq<char>,
                    GenErrV,
                >(s@),
                Err(ge) => sp_generate(old(self).root@, old(self).symbol_table@) == Err::<
                    Seq<char>,
                    GenErrV,
                >(ge@),
            },
    {
        let mut labels: u64 = 1;
        self.root.generate_assembly(&mut self.symbol_table, &mut labels)
    }
}

// ---------------------------------------------------------------------------
// Laws of the generator
// ---------------------------------------------------------------------------
/// For every integer literal, the code generated for a program holding one
/// function whose body is `return <literal>;` is exactly the section header,
/// the function's global directive and label, an immediate load of that
/// literal into the primary register, and the return instruction.
pub proof fn lemma_return_literal_generates_mov_ret(n: i32, fname: Seq<char>)
    ensures
        ({
            let p = ProgramV {
                function_names: seq![fname],
                body: seq![
                    FunctionV {
                        return_value: TokenType::IntKeyword,
                        name: fname,
                        body: seq![StatementV::Return(ExprV::Number(n))],
                    },
                ],
            };
            sp_generate(p, SymTabV::empty()) == Ok::<Seq<char>, GenErrV>(
                "\t.text\n"@ + ("\t.global _"@ + fname + "\n"@) + ("\n_"@ + fname + ":"@ + (seq![
                    '\n',
                    '\t',
                ] + ("\n\tmov w0, #"@ + dec_int(n as int)) + "\n\tret"@) + "\n"@),
            )
        }),
{
    let f = FunctionV {
        return_value: TokenType::IntKeyword,
        name: fname,
        body: seq![StatementV::Return(ExprV::Number(n))],
    };
    let p = ProgramV { function_names: seq![fname], body: seq![f] };
    let st = SymTabV::empty();
    let body = seq![StatementV::Return(ExprV::Number(n))];
    assert(body.drop_first() =~= Seq::<StatementV>::empty());
    assert(decl_count(Seq::<StatementV>::empty()) == 0);
    assert(decl_count(body) == 0);
    let stmt_text = ("\n\tmov w0, #"@ + dec_int(n as int)) + Seq::<char>::empty() + "\n\tret"@;
    assert(sp_gen_expr(ExprV::Number(n), st, 0, 1) == Ok::<(Seq<char>, int), GenErrV>(
        ("\n\tmov w0, #"@ + dec_int(n as int), 1),
    ));
    assert(sp_gen_stmt(body.first(), st, 0, 0, 1) == Ok::<(Seq<char>, SymTabV, int), GenErrV>(
        (stmt_text, st, 1),
    ));
    assert(sp_gen_stmts(Seq::<StatementV>::empty(), st, 0, 0, 1) == Ok::<
        (Seq<char>, SymTabV, int),
        GenErrV,
    >((Seq::empty(), st, 1)));
    let body_text = seq!['\n', '\t'] + stmt_text + Seq::<char>::empty();
    assert(sp_gen_stmts(body, st, 0, 0, 1) == Ok::<(Seq<char>, SymTabV, int), GenErrV>(
        (body_text, st, 1),
    ));
    assert(sp_gen_function(f, st, 1) == Ok::<(Seq<char>, SymTabV, int), GenErrV>(
        (body_text, st, 1),
    ));
    assert(p.body.drop_first() =~= Seq::<FunctionV>::empty());
    assert(sp_gen_fns(Seq::<FunctionV>::empty(), st, 1) == Ok::<
        (Seq<char>, SymTabV, int),
        GenErrV,
    >((Seq::empty(), st, 1)));
    let fn_text = "\n_"@ + fname + ":"@ + body_text + "\n"@ + Seq::<char>::empty();
    assert(sp_gen_fns(p.body, st, 1) == Ok::<(Seq<char>, SymTabV, int), GenErrV>(
        (fn_text, st, 1),
    ));
    assert(p.function_names.drop_first() =~= Seq::<Seq<char>>::empty());
    assert(sp_gen_globals(Seq::<Seq<char>>::empty()) =~= Seq::<char>::empty());
    assert(sp_gen_globals(p.function_names) =~= "\t.global _"@ + fname + "\n"@);
    assert(sp_gen_program(p, st, 1) == Ok::<(Seq<char>, SymTabV, int), GenErrV>(
        ("\t.text\n"@ + sp_gen_globals(p.function_names) + fn_text, st, 1),
    ));
    assert("\t.text\n"@ + sp_gen_globals(p.function_names) + fn_text =~= "\t.text\n"@ + (
    "\t.global _"@ + fname + "\n"@) + ("\n_"@ + fname + ":"@ + (seq!['\n', '\t'] + (
    "\n\tmov w0, #"@ + dec_int(n as int)) + "\n\tret"@) + "\n"@));
}

// ---------------------------------------------------------------------------
// Label uniqueness
// ---------------------------------------------------------------------------
/// The branch-label numbers one expression allocates, in allocation order,
/// together with the counter after it. Mirrors the counter threading of
/// `sp_gen_expr`, which depends on the expression alone.
pub open spec fn expr_labels(e: ExprV, c: int) -> (Seq<int>, int)
    decreases esize(e), 1int,
{
    match e {
        ExprV::Number(_) => (Seq::empty(), c),
        ExprV::Identifier(_) => (Seq::empty(), c),
        ExprV::UnaryOp(_, oe) => match oe {
            Some(b) => expr_labels(*b, c),
            None => (Seq::empty(), c),
        },
        ExprV::BinaryOp(op, l, r) => binary_labels(op, *l, *r, c),
        ExprV::DeclAssign(_, _, oe) => match oe {
            Some(b) => expr_labels(*b, c),
            None => (Seq::empty(), c),
        },
    }
}

pub open spec fn binary_labels(op: TokenType, l: ExprV, r: ExprV, c: int) -> (Seq<int>, int)
    decreases esize(l) + esize(r), 2int,
{
    if op == TokenType::Plus {
        let rl = expr_labels(r, c);
        let ll = expr_labels(l, rl.1);
        (rl.0 + ll.0, ll.1)
    } else {
        let ll = expr_labels(l, c);
        let rl = expr_labels(r, ll.1);
        let c2 = rl.1;
        if op == TokenType::Or {
            (ll.0 + rl.0 + seq![c2 + 1, c2 + 2, c2 + 3], c2 + 3)
        } else if op == TokenType::And || op == TokenType::Lt || op == TokenType::Gt || op
            == TokenType::Le || op == TokenType::Ge {
            (ll.0 + rl.0 + seq![c2 + 1, c2 + 2], c2 + 2)
        } else {
            (ll.0 + rl.0, c2)
        }
    }
}

/// The labels one statement allocates: exactly those of the initializer or
/// returned expression the generator evaluates.
pub open spec fn stmt_labels(s: StatementV, c: int) -> (Seq<int>, int) {
    match s {
        StatementV::Return(e) => expr_labels(e, c),
        StatementV::Assignment(kw, _, oop, oe) => if oop == Some(TokenType::Assign) && (kw
            == TokenType::IntKeyword || kw == TokenType::CharKeyword) {
            match oe {
                Some(b) => expr_labels(*b, c),
                None => (Seq::empty(), c),
            }
        } else {
            (Seq::empty(), c)
        },
        StatementV::DeclAssignForStmnt(oe) => match oe {
            Some(b) => expr_labels(*b, c),
            None => (Seq::empty(), c),
        },
    }
}

pub open spec fn stmts_labels(ss: Seq<StatementV>, c: int) -> (Seq<int>, int)
    decreases ss.len(),
{
    if ss.len() == 0 {
        (Seq::empty(), c)
    } else {
        let first = stmt_labels(ss.first(), c);
        let rest = stmts_labels(ss.drop_first(), first.1);
        (first.0 + rest.0, rest.1)
    }
}

pub open spec fn fns_labels(fs: Seq<FunctionV>, c: int) -> (Seq<int>, int)
    decreases fs.len(),
{
    if fs.len() == 0 {
        (Seq::empty(), c)
    } else {
        let first = stmts_labels(fs.first().body, c);
        let rest = fns_labels(fs.drop_first(), first.1);
        (first.0 + rest.0, rest.1)
    }
}

/// The labels one compilation of this program allocates, in allocation
/// order; the counter is never reset between functions.
pub open spec fn program_labels(p: ProgramV, c: int) -> (Seq<int>, int) {
    fns_labels(p.body, c)
}

/// A strictly increasing run of labels, all inside the window `(lo, hi]`.
pub open spec fn labels_in_window(ls: Seq<int>, lo: int, hi: int) -> bool {
    &&& lo <= hi
    &&& forall|i: int| 0 <= i < ls.len() ==> lo < #[trigger] ls[i] <= hi
    &&& forall|i: int, j: int| 0 <= i < j < ls.len() ==> ls[i] < ls[j]
}

/// Two adjacent windows concatenate to one window.
proof fn lemma_window_concat(a: Seq<int>, b: Seq<int>, lo: int, mid: int, hi: int)
    requires
        labels_in_window(a, lo, mid),
        labels_in_window(b, mid, hi),
    ensures
        labels_in_window(a + b, lo, hi),
{
    assert forall|i: int| 0 <= i < (a + b).len() implies lo < #[trigger] (a + b)[i] <= hi by {
        if i < a.len() {
            assert((a + b)[i] == a[i]);
        } else {
            assert((a + b)[i] == b[i - a.len()]);
        }
    }
    assert forall|i: int, j: int| 0 <= i < j < (a + b).len() implies (a + b)[i] < (a + b)[j] by {
        if j < a.len() {
            assert((a + b)[i] == a[i] && (a + b)[j] == a[j]);
        } else if i >= a.len() {
            assert((a + b)[i] == b[i - a.len()] && (a + b)[j] == b[j - a.len()]);
        } else {
            assert((a + b)[i] == a[i] && (a + b)[j] == b[j - a.len()]);
        }
    }
}

/// When generation of an expression succeeds, the labels it allocated are
/// strictly increasing and lie between the counter before it and the counter
/// after it.
proof fn lemma_expr_labels(e: ExprV, st: SymTabV, fa: int, c: int)
    requires
        sp_gen_expr(e, st, fa, c) is Ok,
    ensures
        expr_labels(e, c).1 == sp_gen_expr(e, st, fa, c)->Ok_0.1,
        labels_in_window(expr_labels(e, c).0, c, expr_labels(e, c).1),
    decreases esize(e), 1int,
{
    match e {
        ExprV::Number(_) => {},
        ExprV::Identifier(_) => {},
        ExprV::UnaryOp(op, oe) => {
            match oe {
                Some(b) => {
                    lemma_expr_labels(*b, st, fa, c);
                },
                None => {},
            }
        },
        ExprV::BinaryOp(op, l, r) => {
            lemma_binary_labels(op, *l, *r, st, fa, c);
        },
        ExprV::DeclAssign(_, _, oe) => {
            match oe {
                Some(b) => {
                    lemma_expr_labels(*b, st, fa, c);
                },
                None => {},
            }
        },
    }
}

proof fn lemma_binary_labels(op: TokenType, l: ExprV, r: ExprV, st: SymTabV, fa: int, c: int)
    requires
        sp_gen_binary(op, l, r, st, fa, c) is Ok,
    ensures
        binary_labels(op, l, r, c).1 == sp_gen_binary(op, l, r, st, fa, c)->Ok_0.1,
        labels_in_window(binary_labels(op, l, r, c).0, c, binary_labels(op, l, r, c).1),
    decreases esize(l) + esize(r), 2int,
{
    if op == TokenType::Plus {
        lemma_expr_labels(r, st, fa, c);
        let c1 = expr_labels(r, c).1;
        lemma_expr_labels(l, st, fa, c1);
        let c2 = expr_labels(l, c1).1;
        lemma_window_concat(expr_labels(r, c).0, expr_labels(l, c1).0, c, c1, c2);
    } else {
        lemma_expr_labels(l, st, fa, c);
        let c1 = expr_labels(l, c).1;
        lemma_expr_labels(r, st, fa, c1);
        let c2 = expr_labels(r, c1).1;
        lemma_window_concat(expr_labels(l, c).0, expr_labels(r, c1).0, c, c1, c2);
        let both = expr_labels(l, c).0 + expr_labels(r, c1).0;
        if op == TokenType::Or {
            assert(labels_in_window(seq![c2 + 1, c2 + 2, c2 + 3], c2, c2 + 3));
            lemma_window_concat(both, seq![c2 + 1, c2 + 2, c2 + 3], c, c2, c2 + 3);
        } else if op == TokenType::And || op == TokenType::Lt || op == TokenType::Gt || op
            == TokenType::Le || op == TokenType::Ge {
            assert(labels_in_window(seq![c2 + 1, c2 + 2], c2, c2 + 2));
            lemma_window_concat(both, seq![c2 + 1, c2 + 2], c, c2, c2 + 2);
        }
    }
}

proof fn lemma_stmt_labels(s: StatementV, st: SymTabV, fn_base: int, fa: int, c: int)
    requires
        sp_gen_stmt(s, st, fn_base, fa, c) is Ok,
    ensures
        stmt_labels(s, c).1 == sp_gen_stmt(s, st, fn_base, fa, c)->Ok_0.2,
        labels_in_window(stmt_labels(s, c).0, c, stmt_labels(s, c).1),
{
    match s {
        StatementV::Return(e) => {
            lemma_expr_labels(e, st, fa, c);
        },
        StatementV::Assignment(kw, _, oop, oe) => {
            if oop == Some(TokenType::Assign) && (kw == TokenType::IntKeyword || kw
                == TokenType::CharKeyword) {
                match oe {
                    Some(b) => {
                        lemma_expr_labels(*b, st, fa, c);
                    },
                    None => {},
                }
            }
        },
        StatementV::DeclAssignForStmnt(oe) => {
            match oe {
                Some(b) => {
                    lemma_expr_labels(*b, st, fa, c);
                },
                None => {},
            }
        },
    }
}

proof fn lemma_stmts_labels(ss: Seq<StatementV>, st: SymTabV, fn_base: int, fa: int, c: int)
    requires
        sp_gen_stmts(ss, st, fn_base, fa, c) is Ok,
    ensures
        stmts_labels(ss, c).1 == sp_gen_stmts(ss, st, fn_base, fa, c)->Ok_0.2,
        labels_in_window(stmts_labels(ss, c).0, c, stmts_labels(ss, c).1),
    decreases ss.len(),
{
    if ss.len() > 0 {
        lemma_stmt_labels(ss.first(), st, fn_base, fa, c);
        let c1 = stmt_labels(ss.first(), c).1;
        let st1 = sp_gen_stmt(ss.first(), st, fn_base, fa, c)->Ok_0.1;
        lemma_stmts_labels(ss.drop_first(), st1, fn_base, fa, c1);
        let c2 = stmts_labels(ss.drop_first(), c1).1;
        lemma_window_concat(stmt_labels(ss.first(), c).0, stmts_labels(ss.drop_first(), c1).0, c,
            c1, c2);
    }
}

proof fn lemma_fns_labels(fs: Seq<FunctionV>, st: SymTabV, c: int)
    requires
        sp_gen_fns(fs, st, c) is Ok,
    ensures
        fns_labels(fs, c).1 == sp_gen_fns(fs, st, c)->Ok_0.2,
        labels_in_window(fns_labels(fs, c).0, c, fns_labels(fs, c).1),
    decreases fs.len(),
{
    if fs.len() > 0 {
        lemma_stmts_labels(
            fs.first().body,
            st,
            st.current_stack_offset as int,
            st.current_stack_offset + 4 * decl_count(fs.first().body),
            c,
        );
        let c1 = stmts_labels(fs.first().body, c).1;
        let st1 = sp_gen_function(fs.first(), st, c)->Ok_0.1;
        lemma_fns_labels(fs.drop_first(), st1, c1);
        let c2 = fns_labels(fs.drop_first(), c1).1;
        lemma_window_concat(stmts_labels(fs.first().body, c).0, fns_labels(fs.drop_first(), c1).0,
            c, c1, c2);
    }
}

/// Label uniqueness: within one compilation, no two short-circuit branch
/// sequences are stamped with the same label number. The labels a
/// successful generation allocates, in allocation order, are strictly
/// increasing, so no number repeats anywhere in the program's output.
pub proof fn lemma_label_uniqueness(p: ProgramV, st: SymTabV, c: int)
    requires
        sp_gen_program(p, st, c) is Ok,
    ensures
        forall|i: int, j: int|
            0 <= i < j < program_labels(p, c).0.len() ==> program_labels(p, c).0[i]
                != program_labels(p, c).0[j],
{
    lemma_fns_labels(p.body, st, c);
}

// ---------------------------------------------------------------------------
// Cross-stage agreement
// ---------------------------------------------------------------------------
proof fn lemma_gen_stmt_table(s: StatementV, st: SymTabV, fn_base: int, fa: int, c: int)
    requires
        sp_gen_stmt(s, st, fn_base, fa, c) is Ok,
    ensures
        sp_gen_stmt(s, st, fn_base, fa, c)->Ok_0.1 == table_after_stmt(st, s),
{
}

proof fn lemma_gen_stmts_table(ss: Seq<StatementV>, st: SymTabV, fn_base: int, fa: int, c: int)
    requires
        sp_gen_stmts(ss, st, fn_base, fa, c) is Ok,
    ensures
        sp_gen_stmts(ss, st, fn_base, fa, c)->Ok_0.1 == table_after_stmts(st, ss),
    decreases ss.len(),
{
    if ss.len() > 0 {
        lemma_gen_stmt_table(ss.first(), st, fn_base, fa, c);
        let st1 = sp_gen_stmt(ss.first(), st, fn_base, fa, c)->Ok_0.1;
        let c1 = sp_gen_stmt(ss.first(), st, fn_base, fa, c)->Ok_0.2;
        lemma_gen_stmts_table(ss.drop_first(), st1, fn_base, fa, c1);
    }
}

proof fn lemma_gen_fns_table(fs: Seq<FunctionV>, st: SymTabV, c: int)
    requires
        sp_gen_fns(fs, st, c) is Ok,
    ensures
        sp_gen_fns(fs, st, c)->Ok_0.1 == table_after_fns(st, fs),
    decreases fs.len(),
{
    if fs.len() > 0 {
        lemma_gen_stmts_table(
            fs.first().body,
            st,
            st.current_stack_offset as int,
            st.current_stack_offset + 4 * decl_count(fs.first().body),
            c,
        );
        let st1 = sp_gen_function(fs.first(), st, c)->Ok_0.1;
        let c1 = sp_gen_function(fs.first(), st, c)->Ok_0.2;
        lemma_gen_fns_table(fs.drop_first(), st1, c1);
    }
}

/// The cross-stage invariant: the symbol table the generator re-derives
/// during a successful walk is exactly the table the parser populated, entry
/// for entry and offset for offset, because both passes register the same
/// declarations in the same left-to-right, depth-first order.
pub proof fn lemma_parser_generator_table_agreement(p: ProgramV, st: SymTabV, c: int)
    requires
        sp_gen_program(p, st, c) is Ok,
    ensures
        sp_gen_program(p, st, c)->Ok_0.1 == crate::parser::table_after_program(st, p),
{
    lemma_gen_fns_table(p.body, st, c);
}

/// Declaration-then-use round trip: for every name and initializer value,
/// `int x = n; return x;` stores the initializer to the variable's stack
/// slot and the return loads from the identical offset: with a single
/// 4-byte slot in a 4-byte frame, both sit at `[sp, 0]`.
pub proof fn lemma_declaration_use_round_trip(n: i32, x: Seq<char>, fname: Seq<char>)
    ensures
        ({
            let decl = StatementV::Assignment(
                TokenType::IntKeyword,
                TokenV { value: Some(x), token_type: TokenType::Identifier },
                Some(TokenType::Assign),
                Some(Box::new(ExprV::Number(n))),
            );
            let ret = StatementV::Return(ExprV::Identifier(x));
            let f = FunctionV {
                return_value: TokenType::IntKeyword,
                name: fname,
                body: seq![decl, ret],
            };
            let store = "\n\tstr w0, [sp, #"@ + dec_int(0) + "]"@;
            let load = "\n\tldr w0, [sp, "@ + dec_int(0) + "]"@;
            sp_gen_function(f, SymTabV::empty(), 1) matches Ok((t, st2, c2)) && t == (seq![
                '\n',
                '\t',
            ] + (("\n\tsub sp, sp, #"@ + dec_int(4)) + ("\n\tmov w0, #"@ + dec_int(n as int))
                + store) + (seq!['\n', '\t'] + (load + ("\n\tadd sp, sp, #"@ + dec_int(4))
                + "\n\tret"@)))
        }),
{
    let st = SymTabV::empty();
    let decl = StatementV::Assignment(
        TokenType::IntKeyword,
        TokenV { value: Some(x), token_type: TokenType::Identifier },
        Some(TokenType::Assign),
        Some(Box::new(ExprV::Number(n))),
    );
    let ret = StatementV::Return(ExprV::Identifier(x));
    let f = FunctionV { return_value: TokenType::IntKeyword, name: fname, body: seq![decl, ret] };
    let body = seq![decl, ret];
    assert(body.drop_first() =~= seq![ret]);
    assert(seq![ret].drop_first() =~= Seq::<StatementV>::empty());
    assert(decl_count(Seq::<StatementV>::empty()) == 0);
    assert(decl_count(seq![ret]) == 0);
    assert(decl_count(body) == 1);
    // The declaration: the frame reservation, the initializer, the store.
    let st1 = st.push_entry(x, true);
    let decl_text = ("\n\tsub sp, sp, #"@ + dec_int(4)) + ("\n\tmov w0, #"@ + dec_int(n as int))
        + ("\n\tstr w0, [sp, #"@ + dec_int(0) + "]"@);
    assert(sp_gen_expr(ExprV::Number(n), st, 4, 1) == Ok::<(Seq<char>, int), GenErrV>(
        ("\n\tmov w0, #"@ + dec_int(n as int), 1),
    ));
    assert(sp_gen_stmt(decl, st, 0, 4, 1) == Ok::<(Seq<char>, SymTabV, int), GenErrV>(
        (decl_text, st1, 1),
    )) by {
        let reserve = "\n\tsub sp, sp, #"@ + dec_int(4 - 0);
        let et = "\n\tmov w0, #"@ + dec_int(n as int);
        assert(reserve + et + "\n\tstr w0, [sp, #"@ + dec_int(4 - (0 + 4)) + "]"@
            =~= decl_text);
    }
    // The use: the entry just pushed is found, at the same offset.
    assert(st1.entries.last() == EntryV {
        name: x,
        stack_offset: 4u32,
        is_initialized: true,
        bytes_allocated: 4u32,
    });
    assert(st1.spec_lookup(x) == Some(st1.entries.last()));
    let load = "\n\tldr w0, [sp, "@ + dec_int(0) + "]"@;
    assert(sp_gen_expr(ExprV::Identifier(x), st1, 4, 1) == Ok::<(Seq<char>, int), GenErrV>(
        (load, 1),
    ));
    let ret_text = load + ("\n\tadd sp, sp, #"@ + dec_int(4)) + "\n\tret"@;
    assert(sp_gen_stmt(ret, st1, 0, 4, 1) == Ok::<(Seq<char>, SymTabV, int), GenErrV>(
        (ret_text, st1, 1),
    )) by {
        assert(load + ("\n\tadd sp, sp, #"@ + dec_int(4)) + "\n\tret"@ =~= load + (
        "\n\tadd sp, sp, #"@ + dec_int(4 - 0)) + "\n\tret"@);
    }
    // The body: each statement behind a newline and a tab.
    assert(sp_gen_stmts(Seq::<StatementV>::empty(), st1, 0, 4, 1) == Ok::<
        (Seq<char>, SymTabV, int),
        GenErrV,
    >((Seq::empty(), st1, 1)));
    assert(sp_gen_stmts(seq![ret], st1, 0, 4, 1) == Ok::<(Seq<char>, SymTabV, int), GenErrV>(
        (seq!['\n', '\t'] + ret_text + Seq::<char>::empty(), st1, 1),
    ));
    assert(seq!['\n', '\t'] + ret_text + Seq::<char>::empty() =~= seq!['\n', '\t'] + ret_text);
    assert(sp_gen_stmts(body, st, 0, 4, 1) == Ok::<(Seq<char>, SymTabV, int), GenErrV>(
        (seq!['\n', '\t'] + decl_text + (seq!['\n', '\t'] + ret_text), st1, 1),
    ));
}

} // verus!
