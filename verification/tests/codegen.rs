use minicc::ast::{Expr, ExprNode, FunctionNode, ProgramNode, Statement, StatementNode};
use minicc::compile_source;
use minicc::gen::{GenError, Generator};
use minicc::lex::test_lexer;
use minicc::parser::Parser;
use minicc::symbol_table::SymbolTable;
use minicc::token::{Token, TokenType};
use minicc::CompileError;

fn compile(source: &str) -> Result<String, CompileError> {
    compile_source(source)
}

fn compile_ok(source: &str) -> String {
    compile(source).expect("source should compile")
}

#[test]
fn return_literal_loads_it_then_returns() {
    // The whole output for `return 2`: one immediate load, one return.
    let output = compile_ok("int main() { return 2; }");
    assert_eq!(output, "\t.text\n\t.global _main\n\n_main:\n\t\n\tmov w0, #2\n\tret\n");
    assert!(output.contains("mov w0, #2"));
    let mov_at = output.find("mov w0, #2").unwrap();
    let ret_at = output.find("ret").unwrap();
    assert!(mov_at < ret_at);
}

#[test]
fn declaration_then_use_stores_and_loads_the_same_offset() {
    // `int a = 5; return a;`: a store to a's slot, then a load from the
    // identical offset before the return.
    let output = compile_ok("int main() { int a = 5; return a; }");
    assert_eq!(
        output,
        "\t.text\n\t.global _main\n\n_main:\
         \n\t\n\tsub sp, sp, #4\n\tmov w0, #5\n\tstr w0, [sp, #0]\
         \n\t\n\tldr w0, [sp, 0]\n\tadd sp, sp, #4\n\tret\n"
    );
    assert!(output.contains("str w0, [sp, #0]"));
    assert!(output.contains("ldr w0, [sp, 0]"));
    assert!(output.find("str w0, [sp, #0]").unwrap() < output.find("ldr w0, [sp, 0]").unwrap());
}

#[test]
fn two_declarations_take_distinct_slots() {
    let output = compile_ok("int main() { int a = 1; int b = 2; return a; }");
    assert_eq!(
        output,
        "\t.text\n\t.global _main\n\n_main:\
         \n\t\n\tsub sp, sp, #8\n\tmov w0, #1\n\tstr w0, [sp, #4]\
         \n\t\n\tmov w0, #2\n\tstr w0, [sp, #0]\
         \n\t\n\tldr w0, [sp, 4]\n\tadd sp, sp, #8\n\tret\n"
    );
}

#[test]
fn unary_operators_emit_their_instructions() {
    let output = compile_ok("int main() { return -5; }");
    assert!(output.contains("\n\tmov w0, #5\n\tneg w0, w0\n\tret"));
    let output = compile_ok("int main() { return ~5; }");
    assert!(output.contains("\n\tmov w0, #5\n\tmvn w0, w0\n\tret"));
    let output = compile_ok("int main() { return !5; }");
    assert!(output.contains("\n\tmov w0, #5\n\tcmp w0, #0\n\tmov w0, #0\n\tcset w0, eq\n\tret"));
}

#[test]
fn addition_spills_the_left_operand() {
    let output = compile_ok("int main() { return 1 + 2; }");
    assert!(output.contains(
        "\n\tmov w0, #1\n\tsub sp, sp, #16\n\tstr w0, [sp, 12]\n\tmov w0, #2\
         \n\tldr w1, [sp, 12]\n\tadd w0, w0, w1\n\tadd sp, sp, 16\n\tret"
    ));
}

#[test]
fn subtraction_keeps_operand_order() {
    let output = compile_ok("int main() { return 8 - 3; }");
    assert!(output.contains(
        "\n\tmov w0, #8\n\tsub sp, sp, #16\n\tstr w0, [sp, 12]\n\
         \n\tmov w0, #3\n\tldr w1, [sp, 12]\n\tsub w0, w1, w0\n\tadd sp, sp, 16\n\tret"
    ));
}

#[test]
fn short_circuit_or_allocates_three_labels() {
    let output = compile_ok("int main() { return 1 || 0; }");
    assert!(output.contains(
        "\n\tldr w1, [sp, 12]\n\tcmp w1, 0\n\tbne .L2\n\tcmp w0, 0\n\tbeq .L3\
         \n.L2:\n\tmov w0, 1\n\tb .L4\n.L3:\n\tmov w0, 0\n.L4:\n\tadd sp, sp, 16"
    ));
}

#[test]
fn relational_compare_normalizes_to_a_boolean() {
    let output = compile_ok("int main() { return 1 < 2; }");
    assert!(output.contains(
        "\n\tldr w1, [sp, 12]\n\tcmp w1, w0\n\tblt .L2\n\tmov w0, 0\n\tb .L3\
         \n.L2:\n\tmov w0, 1\n.L3:\n\tadd sp, sp, 16"
    ));
    let output = compile_ok("int main() { return 1 == 2; }");
    assert!(output.contains("\n\tcmp w1, w0\n\tcset w0, eq\n\tadd sp, sp, 16"));
    let output = compile_ok("int main() { return 1 != 2; }");
    assert!(output.contains("\n\tcmp w0, w1\n\tcset w0, ne\n\tadd sp, sp, 16"));
}

#[test]
fn labels_are_unique_within_one_compilation() {
    // Nested and sequential short-circuit operators never share a label.
    let output = compile_ok("int main() { return 1 < 2 && 3 < 4 || 5 < 6; }");
    let mut labels: Vec<u64> = Vec::new();
    for part in output.split(".L").skip(1) {
        let digits: String = part.chars().take_while(|c| c.is_ascii_digit()).collect();
        if part[digits.len()..].starts_with(':') {
            labels.push(digits.parse().unwrap());
        }
    }
    // Three relational pairs, one pair for &&, one triple for ||.
    assert_eq!(labels.len(), 11);
    let mut unique = labels.clone();
    unique.sort();
    unique.dedup();
    assert_eq!(unique.len(), labels.len());
}

#[test]
fn label_counter_is_not_reset_between_functions() {
    let output = compile_ok("int f() { return 1 < 2; }\nint g() { return 3 < 4; }");
    let f_at = output.find("_f:").unwrap();
    let g_at = output.find("_g:").unwrap();
    assert!(output[f_at..g_at].contains(".L2") && output[f_at..g_at].contains(".L3"));
    assert!(output[g_at..].contains(".L4") && output[g_at..].contains(".L5"));
}

#[test]
fn compiling_twice_gives_byte_identical_output() {
    let source = "int main() { int a = 1; return a < 2 && 3 < 4; }";
    let first = compile(source);
    let second = compile(source);
    assert_eq!(first, second);
    assert_eq!(first.unwrap().into_bytes(), second.unwrap().into_bytes());
}

#[test]
fn malformed_input_produces_no_assembly() {
    // `int a = ;` fails parsing; no output text exists.
    let result = compile("int main() { int a = ; return a; }");
    assert!(result.is_err());
    match result {
        Err(CompileError::Parse(_)) => {},
        _ => panic!("expected a parse error"),
    }
}

#[test]
fn undeclared_identifier_is_a_hard_error() {
    let result = compile("int main() { return x; }");
    assert_eq!(
        result,
        Err(CompileError::Gen(GenError::UndeclaredIdentifier(String::from("x"))))
    );
}

#[test]
fn reading_an_uninitialized_variable_emits_no_load() {
    // A documented gap: the value read is whatever the register held.
    let output = compile_ok("int main() { int a; return a; }");
    assert_eq!(
        output,
        "\t.text\n\t.global _main\n\n_main:\
         \n\t\n\tsub sp, sp, #4\
         \n\t\n\tadd sp, sp, #4\n\tret\n"
    );
    assert!(!output.contains("ldr"));
}

#[test]
fn assignment_statement_stores_to_the_declared_slot() {
    let output = compile_ok("int main() { int a = 1; a = 2; return a; }");
    assert!(output.contains("\n\tmov w0, #2\n\tstr w0, [sp, #0]"));
}

#[test]
fn char_declaration_uses_a_temporary_slot() {
    let output = compile_ok("int main() { char c = 65; return 0; }");
    assert!(output.contains(
        "\n\tsub sp, sp, #16\n\t\n\tmov w0, #65\n\tstr w0, [sp,12]\n\tmov w0, 0\n\tadd sp, sp, 16\n\t"
    ));
}

#[test]
fn empty_source_emits_only_the_section_header() {
    assert_eq!(compile_ok(""), "\t.text\n");
}

#[test]
fn every_function_gets_a_global_directive_and_a_label() {
    let output = compile_ok("int f() { return 1; }\nint g() { return 2; }");
    assert_eq!(
        output,
        "\t.text\n\t.global _f\n\t.global _g\n\
         \n_f:\n\t\n\tmov w0, #1\n\tret\n\
         \n_g:\n\t\n\tmov w0, #2\n\tret\n"
    );
}

#[test]
fn generator_walks_a_parsed_tree() {
    let tokens = test_lexer("int main() { return 7; }");
    let mut parser = Parser::new(tokens);
    let program = parser.parse_program().expect("program should parse");
    let mut generator = Generator::new(program, SymbolTable::new());
    let output = generator.walk_da_tree().expect("generation should succeed");
    assert_eq!(output, "\t.text\n\t.global _main\n\n_main:\n\t\n\tmov w0, #7\n\tret\n");
}

#[test]
fn largest_literal_compiles() {
    let output = compile_ok("int main() { return 2147483647; }");
    assert!(output.contains("mov w0, #2147483647"));
}

#[test]
fn nested_parentheses_compile() {
    let output = compile_ok("int main() { return ((2)); }");
    assert!(output.contains("\n\tmov w0, #2\n\tret"));
}

fn single_statement_program(stmt: Statement) -> ProgramNode {
    ProgramNode {
        function_names: vec![String::from("main")],
        body: vec![FunctionNode {
            return_value: TokenType::IntKeyword,
            name: String::from("main"),
            body: vec![StatementNode { statement: stmt }],
        }],
    }
}

#[test]
fn unsupported_operator_is_a_hard_error() {
    // The generator must fail loudly on an operator it does not implement,
    // never emit placeholder text.
    let expr = ExprNode {
        expr: Expr::BinaryOp(
            TokenType::Mod,
            Box::new(ExprNode { expr: Expr::Number(1) }),
            Box::new(ExprNode { expr: Expr::Number(2) }),
        ),
    };
    let program = single_statement_program(Statement::Return(expr));
    let mut generator = Generator::new(program, SymbolTable::new());
    assert_eq!(
        generator.walk_da_tree(),
        Err(GenError::UnsupportedOperator(TokenType::Mod))
    );
}

#[test]
fn missing_operand_is_a_hard_error() {
    let expr = ExprNode { expr: Expr::UnaryOp(TokenType::Minus, None) };
    let program = single_statement_program(Statement::Return(expr));
    let mut generator = Generator::new(program, SymbolTable::new());
    assert_eq!(generator.walk_da_tree(), Err(GenError::MissingOperand));
}

#[test]
fn non_identifier_assignment_target_is_a_hard_error() {
    let expr = ExprNode {
        expr: Expr::DeclAssign(
            Some(Box::new(ExprNode { expr: Expr::Number(1) })),
            Some(TokenType::Assign),
            Some(Box::new(ExprNode { expr: Expr::Number(2) })),
        ),
    };
    let program = single_statement_program(Statement::DeclAssignForStmnt(Some(Box::new(expr))));
    let mut generator = Generator::new(program, SymbolTable::new());
    assert_eq!(generator.walk_da_tree(), Err(GenError::UnsupportedTarget));
}

#[test]
fn char_declaration_without_initializer_is_a_hard_error() {
    let stmt = Statement::Assignment(
        TokenType::CharKeyword,
        Token { value: Some(String::from("c")), token_type: TokenType::Identifier },
        None,
        None,
    );
    let program = single_statement_program(stmt);
    let mut generator = Generator::new(program, SymbolTable::new());
    assert_eq!(generator.walk_da_tree(), Err(GenError::UnsupportedStatement));
}
