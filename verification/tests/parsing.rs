use minicc::ast::{Expr, ExprNode, Statement, StatementNode};
use minicc::lex::test_lexer;
use minicc::parser::{ParseError, Parser};
use minicc::symbol_table::SymbolTable;
use minicc::token::{Token, TokenType};

fn parse_source(source: &str) -> Result<minicc::ast::ProgramNode, ParseError> {
    let tokens = test_lexer(source);
    let mut parser = Parser::new(tokens);
    parser.parse_program()
}

fn first_statement(source: &str) -> Statement {
    let program = parse_source(source).expect("program should parse");
    assert_eq!(program.body.len(), 1);
    let mut body = program.body.into_iter().next().unwrap().body;
    assert!(body.len() >= 1);
    body.remove(0).statement
}

fn number(n: i32) -> Box<ExprNode> {
    Box::new(ExprNode { expr: Expr::Number(n) })
}

fn binary(op: TokenType, l: Box<ExprNode>, r: Box<ExprNode>) -> Box<ExprNode> {
    Box::new(ExprNode { expr: Expr::BinaryOp(op, l, r) })
}

#[test]
fn multiplication_binds_tighter_than_addition() {
    // `1 + 2 * 3` parses as 1 + (2 * 3), never (1 + 2) * 3.
    let stmt = first_statement("int main() { return 1 + 2 * 3; }");
    let expected = Statement::Return(ExprNode {
        expr: Expr::BinaryOp(
            TokenType::Plus,
            number(1),
            binary(TokenType::Mul, number(2), number(3)),
        ),
    });
    assert_eq!(stmt, expected);
}

#[test]
fn uniform_precedence_chains_fold_to_the_left() {
    // `8 - 3 - 2` parses as (8 - 3) - 2, which evaluates to 3, not 7.
    let stmt = first_statement("int main() { return 8 - 3 - 2; }");
    let expected = Statement::Return(ExprNode {
        expr: Expr::BinaryOp(
            TokenType::Minus,
            binary(TokenType::Minus, number(8), number(3)),
            number(2),
        ),
    });
    assert_eq!(stmt, expected);
}

#[test]
fn parentheses_override_precedence() {
    let stmt = first_statement("int main() { return (1 + 2) * 3; }");
    let expected = Statement::Return(ExprNode {
        expr: Expr::BinaryOp(
            TokenType::Mul,
            binary(TokenType::Plus, number(1), number(2)),
            number(3),
        ),
    });
    assert_eq!(stmt, expected);
}

#[test]
fn assignment_expression_chains_to_the_right() {
    let stmt = first_statement("int main() { a = b = 5; }");
    let inner = ExprNode {
        expr: Expr::DeclAssign(
            Some(Box::new(ExprNode { expr: Expr::Identifier(String::from("b")) })),
            Some(TokenType::Assign),
            Some(number(5)),
        ),
    };
    let expected = Statement::DeclAssignForStmnt(Some(Box::new(ExprNode {
        expr: Expr::DeclAssign(
            Some(Box::new(ExprNode { expr: Expr::Identifier(String::from("a")) })),
            Some(TokenType::Assign),
            Some(Box::new(inner)),
        ),
    })));
    assert_eq!(stmt, expected);
}

#[test]
fn declaration_without_initializer_keeps_no_expression() {
    let stmt = first_statement("int main() { int a; return 0; }");
    let expected = Statement::Assignment(
        TokenType::IntKeyword,
        Token { value: Some(String::from("a")), token_type: TokenType::Identifier },
        None,
        None,
    );
    assert_eq!(stmt, expected);
}

#[test]
fn missing_initializer_expression_fails_the_parse() {
    // `int a = ;` must fail with a reported error.
    let err = parse_source("int main() { int a = ; return a; }");
    assert_eq!(err, Err(ParseError::ExpectedFactor { found: TokenType::Semi }));
}

#[test]
fn unary_operators_nest_through_factors() {
    let stmt = first_statement("int main() { return -~!0; }");
    let expected = Statement::Return(ExprNode {
        expr: Expr::UnaryOp(
            TokenType::Minus,
            Some(Box::new(ExprNode {
                expr: Expr::UnaryOp(
                    TokenType::BitComplement,
                    Some(Box::new(ExprNode {
                        expr: Expr::UnaryOp(TokenType::Not, Some(number(0))),
                    })),
                ),
            })),
        ),
    });
    assert_eq!(stmt, expected);
}

#[test]
fn parser_registers_declarations_in_order() {
    let tokens = test_lexer("int main() { int a = 1; int b; int a = 2; return a; }");
    let mut parser = Parser::new(tokens);
    parser.parse_program().expect("program should parse");
    let table = &parser.symbol_table;
    assert_eq!(table.entries.len(), 3);
    assert_eq!(table.entries[0].stack_offset, 4);
    assert_eq!(table.entries[1].stack_offset, 8);
    assert_eq!(table.entries[2].stack_offset, 12);
    assert_eq!(table.entries[0].is_initialized, true);
    assert_eq!(table.entries[1].is_initialized, false);
    // Redeclaration shadows: lookup finds the latest entry for the name.
    let found = table.lookup("a").expect("a is declared");
    assert_eq!(found.stack_offset, 12);
    assert_eq!(table.current_allocation(), 12);
}

#[test]
fn nth_declaration_sits_at_offset_four_times_n() {
    let mut table = SymbolTable::new();
    for k in 1..=5u32 {
        let entry = table.add_entry(format!("v{}", k), true);
        assert_eq!(entry.stack_offset, 4 * k);
        assert_eq!(entry.bytes_allocated, 4 * k);
    }
    assert_eq!(table.current_allocation(), 20);
}

#[test]
fn integer_literal_above_i32_max_is_malformed() {
    let ok = parse_source("int main() { return 2147483647; }");
    assert!(ok.is_ok());
    let err = parse_source("int main() { return 2147483648; }");
    assert_eq!(err, Err(ParseError::MalformedIntLiteral));
}

#[test]
fn function_header_must_be_complete() {
    let e = parse_source("int main( { return 2; }").err().unwrap();
    assert_eq!(e, ParseError::UnexpectedToken { expected: TokenType::RParen, found: TokenType::LBrace });
    let e = parse_source("int main() { return 2;").err().unwrap();
    assert_eq!(e, ParseError::UnexpectedEnd);
}

#[test]
fn tokens_after_the_last_function_fail_the_parse() {
    let err = parse_source("int main() { return 2; } ;");
    assert!(err.is_err());
}

#[test]
fn empty_source_parses_to_an_empty_program() {
    let program = parse_source("").expect("empty source is an empty program");
    assert_eq!(program.body.len(), 0);
    assert_eq!(program.function_names.len(), 0);
}

#[test]
fn program_collects_function_names_in_order() {
    let program =
        parse_source("int f() { return 1; }\nint g() { return 2; }").expect("two functions");
    assert_eq!(program.function_names, vec![String::from("f"), String::from("g")]);
    assert_eq!(program.body.len(), 2);
    assert_eq!(program.body[1].name, String::from("g"));
}

#[test]
fn character_literal_parses_to_its_code_point() {
    let tokens = vec![Token { value: Some(String::from("'A'")), token_type: TokenType::Char }];
    let mut parser = Parser::new(tokens);
    let node = parser.parse_character().expect("well-formed character literal");
    assert_eq!(node, ExprNode { expr: Expr::Number(65) });
    let tokens = vec![Token { value: Some(String::from("'ab'")), token_type: TokenType::Char }];
    let mut parser = Parser::new(tokens);
    assert_eq!(parser.parse_character(), Err(ParseError::MalformedCharLiteral));
}

#[test]
fn cursor_primitives_behave() {
    let tokens = test_lexer("return 2;");
    let mut parser = Parser::new(tokens);
    assert_eq!(parser.peek(0).unwrap().token_type, TokenType::ReturnKeyword);
    assert_eq!(parser.peek(1).unwrap().token_type, TokenType::IntLit);
    assert!(parser.peek(3).is_none());
    assert_eq!(parser.expect(TokenType::ReturnKeyword), Ok(()));
    assert_eq!(
        parser.expect(TokenType::Semi),
        Err(ParseError::UnexpectedToken {
            expected: TokenType::Semi,
            found: TokenType::ReturnKeyword
        })
    );
    parser.consume();
    assert_eq!(parser.token_index, 1);
    assert_eq!(parser.expect(TokenType::IntLit), Ok(()));
}

#[test]
fn statement_list_may_be_empty() {
    let program = parse_source("int main() { }").expect("empty body");
    assert_eq!(program.body[0].body, Vec::<StatementNode>::new());
}

#[test]
fn statement_cannot_start_with_a_parenthesis() {
    let err = parse_source("int main() { (1); }");
    assert_eq!(err, Err(ParseError::ExpectedStatement { found: TokenType::LParen }));
}

#[test]
fn unary_parser_rejects_a_non_operator() {
    let tokens = test_lexer("+");
    let mut parser = Parser::new(tokens);
    assert_eq!(
        parser.parse_unary_operation(),
        Err(ParseError::ExpectedUnaryOperator { found: TokenType::Plus })
    );
}

#[test]
fn identifier_token_without_text_is_rejected() {
    let tokens = vec![Token { value: None, token_type: TokenType::Identifier }];
    let mut parser = Parser::new(tokens);
    assert_eq!(parser.parse_identifier(), Err(ParseError::MissingTokenValue));
}
