use minicc::lex::{get_lexemes, test_lexer, tokenize_lexemes};
use minicc::token::{Token, TokenType};

fn lexeme_strings(source: &str) -> Vec<String> {
    get_lexemes(source)
}

fn token_types(source: &str) -> Vec<TokenType> {
    test_lexer(source).into_iter().map(|t| t.token_type).collect()
}

#[test]
fn splits_a_simple_program_into_lexemes() {
    let lexemes = lexeme_strings("int main() { return 2; }");
    let expected = vec!["int", "main", "(", ")", "{", "return", "2", ";", "}"];
    let expected: Vec<String> = expected.into_iter().map(String::from).collect();
    assert_eq!(lexemes, expected);
}

#[test]
fn classifies_a_simple_program() {
    let types = token_types("int main() { return 2; }");
    assert_eq!(
        types,
        vec![
            TokenType::IntKeyword,
            TokenType::Identifier,
            TokenType::LParen,
            TokenType::RParen,
            TokenType::LBrace,
            TokenType::ReturnKeyword,
            TokenType::IntLit,
            TokenType::Semi,
            TokenType::RBrace,
        ]
    );
}

#[test]
fn reads_two_character_operators_before_single_ones() {
    assert_eq!(
        lexeme_strings("a == b != c && d || e"),
        vec!["a", "==", "b", "!=", "c", "&&", "d", "||", "e"]
            .into_iter()
            .map(String::from)
            .collect::<Vec<String>>()
    );
    assert_eq!(
        token_types("a <= b >= c < d > e = f ! g ~ h"),
        vec![
            TokenType::Identifier,
            TokenType::Le,
            TokenType::Identifier,
            TokenType::Ge,
            TokenType::Identifier,
            TokenType::Lt,
            TokenType::Identifier,
            TokenType::Gt,
            TokenType::Identifier,
            TokenType::Assign,
            TokenType::Identifier,
            TokenType::Not,
            TokenType::Identifier,
            TokenType::BitComplement,
            TokenType::Identifier,
        ]
    );
}

#[test]
fn keywords_resolve_through_the_keyword_table() {
    assert_eq!(
        token_types("if else while for struct enum static break continue void union char"),
        vec![
            TokenType::IfKeyword,
            TokenType::ElseKeyword,
            TokenType::WhileKeyword,
            TokenType::ForKeyword,
            TokenType::StructKeyword,
            TokenType::EnumKeyword,
            TokenType::StaticKeyword,
            TokenType::BreakKeyword,
            TokenType::ContinueKeyword,
            TokenType::VoidKeyword,
            TokenType::UnionKeyword,
            TokenType::CharKeyword,
        ]
    );
}

#[test]
fn character_literal_scans_as_one_lexeme_and_classifies_as_char() {
    assert_eq!(lexeme_strings("'x'"), vec![String::from("'x'")]);
    let tokens = test_lexer("'x'");
    assert_eq!(tokens.len(), 1);
    assert_eq!(tokens[0].token_type, TokenType::Char);
    assert_eq!(tokens[0].value, Some(String::from("'x'")));
}

#[test]
fn unterminated_character_literal_is_read_without_panicking() {
    // A quote at the end of a line must not read past the line.
    assert_eq!(lexeme_strings("'x"), vec![String::from("'x")]);
    assert_eq!(lexeme_strings("'"), vec![String::from("'")]);
    // The malformed lexeme survives classification as an explicit error.
    let tokens = test_lexer("'x");
    assert_eq!(tokens[0].token_type, TokenType::Error);
}

#[test]
fn leading_zero_number_becomes_an_error_token() {
    let tokens = test_lexer("int x = 0123;");
    assert_eq!(tokens[3].token_type, TokenType::Error);
    assert_eq!(tokens[3].value, Some(String::from("0123")));
    // A lone zero stays a literal.
    let tokens = test_lexer("0");
    assert_eq!(tokens[0].token_type, TokenType::IntLit);
}

#[test]
fn unrecognized_characters_are_skipped() {
    assert_eq!(
        lexeme_strings("int @ a $ = # 5 ;"),
        vec!["int", "a", "=", "5", ";"]
            .into_iter()
            .map(String::from)
            .collect::<Vec<String>>()
    );
}

#[test]
fn identifiers_may_hold_underscores_and_digits() {
    let tokens = test_lexer("_start x9 a_b_c");
    assert_eq!(tokens.len(), 3);
    for t in &tokens {
        assert_eq!(t.token_type, TokenType::Identifier);
    }
    assert_eq!(tokens[0].value, Some(String::from("_start")));
    assert_eq!(tokens[1].value, Some(String::from("x9")));
}

#[test]
fn lines_are_scanned_independently() {
    assert_eq!(
        lexeme_strings("int a\nreturn b"),
        vec!["int", "a", "return", "b"]
            .into_iter()
            .map(String::from)
            .collect::<Vec<String>>()
    );
}

#[test]
fn tokenize_keeps_every_lexeme() {
    let lexemes: Vec<String> = vec!["int", "??", "5"].into_iter().map(String::from).collect();
    let tokens = tokenize_lexemes(lexemes);
    assert_eq!(tokens.len(), 3);
    assert_eq!(tokens[0].token_type, TokenType::IntKeyword);
    assert_eq!(tokens[1].token_type, TokenType::Error);
    assert_eq!(tokens[2].token_type, TokenType::IntLit);
}

#[test]
fn punctuators_classify_one_to_one() {
    assert_eq!(
        token_types("[ ] . , : ;"),
        vec![
            TokenType::LBrack,
            TokenType::RBrack,
            TokenType::Dot,
            TokenType::Comma,
            TokenType::Colon,
            TokenType::Semi,
        ]
    );
}

#[test]
fn tokens_carry_their_raw_text() {
    let tokens = test_lexer("return 42;");
    assert_eq!(
        tokens,
        vec![
            Token { value: Some(String::from("return")), token_type: TokenType::ReturnKeyword },
            Token { value: Some(String::from("42")), token_type: TokenType::IntLit },
            Token { value: Some(String::from(";")), token_type: TokenType::Semi },
        ]
    );
}
