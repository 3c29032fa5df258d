use lox_rust::scanner::{get_string, scan_iteration, scan_tokens};
use lox_rust::token::{Token, TokenType};

fn kinds(tokens: &[Token]) -> Vec<TokenType> {
    tokens.iter().map(|t| t.token_type).collect()
}

#[test]
fn test_scan_iteration() {
    let mut current = 0;
    let mut line = 1;
    let mut column = 1;
    let source = "!=".chars().collect::<Vec<char>>();
    let token = scan_iteration(&source, 0, &mut current, &mut line, &mut column, "stdin").unwrap();
    assert_eq!(token.as_ref().unwrap().token_type, TokenType::BANG_EQUAL);
    assert_eq!(token.as_ref().unwrap().lexeme, "!=");
    assert_eq!(token.as_ref().unwrap().line, 1);
}

#[test]
fn test_scan_tokens() {
    fn test_helper(source: &str) {
        let mut line = 1;
        let tokens = scan_tokens(source, &mut line, "stdin").unwrap();
        println!("{}: {}", "source", source);
        println!("{}", "Tokens:");
        for i in tokens.iter() {
            println!("{:?}", i);
        }
    }

    let source = r#"! != "hello" 123 123.123"#;
    test_helper(source);

    let source = r#"1+2-3*4/5+1.22+5.22*21232.5347891"#;
    test_helper(source);

    let source = r#"var x = 10"#;
    test_helper(source);

    let source = r#"var x = 10; var y = 20; var z = 30; 
var a = 40;"#;
    test_helper(source);
}

#[test]
fn scan_tokens_ends_with_the_sentinel() {
    let mut line = 1;
    let tokens = scan_tokens("var x = 10", &mut line, "stdin").unwrap();
    assert_eq!(
        kinds(&tokens),
        vec![
            TokenType::VAR,
            TokenType::IDENTIFIER,
            TokenType::EQUAL,
            TokenType::NUMBER,
            TokenType::STMT_SEP
        ]
    );
    let sentinel = tokens.last().unwrap();
    assert_eq!(sentinel.lexeme, "\\xa");
    assert_eq!(sentinel.line, 1);
    assert_eq!(sentinel.column, 11);
    assert_eq!(sentinel.source_file, "stdin");
    assert_eq!(tokens[1].lexeme, "x");
    assert_eq!(tokens[1].column, 5);
    assert_eq!(tokens[3].lexeme, "10");
    assert_eq!(tokens[3].column, 9);
}

#[test]
fn scan_tokens_of_nothing_is_the_sentinel() {
    let mut line = 7;
    let tokens = scan_tokens("", &mut line, "stdin").unwrap();
    assert_eq!(tokens.len(), 1);
    assert_eq!(tokens[0].token_type, TokenType::STMT_SEP);
    assert_eq!(tokens[0].line, 7);
    assert_eq!(tokens[0].column, 1);
    assert_eq!(line, 7);
}

#[test]
fn newline_counts_lines_and_resets_the_column() {
    let mut line = 1;
    let tokens = scan_tokens("a\n  b", &mut line, "stdin").unwrap();
    assert_eq!(line, 2);
    assert_eq!(tokens[1].token_type, TokenType::STMT_SEP);
    assert_eq!(tokens[1].lexeme, "\n");
    assert_eq!(tokens[1].line, 2);
    assert_eq!(tokens[1].column, 0);
    assert_eq!(tokens[2].lexeme, "b");
    assert_eq!(tokens[2].line, 2);
    assert_eq!(tokens[2].column, 3);
}

#[test]
fn operators_of_one_and_two_characters() {
    let mut line = 1;
    let tokens = scan_tokens("+ += - -= ! != = == > >= < <= * *= / /= % =", &mut line, "x").unwrap();
    assert_eq!(
        kinds(&tokens),
        vec![
            TokenType::PLUS,
            TokenType::PLUS_EQUAL,
            TokenType::MINUS,
            TokenType::MINUS_EQUAL,
            TokenType::BANG,
            TokenType::BANG_EQUAL,
            TokenType::EQUAL,
            TokenType::EQUAL_EQUAL,
            TokenType::GREATER,
            TokenType::GREATER_EQUAL,
            TokenType::LESS,
            TokenType::LESS_EQUAL,
            TokenType::STAR,
            TokenType::STAR_EQUAL,
            TokenType::SLASH,
            TokenType::SLASH_EQUAL,
            TokenType::PERCENT,
            TokenType::EQUAL,
            TokenType::STMT_SEP
        ]
    );
}

#[test]
fn delimiters_and_punctuation() {
    let mut line = 1;
    let tokens = scan_tokens("()[]{},.;", &mut line, "x").unwrap();
    assert_eq!(
        kinds(&tokens),
        vec![
            TokenType::LEFT_PAREN,
            TokenType::RIGHT_PAREN,
            TokenType::LEFT_BRACKET,
            TokenType::RIGHT_BRACKET,
            TokenType::LEFT_BRACE,
            TokenType::RIGHT_BRACE,
            TokenType::COMMA,
            TokenType::DOT,
            TokenType::STMT_SEP,
            TokenType::STMT_SEP
        ]
    );
}

#[test]
fn numbers_strings_and_names() {
    let mut line = 1;
    let tokens = scan_tokens("12.5 7. \"hi there\" \"\" foo_1 while EOF", &mut line, "x").unwrap();
    assert_eq!(
        kinds(&tokens),
        vec![
            TokenType::NUMBER,
            TokenType::NUMBER,
            TokenType::STRING,
            TokenType::STRING,
            TokenType::IDENTIFIER,
            TokenType::WHILE,
            TokenType::EOF,
            TokenType::STMT_SEP
        ]
    );
    assert_eq!(tokens[0].lexeme, "12.5");
    assert_eq!(tokens[1].lexeme, "7");
    assert_eq!(tokens[2].lexeme, "hi there");
    assert_eq!(tokens[2].column, 9);
    assert_eq!(tokens[3].lexeme, "");
    assert_eq!(tokens[4].lexeme, "foo_1");
    assert_eq!(tokens[4].column, 23);
}

#[test]
fn every_keyword_is_recognised() {
    let words = [
        ("and", TokenType::AND),
        ("class", TokenType::CLASS),
        ("else", TokenType::ELSE),
        ("false", TokenType::FALSE),
        ("fn", TokenType::FN),
        ("for", TokenType::FOR),
        ("if", TokenType::IF),
        ("nil", TokenType::NIL),
        ("or", TokenType::OR),
        ("print", TokenType::PRINT),
        ("return", TokenType::RETURN),
        ("super", TokenType::SUPER),
        ("this", TokenType::THIS),
        ("true", TokenType::TRUE),
        ("var", TokenType::VAR),
        ("while", TokenType::WHILE),
        ("EOF", TokenType::EOF),
    ];
    for (word, kind) in words {
        assert_eq!(TokenType::keyword(&word.to_string()), Some(kind));
    }
    assert_eq!(TokenType::keyword(&"iff".to_string()), None);
    assert_eq!(TokenType::keyword(&"".to_string()), None);
}

#[test]
fn comment_is_skipped_to_the_end_of_the_line() {
    let mut line = 1;
    let tokens = scan_tokens("a // b c\nd", &mut line, "x").unwrap();
    assert_eq!(
        kinds(&tokens),
        vec![
            TokenType::IDENTIFIER,
            TokenType::SLASH,
            TokenType::STMT_SEP,
            TokenType::IDENTIFIER,
            TokenType::STMT_SEP
        ]
    );
    assert_eq!(tokens[3].lexeme, "d");
}

#[test]
fn unmatched_quote_is_an_error() {
    let mut line = 3;
    let e = scan_tokens("a \"bc", &mut line, "file.lox").unwrap_err();
    assert_eq!(e.get_description(), "Unmatched \" !");
    assert_eq!(e.get_row(), 3);
    assert_eq!(e.get_column(), 3);
    let e = scan_tokens("\"", &mut line, "file.lox").unwrap_err();
    assert_eq!(e.get_description(), "Unmatched \" !");
}

#[test]
fn invalid_character_is_an_error() {
    let mut line = 1;
    let e = scan_tokens("a @", &mut line, "file.lox").unwrap_err();
    assert_eq!(e.get_description(), "'@' is an invalid token");
    assert_eq!(e.get_column(), 3);
}

#[test]
fn operator_at_the_end_of_the_text() {
    let mut line = 1;
    let tokens = scan_tokens("a =", &mut line, "x").unwrap();
    assert_eq!(tokens[1].token_type, TokenType::EQUAL);
    let tokens = scan_tokens("a /", &mut line, "x").unwrap();
    assert_eq!(tokens[1].token_type, TokenType::SLASH);
}

#[test]
fn get_string_copies_a_range() {
    let chars: Vec<char> = "hello".chars().collect();
    assert_eq!(get_string(1, 4, &chars), "ell");
    assert_eq!(get_string(0, 5, &chars), "hello");
    assert_eq!(get_string(2, 2, &chars), "");
    assert_eq!(get_string(4, 1, &chars), "");
}
