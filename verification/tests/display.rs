use lox_rust::ast_node::{AST_Node, AST_Type, ExprType, StmtType};
use lox_rust::display::{decimal, join_lines, padded};
use lox_rust::parse_tree_unfinished::ParseTreeUnfinshed;
use lox_rust::parser::{parse, ParseState};
use lox_rust::runtime::lox_variable::{LoxVariable, LoxVariableType, Number};
use lox_rust::runtime::number::{NumberAnswer, NumberRequest};
use lox_rust::scanner::scan_tokens;
use lox_rust::token::{Token, TokenType};
use lox_rust::tree::Tree;

fn format_host(request: NumberRequest) -> NumberAnswer {
    match request {
        NumberRequest::Format(n) => NumberAnswer::Text(format!("{}", f64::from_bits(n.bits))),
        _ => NumberAnswer::Invalid,
    }
}

fn silent(_request: NumberRequest) -> NumberAnswer {
    NumberAnswer::Invalid
}

fn token(kind: TokenType, lexeme: &str, line: usize, column: usize) -> Token {
    Token::new(kind, lexeme.to_string(), line, column, "stdin")
}

#[test]
fn numbers_are_written_in_decimal() {
    assert_eq!(decimal(0), "0");
    assert_eq!(decimal(7), "7");
    assert_eq!(decimal(10), "10");
    assert_eq!(decimal(1234567890), "1234567890");
    assert_eq!(decimal(usize::MAX), usize::MAX.to_string());
}

#[test]
fn text_is_filled_up_with_blanks() {
    assert_eq!(padded("a", 4), "a   ");
    assert_eq!(padded("", 2), "  ");
    assert_eq!(padded("abcd", 4), "abcd");
    assert_eq!(padded("abcdef", 4), "abcdef");
    assert_eq!(padded("é", 3), format!("{:<3}", "é"));
}

#[test]
fn lines_are_joined_with_line_breaks() {
    assert_eq!(join_lines(&vec![]), "");
    assert_eq!(join_lines(&vec!["a".to_string()]), "a");
    assert_eq!(join_lines(&vec!["a".to_string(), "".to_string(), "b".to_string()]), "a\n\nb");
}

#[test]
fn token_is_written_with_kind_and_position() {
    let t = token(TokenType::PLUS_EQUAL, "+=", 3, 14);
    assert_eq!(t.text(), "(+=   PLUS_EQUAL 3:14)");
    assert_eq!(t.text(), format!("({:<4} {:?} {}:{})", t.lexeme, t.token_type, t.line, t.column));
    assert_eq!(token(TokenType::IDENTIFIER, "counter", 1, 1).text(), "(counter IDENTIFIER 1:1)");
}

#[test]
fn every_kind_is_named_as_it_is_spelled() {
    for n in 0..46 {
        let kind = TokenType::token_type_at(n);
        assert_eq!(kind.name(), format!("{:?}", kind));
    }
    assert_eq!(TokenType::AND.name(), "AND");
}

#[test]
fn classification_is_written_like_its_variant() {
    let kinds = [
        AST_Type::Unfinished,
        AST_Type::PotentialStmt,
        AST_Type::Identifier,
        AST_Type::Unknown,
        AST_Type::Tuple,
        AST_Type::Unparsed(TokenType::LEFT_BRACE),
        AST_Type::Expr(ExprType::Normal),
        AST_Type::Expr(ExprType::Paren),
        AST_Type::Expr(ExprType::Negated),
        AST_Type::Expr(ExprType::Function),
    ];
    for kind in kinds.iter().chain(AST_Type::get_all_stmt().iter()) {
        assert_eq!(kind.text(), format!("{:?}", kind));
    }
    assert_eq!(AST_Type::Stmt(StmtType::Elseif).text(), "Stmt(Elseif)");
    assert_eq!(AST_Type::Stmt(StmtType::Else).text(), "Stmt(Else)");
}

#[test]
fn tree_is_written_one_node_a_line() {
    let mut tree = ParseTreeUnfinshed::new();
    let mut line = 1;
    let tokens = scan_tokens("a + b * 2", &mut line, "stdin").unwrap();
    assert!(matches!(parse(tokens, &mut tree, "stdin"), ParseState::Finished));
    let expected = "\
(     DUMMY 0:0)      AST_Type::Stmt(Compound)
 |-(\\xa  STMT_SEP 1:10)      AST_Type::Stmt(Normal)
    |-(+    PLUS 1:3)      AST_Type::Expr(Normal)
       |-(a    IDENTIFIER 1:1)      AST_Type::Identifier
       |-(*    STAR 1:7)      AST_Type::Expr(Normal)
          |-(b    IDENTIFIER 1:5)      AST_Type::Identifier
          |-(2    NUMBER 1:9)      AST_Type::Expr(Normal)";
    assert_eq!(tree.get_finished_node().unwrap().unwrap().render(), expected);
    assert_eq!(tree.render(), expected);
}

#[test]
fn bar_runs_beside_the_lines_of_all_but_the_last_child() {
    let leaf = |name: &str| AST_Node::from_token(token(TokenType::IDENTIFIER, name, 1, 1));
    let mut first = leaf("b");
    first.append_child(leaf("c"));
    let mut root = leaf("a");
    root.append_child(first);
    root.append_child(leaf("d"));
    assert_eq!(
        root.lines(),
        vec![
            "(a    IDENTIFIER 1:1)      AST_Type::Identifier",
            " |-(b    IDENTIFIER 1:1)      AST_Type::Identifier",
            " |  |-(c    IDENTIFIER 1:1)      AST_Type::Identifier",
            " |-(d    IDENTIFIER 1:1)      AST_Type::Identifier",
        ]
    );
}

#[test]
fn run_is_written_tree_below_tree() {
    let run = ParseTreeUnfinshed::from_tokens(vec![
        token(TokenType::IDENTIFIER, "a", 1, 1),
        token(TokenType::NUMBER, "1", 1, 3),
    ]);
    assert_eq!(
        run.render(),
        "(a    IDENTIFIER 1:1)      AST_Type::Identifier\n(1    NUMBER 1:3)      AST_Type::Expr(Normal)"
    );
    assert_eq!(ParseTreeUnfinshed::new().render(), "");
}

#[test]
fn binary_tree_is_written_with_both_children() {
    let leaf = |lexeme: &str| Box::new(Tree::new_terminal_node(token(TokenType::NUMBER, lexeme, 1, 1)));
    let inner = Tree::new(token(TokenType::STAR, "*", 1, 1), Some(leaf("2")), Some(leaf("3")));
    let root = Tree::new(token(TokenType::PLUS, "+", 1, 1), Some(Box::new(inner)), Some(leaf("1")));
    assert_eq!(
        root.render(),
        "\
(+    PLUS 1:1)
 |-(*    STAR 1:1)
 |  |-(2    NUMBER 1:1)
 |  |-(3    NUMBER 1:1)
 |-(1    NUMBER 1:1)"
    );
    let only_left = Tree::new(token(TokenType::MINUS, "-", 1, 1), Some(Box::new(root)), None);
    assert!(only_left.render().contains("\n    |-(*    STAR 1:1)"));
}

#[test]
fn variable_is_written_with_name_and_kind() {
    let n = LoxVariable::new(
        Some("x".to_string()),
        LoxVariableType::NUMBER(Number { bits: 2.5f64.to_bits() }),
        None,
    );
    assert_eq!(n.text(&format_host).unwrap(), "x         : NUMBER: 2.5");
    assert!(n.text(&silent).is_none());
    let s = LoxVariable::new(None, LoxVariableType::STRING("hi".to_string()), None);
    assert_eq!(s.text(&silent).unwrap(), "RVALUE    : STRING: hi");
    assert_eq!(LoxVariableType::BOOL(true).text(&silent).unwrap(), "BOOL: true");
    assert_eq!(LoxVariableType::BOOL(false).text(&silent).unwrap(), "BOOL: false");
    assert_eq!(LoxVariableType::TUPLE(vec![]).text(&silent).unwrap(), "TUPLE");
    assert_eq!(LoxVariableType::NONE.text(&silent).unwrap(), "NONE");
}
