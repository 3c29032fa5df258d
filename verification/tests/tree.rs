use lox_rust::ast_node::{AST_Node, AST_Type, ExprType, StmtType};
use lox_rust::parse_tree_unfinished::ParseTreeUnfinshed;
use lox_rust::parser::{parse_function_definition, parse_post_single, ParseState};
use lox_rust::runtime::number::{NumberAnswer, NumberOp, NumberRequest};
use lox_rust::runtime::lox_variable::Number;
use lox_rust::scanner::scan_tokens;
use lox_rust::token::{Token, TokenType};
use lox_rust::tree::Tree;

fn host(request: NumberRequest) -> NumberAnswer {
    let value = |n: Number| f64::from_bits(n.bits);
    match request {
        NumberRequest::Parse(text) => match text.parse::<f64>() {
            Ok(n) => NumberAnswer::Number(Number { bits: n.to_bits() }),
            Err(_) => NumberAnswer::Invalid,
        },
        NumberRequest::Binary(op, a, b) => NumberAnswer::Number(Number {
            bits: match op {
                NumberOp::Add => value(a) + value(b),
                NumberOp::Subtract => value(a) - value(b),
                NumberOp::Multiply => value(a) * value(b),
                NumberOp::Divide => value(a) / value(b),
                NumberOp::Modulo => value(a) % value(b),
            }
            .to_bits(),
        }),
        _ => NumberAnswer::Invalid,
    }
}

fn token(kind: TokenType, lexeme: &str) -> Token {
    Token::new(kind, lexeme.to_string(), 2, 5, "stdin")
}

fn leaf(lexeme: &str) -> Option<Box<Tree>> {
    Some(Box::new(Tree::new_terminal_node(token(TokenType::NUMBER, lexeme))))
}

fn node(kind: TokenType, left: Option<Box<Tree>>, right: Option<Box<Tree>>) -> Tree {
    Tree::new(token(kind, "?"), left, right)
}

fn height(tree: &Tree) -> usize {
    let below = |child: &Option<Box<Tree>>| child.as_ref().map_or(0, |c| height(c) + 1);
    below(&tree.left).max(below(&tree.right))
}

#[test]
fn binary_tree_computes_the_four_operations() {
    let product = node(TokenType::STAR, leaf("2"), leaf("3"));
    let sum = node(TokenType::PLUS, leaf("1"), Some(Box::new(product)));
    assert_eq!(f64::from_bits(sum.eval(&host).unwrap().bits), 7.0);
    let difference = node(TokenType::MINUS, leaf("1"), leaf("0.5"));
    assert_eq!(f64::from_bits(difference.eval(&host).unwrap().bits), 0.5);
    let quotient = node(TokenType::SLASH, leaf("1"), leaf("4"));
    assert_eq!(f64::from_bits(quotient.eval(&host).unwrap().bits), 0.25);
    assert_eq!(node(TokenType::COMMA, leaf("1"), leaf("4")).eval(&host).unwrap().bits, 0);
    assert_eq!(Tree::from_token(token(TokenType::IDENTIFIER, "a")).eval(&host).unwrap().bits, 0);
}

#[test]
fn binary_tree_reports_what_is_missing() {
    let e = node(TokenType::PLUS, leaf("1"), None).eval(&host).unwrap_err();
    assert_eq!(e.get_description(), "CHILD IS NODE when evaluating!");
    assert_eq!((e.get_row(), e.get_column()), (2, 5));
    let e = node(TokenType::PLUS, leaf("1"), leaf("x")).eval(&host).unwrap_err();
    assert_eq!(e.get_description(), "Failed to parse NUM!");
}

#[test]
fn random_binary_tree_is_full() {
    for level in [0, 1, 4] {
        let tree = Tree::random_expr(level);
        assert_eq!(height(&tree), level);
        assert_eq!(tree.left.is_some(), level > 0);
        assert_eq!(tree.right.is_some(), level > 0);
        assert_eq!(tree.lines().len(), (1usize << (level + 1)) - 1);
    }
}

#[test]
fn postfix_token_adopts_the_node_before_it() {
    let mut line = 1;
    let mut tree = ParseTreeUnfinshed::from_tokens(scan_tokens("a ; 1 b ;", &mut line, "x").unwrap());
    let state = parse_post_single(
        &mut tree,
        &[AST_Type::Identifier],
        &[TokenType::STMT_SEP],
        AST_Type::Stmt(StmtType::Normal),
    );
    assert!(matches!(state, ParseState::Finished));
    assert_eq!(tree.len(), 4);
    let kinds: Vec<AST_Type> = tree.content.iter().map(|n| n.get_AST_Type()).collect();
    assert_eq!(
        kinds,
        vec![
            AST_Type::Stmt(StmtType::Normal),
            AST_Type::Expr(ExprType::Normal),
            AST_Type::Stmt(StmtType::Normal),
            AST_Type::Unparsed(TokenType::STMT_SEP)
        ]
    );
    assert_eq!(tree.content[0].children[0].token.lexeme, "a");
    assert_eq!(tree.content[2].children[0].token.lexeme, "b");
}

#[test]
fn node_at_a_position_is_checked() {
    let node = |kind| AST_Node::new(kind, token(TokenType::DUMMY, ""));
    let mut tree = ParseTreeUnfinshed::new();
    tree.push(node(AST_Type::Identifier));
    tree.push(node(AST_Type::Tuple));
    assert!(tree.error_handle_tree_i_is_in_types(0, &[AST_Type::Identifier], "x").is_ok());
    let e = tree.error_handle_tree_i_is_in_types(1, &[AST_Type::Identifier], "after a.").unwrap_err();
    assert_eq!(e.get_description(), "Expected a node of another kind. after a.");
    let e = tree.error_handle_tree_i_is_in_types(2, &[AST_Type::Identifier], "after b.").unwrap_err();
    assert_eq!(e.get_description(), "Expected another node, found nothing. after b.");
    assert_eq!((e.get_row(), e.get_column()), (2, 5));
}

#[test]
fn buffer_operations() {
    let node = |lexeme: &str| AST_Node::from_token(token(TokenType::IDENTIFIER, lexeme));
    let names = |tree: &ParseTreeUnfinshed| -> Vec<String> {
        tree.content.iter().map(|n| n.token.lexeme.clone()).collect()
    };
    let mut tree = ParseTreeUnfinshed::new();
    for name in ["a", "b", "c", "d", "e"] {
        tree.push(node(name));
    }
    assert_eq!(names(&tree.slice(1, 3)), ["b", "c"]);
    assert_eq!(tree.len(), 5);
    tree.remove(0);
    assert_eq!(tree.take(1).token.lexeme, "c");
    tree.replace(0, node("x"));
    tree.insert(1, node("y"));
    assert_eq!(names(&tree), ["x", "y", "d", "e"]);
    let drained = tree.drain(1, 3);
    assert_eq!(names(&drained), ["y", "d"]);
    assert_eq!(names(&tree), ["x", "e"]);
    assert_eq!(tree.pop().token.lexeme, "e");
    tree.extend(drained);
    assert_eq!(names(&tree), ["x", "y", "d"]);
}

#[test]
fn malformed_function_definition_does_not_parse() {
    for (text, description) in [
        ("fn (a) { }", "Expected function name"),
        ("fn f { }", "Expected parameters"),
        ("fn f (a) b", "Expected Braced Statment"),
        ("fn", "Expected function name"),
    ] {
        let mut line = 1;
        let mut tree = ParseTreeUnfinshed::new();
        match lox_rust::parser::parse_from_string(text, &mut line, &mut tree, "stdin") {
            ParseState::Error(e) => assert_eq!(e.get_description(), description, "{}", text),
            other => panic!("{}: {:?}", text, other),
        }
    }
    let mut tree = ParseTreeUnfinshed::new();
    assert!(matches!(parse_function_definition(&mut tree, "stdin"), ParseState::Finished));
}

#[test]
fn function_definition_and_call_fold() {
    let mut line = 1;
    let mut tree = ParseTreeUnfinshed::new();
    let state = lox_rust::parser::parse_from_string(
        "fn f(a) { a }\nprint(f(1))",
        &mut line,
        &mut tree,
        "stdin",
    );
    assert!(matches!(state, ParseState::Finished), "{:?}", state);
    let root = tree.get_finished_node().unwrap().unwrap();
    let definition = &root.children[0];
    assert_eq!(definition.get_AST_Type(), AST_Type::Stmt(StmtType::FunctionDef));
    assert_eq!(definition.children.len(), 3);
    assert_eq!(definition.children[0].get_AST_Type(), AST_Type::Identifier);
    assert_eq!(definition.children[1].get_AST_Type(), AST_Type::Expr(ExprType::Paren));
    assert_eq!(definition.children[2].get_AST_Type(), AST_Type::Stmt(StmtType::Braced));
    let call = &root.children[1].children[0];
    assert_eq!(call.get_AST_Type(), AST_Type::Expr(ExprType::Function));
    assert_eq!(call.get_token_type(), TokenType::PRINT);
    let inner = &call.children[0].children[0];
    assert_eq!(inner.get_AST_Type(), AST_Type::Expr(ExprType::Function));
    assert_eq!(inner.token.lexeme, "f");
}
