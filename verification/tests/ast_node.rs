use lox_rust::ast_node::{AST_Node, AST_Type, ExprType, StmtType};
use lox_rust::token::{Token, TokenType};

#[test]
#[allow(non_snake_case)]
fn random_generating_AST_Node() {
    let level: Vec<usize> = vec![0, 1, 2, 3, 10, 16];
    for i in level {
        let res = AST_Node::random_expr(i);
        assert_eq!(res.get_level(), i);
    }
}

#[test]
#[allow(non_snake_case)]
fn AST_display() {
    println!("{}", AST_Node::random_expr(5).render());
}

#[test]
fn num_terminal_nodes() {
    let node = AST_Node::random_expr(3);
    println!("{}", node.render());
    println!("{}", node.get_num_of_children_recurse())
}

#[test]
fn random_tree_has_one_to_three_unknown_children() {
    let node = AST_Node::random_expr(4);
    assert_eq!(node.get_AST_Type(), AST_Type::Unknown);
    assert!(1 <= node.get_num_of_children() && node.get_num_of_children() <= 3);
    assert!(node.has_children());
    assert_eq!(node.token.lexeme, "DUMMY");
    assert_ne!(node.token.token_type, TokenType::AND);
    for child in node.get_children() {
        assert_eq!(child.get_AST_Type(), AST_Type::Unknown);
        assert_eq!(child.get_level(), 3);
    }
}

#[test]
fn leaves_are_counted_below_the_node() {
    let leaf = || AST_Node::new(AST_Type::Unknown, Token::dummy());
    let mut inner = leaf();
    inner.append_child(leaf());
    inner.append_child(leaf());
    let mut root = leaf();
    root.append_child(inner);
    root.append_child(leaf());
    assert_eq!(root.get_num_of_children_recurse(), 3);
    assert_eq!(root.count_leaves(), 3);
    assert_eq!(root.get_level(), 2);
    assert_eq!(leaf().get_num_of_children_recurse(), 0);
    assert_eq!(leaf().count_leaves(), 1);
    assert_eq!(leaf().get_level(), 0);
}

#[test]
fn token_decides_the_first_classification() {
    let of = |kind: TokenType| {
        AST_Node::from_token(Token::new(kind, "x".to_string(), 1, 1, "stdin")).get_AST_Type()
    };
    assert_eq!(of(TokenType::NUMBER), AST_Type::Expr(ExprType::Normal));
    assert_eq!(of(TokenType::TRUE), AST_Type::Expr(ExprType::Normal));
    assert_eq!(of(TokenType::FALSE), AST_Type::Expr(ExprType::Normal));
    assert_eq!(of(TokenType::STRING), AST_Type::Unparsed(TokenType::STRING));
    assert_eq!(of(TokenType::IDENTIFIER), AST_Type::Identifier);
    assert_eq!(of(TokenType::PLUS), AST_Type::Unparsed(TokenType::PLUS));
    assert_eq!(of(TokenType::STMT_SEP), AST_Type::Unparsed(TokenType::STMT_SEP));
}

#[test]
fn classification_predicates() {
    let mut node = AST_Node::dummy_node(AST_Type::Stmt(StmtType::Compound));
    assert!(node.is_stmt() && node.is_compound_stmt() && !node.is_expr());
    node.set_AST_Type(AST_Type::Expr(ExprType::Paren));
    assert!(!node.is_stmt() && !node.is_compound_stmt() && node.is_expr());
    assert!(node.belongs_to_AST_type(&AST_Type::get_all_expr()));
    assert!(!node.belongs_to_AST_type(&AST_Type::get_all_stmt()));
    assert!(node.belongs_to_Token_type(&[TokenType::DUMMY]));
    assert!(!node.belongs_to_Token_type(&[]));
    assert_eq!(AST_Type::get_all_expr().len(), 4);
    assert_eq!(AST_Type::get_all_stmt().len(), 13);
}

#[test]
fn duplicate_copies_the_whole_tree() {
    let tree = AST_Node::random_expr(3);
    let copy = tree.duplicate();
    assert_eq!(format!("{:?}", tree), format!("{:?}", copy));
}
