use lox_rust::ast_node::{AST_Node, AST_Type, ExprType, StmtType};
use lox_rust::err_lox::ErrorType;
use lox_rust::parse_tree_unfinished::{
    ParseTreeUnfinshed, PatternMatchingRes, RepetitivePatternMatchingRes,
};
use lox_rust::parser::{get_delimiter_location, parse, parse_from_string, ParseState};
use lox_rust::scanner::scan_tokens;
use lox_rust::token::{Token, TokenType};

fn scan(text: &str) -> Vec<Token> {
    let mut line = 1;
    scan_tokens(text, &mut line, "stdin").unwrap()
}

fn parse_text(text: &str) -> (ParseState, ParseTreeUnfinshed) {
    let mut tree = ParseTreeUnfinshed::new();
    let state = parse(scan(text), &mut tree, "stdin");
    (state, tree)
}

fn finished_root(text: &str) -> AST_Node {
    let (state, tree) = parse_text(text);
    assert!(matches!(state, ParseState::Finished), "{:?}", state);
    tree.get_finished_node().unwrap().unwrap().duplicate()
}

/// The expression of a program that is one expression statement.
fn only_expression(text: &str) -> AST_Node {
    let root = finished_root(text);
    assert_eq!(root.get_AST_Type(), AST_Type::Stmt(StmtType::Compound));
    assert_eq!(root.children.len(), 1);
    let statement = &root.children[0];
    assert_eq!(statement.get_AST_Type(), AST_Type::Stmt(StmtType::Normal));
    assert_eq!(statement.children.len(), 1);
    statement.children[0].duplicate()
}

fn assert_binary(node: &AST_Node, operator: TokenType) {
    assert_eq!(node.get_AST_Type(), AST_Type::Expr(ExprType::Normal));
    assert_eq!(node.get_token_type(), operator);
    assert_eq!(node.children.len(), 2);
}

fn assert_leaf(node: &AST_Node, lexeme: &str) {
    assert_eq!(node.children.len(), 0);
    assert_eq!(node.token.lexeme, lexeme);
}

#[test]
fn delimiter_location() {
    let mut line = 0;
    let input = "{1 - 2}";
    let tokens = scan_tokens(input, &mut line, "stdin").unwrap();
    let parse_tree = ParseTreeUnfinshed::from_tokens(tokens);
    println!("{:?}", parse_tree);
    println!(
        "{:?}",
        get_delimiter_location(
            AST_Type::Unparsed(TokenType::LEFT_PAREN),
            AST_Type::Unparsed(TokenType::RIGHT_PAREN),
            &parse_tree,
            "stdin",
        )
    );
}

#[test]
fn parser_match_ast_pattern() {
    let string = "a = 2;";
    let tree = ParseTreeUnfinshed::from_tokens(scan(string));
    let res = tree.match_ast_pattern(
        0,
        &vec![
            vec![AST_Type::Identifier],
            vec![AST_Type::Unparsed(TokenType::EQUAL)],
            vec![AST_Type::Expr(ExprType::Paren), AST_Type::Expr(ExprType::Normal)],
            vec![AST_Type::Unparsed(TokenType::STMT_SEP)],
        ],
        1,
    );
    assert_eq!(res, PatternMatchingRes::Matched);

    let res = tree.match_ast_pattern(
        0,
        &vec![
            vec![AST_Type::Unknown],
            vec![AST_Type::Unparsed(TokenType::EQUAL)],
            vec![AST_Type::Expr(ExprType::Paren), AST_Type::Expr(ExprType::Normal)],
            vec![AST_Type::Unparsed(TokenType::STMT_SEP)],
        ],
        1,
    );
    assert_eq!(res, PatternMatchingRes::FailedAt(0));

    let res = tree.match_ast_pattern(
        0,
        &vec![
            vec![AST_Type::Identifier],
            vec![AST_Type::Unparsed(TokenType::EOF)],
            vec![AST_Type::Expr(ExprType::Paren), AST_Type::Expr(ExprType::Normal)],
            vec![AST_Type::Unparsed(TokenType::STMT_SEP)],
        ],
        1,
    );
    assert_eq!(res, PatternMatchingRes::Nomatch);

    let res = tree.match_ast_pattern(
        0,
        &vec![
            vec![AST_Type::Identifier],
            vec![AST_Type::Unparsed(TokenType::EQUAL)],
            vec![AST_Type::Expr(ExprType::Paren), AST_Type::Expr(ExprType::Normal)],
            vec![AST_Type::Unparsed(TokenType::EOF)],
        ],
        1,
    );
    assert_eq!(res, PatternMatchingRes::FailedAt(3));
}

#[test]
fn parser_match_ast_repetitive_pattern() {
    let string = "a = a = a =";
    let mut tree = ParseTreeUnfinshed::from_tokens(scan(string));

    let res = tree.match_ast_repetitive_pattern(
        0,
        &vec![vec![AST_Type::Identifier], vec![AST_Type::Unparsed(TokenType::EQUAL)]],
    );
    assert_eq!(res, (RepetitivePatternMatchingRes::MatchUntil(5), 0));

    let (res, _) = tree.match_ast_repetitive_pattern(
        0,
        &vec![vec![AST_Type::Unknown], vec![AST_Type::Unparsed(TokenType::EQUAL)]],
    );
    assert_eq!(res, RepetitivePatternMatchingRes::Nomatch);

    let string = "a = a = a b";
    let mut tree = ParseTreeUnfinshed::from_tokens(scan(string));

    let res = tree.match_ast_repetitive_pattern(
        0,
        &vec![
            vec![AST_Type::Identifier],
            vec![AST_Type::Unparsed(TokenType::EQUAL)],
            vec![AST_Type::Unparsed(TokenType::EQUAL)],
            vec![AST_Type::Unparsed(TokenType::EQUAL)],
            vec![AST_Type::Unparsed(TokenType::EQUAL)],
            vec![AST_Type::Unparsed(TokenType::EQUAL)],
            vec![AST_Type::Unparsed(TokenType::EQUAL)],
        ],
    );
    assert_eq!(res, (RepetitivePatternMatchingRes::MatchUntil(1), 0));
}

#[test]
fn delete_consect_stmt_sep() {
    let string = "a\n\n\n\nb";
    let mut tree = ParseTreeUnfinshed::from_tokens(scan(string));
    assert_eq!(tree.delete_consec_stmt_sep_from_idx_inclusive(0), 0);
    let mut tree = ParseTreeUnfinshed::from_tokens(scan(string));
    assert_eq!(tree.delete_consec_stmt_sep_from_idx_inclusive(1), 4);
}

#[test]
fn repetitive_pattern_takes_out_separators_between_matches() {
    let mut tree = ParseTreeUnfinshed::from_tokens(scan("a\n\nb c"));
    let res = tree.match_ast_repetitive_pattern(0, &vec![vec![AST_Type::Identifier]]);
    assert_eq!(res, (RepetitivePatternMatchingRes::MatchUntil(2), 2));
    assert_eq!(tree.len(), 4);
}

#[test]
fn pattern_past_the_end_fails_at_first_missing_position() {
    let tree = ParseTreeUnfinshed::from_tokens(vec![
        Token::new(TokenType::IDENTIFIER, "a".to_string(), 1, 1, "stdin"),
        Token::new(TokenType::EQUAL, "=".to_string(), 1, 3, "stdin"),
    ]);
    let patterns = vec![
        vec![AST_Type::Identifier],
        vec![AST_Type::Unparsed(TokenType::EQUAL)],
        vec![AST_Type::Expr(ExprType::Normal)],
    ];
    assert_eq!(tree.match_ast_pattern(0, &patterns, 1), PatternMatchingRes::FailedAt(2));
    assert_eq!(tree.match_ast_pattern(1, &patterns, 1), PatternMatchingRes::Nomatch);
    assert_eq!(tree.match_ast_pattern(5, &patterns, 0), PatternMatchingRes::Nomatch);
}

#[test]
fn addition_nests_to_the_left() {
    let sum = only_expression("a+b+c");
    assert_binary(&sum, TokenType::PLUS);
    assert_binary(&sum.children[0], TokenType::PLUS);
    assert_leaf(&sum.children[0].children[0], "a");
    assert_leaf(&sum.children[0].children[1], "b");
    assert_leaf(&sum.children[1], "c");
}

#[test]
fn multiplication_folds_before_addition() {
    let sum = only_expression("a*b+c");
    assert_binary(&sum, TokenType::PLUS);
    assert_binary(&sum.children[0], TokenType::STAR);
    assert_leaf(&sum.children[0].children[0], "a");
    assert_leaf(&sum.children[0].children[1], "b");
    assert_leaf(&sum.children[1], "c");

    let sum = only_expression("a+b*c");
    assert_binary(&sum, TokenType::PLUS);
    assert_leaf(&sum.children[0], "a");
    assert_binary(&sum.children[1], TokenType::STAR);
}

#[test]
fn comparison_folds_after_arithmetic_and_before_equality() {
    let equality = only_expression("a < b + 1 == c");
    assert_binary(&equality, TokenType::EQUAL_EQUAL);
    assert_binary(&equality.children[0], TokenType::LESS);
    assert_binary(&equality.children[0].children[1], TokenType::PLUS);
    assert_leaf(&equality.children[1], "c");
}

#[test]
fn unterminated_parenthesis_waits_for_more_input() {
    let mut tree = ParseTreeUnfinshed::new();
    let mut line = 1;
    let state = parse_from_string("(1 + 2", &mut line, &mut tree, "stdin");
    assert!(matches!(state, ParseState::Unfinished), "{:?}", state);
    let state = parse_from_string(")", &mut line, &mut tree, "stdin");
    assert!(matches!(state, ParseState::Finished), "{:?}", state);
    let root = tree.get_finished_node().unwrap().unwrap();
    assert_eq!(root.get_AST_Type(), AST_Type::Stmt(StmtType::Compound));
    let paren = &root.children[0].children[0];
    assert_eq!(paren.get_AST_Type(), AST_Type::Expr(ExprType::Paren));
    assert_eq!(paren.children.len(), 1);
    // The first chunk ended in a separator, which is part of the region.
    let inner = &paren.children[0];
    assert_eq!(inner.get_AST_Type(), AST_Type::Stmt(StmtType::Compound));
    assert_eq!(inner.children.len(), 1);
    assert_eq!(inner.children[0].get_AST_Type(), AST_Type::Stmt(StmtType::Normal));
    let sum = &inner.children[0].children[0];
    assert_binary(sum, TokenType::PLUS);
    assert_leaf(&sum.children[0], "1");
    assert_leaf(&sum.children[1], "2");
}

#[test]
fn parenthesis_on_one_line_holds_its_expression() {
    let paren = only_expression("(1 + 2)");
    assert_eq!(paren.get_AST_Type(), AST_Type::Expr(ExprType::Paren));
    assert_eq!(paren.children.len(), 1);
    assert_binary(&paren.children[0], TokenType::PLUS);
    assert_leaf(&paren.children[0].children[0], "1");
    assert_leaf(&paren.children[0].children[1], "2");
}

#[test]
fn unterminated_brace_waits_for_more_input() {
    let mut tree = ParseTreeUnfinshed::new();
    let mut line = 1;
    let state = parse_from_string("if true {", &mut line, &mut tree, "stdin");
    assert!(matches!(state, ParseState::Unfinished), "{:?}", state);
    let state = parse_from_string("1", &mut line, &mut tree, "stdin");
    assert!(matches!(state, ParseState::Unfinished), "{:?}", state);
    let state = parse_from_string("}", &mut line, &mut tree, "stdin");
    assert!(matches!(state, ParseState::Finished), "{:?}", state);
    let root = tree.get_finished_node().unwrap().unwrap();
    assert_eq!(root.children[0].get_AST_Type(), AST_Type::Stmt(StmtType::If));
}

#[test]
fn excess_closing_delimiter_is_fatal() {
    for text in ["1 + 2)", "(1))", "}", "{ 1 } }", ") ("] {
        let (state, _) = parse_text(text);
        match state {
            ParseState::Error(e) => {
                assert_eq!(e.get_description(), "Extra right delimiter");
                assert_eq!(e.get_error_type(), ErrorType::UnKnown);
            }
            other => panic!("{}: {:?}", text, other),
        }
    }
}

#[test]
fn excess_closing_delimiter_points_at_the_delimiter() {
    let (state, _) = parse_text("1 + 2)");
    match state {
        ParseState::Error(e) => {
            assert_eq!(e.get_row(), 1);
            assert_eq!(e.get_column(), 6);
        }
        other => panic!("{:?}", other),
    }
}

#[test]
fn excess_opening_delimiter_is_unfinished() {
    for text in ["(", "((1)", "{", "{ { 1 }", "if a { (1) "] {
        let (state, tree) = parse_text(text);
        assert!(matches!(state, ParseState::Unfinished), "{}: {:?}", text, state);
        assert!(tree.len() > 1);
    }
}

#[test]
fn empty_input_is_finished_with_its_sentinel() {
    let (state, tree) = parse_text("");
    assert!(matches!(state, ParseState::Finished));
    assert_eq!(tree.len(), 1);
    let mut empty = ParseTreeUnfinshed::new();
    assert!(matches!(parse(Vec::new(), &mut empty, "stdin"), ParseState::Finished));
    assert_eq!(empty.len(), 0);
    assert!(empty.get_finished_node().unwrap().is_none());
}

#[test]
fn get_finished_node_refuses_an_unfinished_run() {
    let tree = ParseTreeUnfinshed::from_tokens(scan("a b"));
    let e = tree.get_finished_node().unwrap_err();
    assert_eq!(
        e.get_description(),
        "Internal Error: Parse Tree is unfinished when calling get_finished_node"
    );
    assert_eq!(e.get_column(), 3);
    match tree.is_finished() {
        ParseState::Error(e) => {
            assert_eq!(e.get_description(), "Expected the end of the statement");
            assert_eq!(e.get_error_type(), ErrorType::ParseErr);
            assert_eq!(e.get_column(), 3);
        }
        other => panic!("{:?}", other),
    }
    assert!(matches!(ParseTreeUnfinshed::new().is_finished(), ParseState::Finished));
}

#[test]
fn second_node_left_over_is_a_parse_error() {
    let two = vec![
        Token::new(TokenType::NUMBER, "1".to_string(), 1, 1, "stdin"),
        Token::new(TokenType::NUMBER, "2".to_string(), 1, 3, "stdin"),
    ];
    let mut tree = ParseTreeUnfinshed::new();
    match parse(two, &mut tree, "file.lox") {
        ParseState::Error(e) => {
            assert_eq!(e.get_description(), "Expected the end of the statement");
            assert_eq!(e.get_error_type(), ErrorType::ParseErr);
            assert_eq!((e.get_row(), e.get_column()), (1, 3));
        }
        other => panic!("{:?}", other),
    }
    assert!(tree.len() <= 2);
    let (state, _) = parse_text("1 2");
    assert!(matches!(state, ParseState::Error(_)), "{:?}", state);
}

#[test]
fn blank_line_is_finished_with_nothing() {
    let (state, tree) = parse_text("\n");
    assert!(matches!(state, ParseState::Finished), "{:?}", state);
    assert_eq!(tree.len(), 0);
    assert!(tree.get_finished_node().unwrap().is_none());
}

#[test]
fn assignment_folds_name_and_value() {
    let root = finished_root("a = 1 + 2");
    let assignment = &root.children[0];
    assert_eq!(assignment.get_AST_Type(), AST_Type::Stmt(StmtType::Assignment));
    assert_eq!(assignment.get_token_type(), TokenType::EQUAL);
    assert_eq!(assignment.children.len(), 2);
    assert_leaf(&assignment.children[0], "a");
    assert_binary(&assignment.children[1], TokenType::PLUS);
}

#[test]
fn compound_assignments_fold_to_their_own_kinds() {
    for (text, kind) in [
        ("a += 1", StmtType::PlusEqual),
        ("a -= 1", StmtType::MinusEqual),
        ("a *= 1", StmtType::StarEqual),
        ("a /= 1", StmtType::SlashEqual),
    ] {
        let root = finished_root(text);
        assert_eq!(root.children[0].get_AST_Type(), AST_Type::Stmt(kind));
        assert_eq!(root.children[0].children.len(), 2);
    }
}

#[test]
fn assignment_without_value_is_an_error() {
    let (state, _) = parse_text("a = ;");
    match state {
        ParseState::Error(e) => {
            assert_eq!(e.get_description(), "Expected value");
            assert_eq!(e.get_column(), 5);
        }
        other => panic!("{:?}", other),
    }
    let (state, _) = parse_text("1 = 2");
    match state {
        ParseState::Error(e) => assert_eq!(e.get_description(), "Expected identifier"),
        other => panic!("{:?}", other),
    }
    let (state, _) = parse_text("a = 1 2");
    match state {
        ParseState::Error(e) => assert_eq!(e.get_description(), "Expected statement separator"),
        other => panic!("{:?}", other),
    }
}

#[test]
fn declaration_wraps_the_assignment() {
    let root = finished_root("var a = 1");
    let declaration = &root.children[0];
    assert_eq!(declaration.get_AST_Type(), AST_Type::Stmt(StmtType::Declaration));
    assert_eq!(declaration.get_token_type(), TokenType::VAR);
    assert_eq!(declaration.children.len(), 1);
    let assignment = &declaration.children[0];
    assert_eq!(assignment.get_AST_Type(), AST_Type::Stmt(StmtType::Assignment));
    assert_leaf(&assignment.children[0], "a");
    assert_leaf(&assignment.children[1], "1");
}

#[test]
fn unary_minus_folds_only_in_prefix_position() {
    let negated = only_expression("-a");
    assert_eq!(negated.get_AST_Type(), AST_Type::Expr(ExprType::Negated));
    assert_eq!(negated.children.len(), 1);
    assert_leaf(&negated.children[0], "a");

    let difference = only_expression("a - b");
    assert_binary(&difference, TokenType::MINUS);

    let product = only_expression("a * -b");
    assert_binary(&product, TokenType::STAR);
    assert_eq!(product.children[1].get_AST_Type(), AST_Type::Expr(ExprType::Negated));
}

#[test]
fn operator_at_either_end_is_an_error() {
    let (state, _) = parse_text("* 2");
    match state {
        ParseState::Error(e) => assert_eq!(e.get_description(), "Operator found in the beginning"),
        other => panic!("{:?}", other),
    }
    let (state, _) = parse_text("1 + * 2");
    match state {
        ParseState::Error(e) => {
            assert_eq!(e.get_description(), "Expected right operand");
            assert_eq!(e.get_column(), 5);
        }
        other => panic!("{:?}", other),
    }
}

#[test]
fn commas_fold_into_one_tuple() {
    let tuple = only_expression("a, b, c");
    assert_eq!(tuple.get_AST_Type(), AST_Type::Tuple);
    assert_eq!(tuple.children.len(), 3);
    assert_leaf(&tuple.children[0], "a");
    assert_leaf(&tuple.children[1], "b");
    assert_leaf(&tuple.children[2], "c");

    let pair = only_expression("(1 + 2, x)");
    assert_eq!(pair.get_AST_Type(), AST_Type::Expr(ExprType::Paren));
    assert_eq!(pair.children[0].get_AST_Type(), AST_Type::Tuple);
    assert_eq!(pair.children[0].children.len(), 2);
    assert_binary(&pair.children[0].children[0], TokenType::PLUS);
}

#[test]
fn comma_without_neighbour_is_an_error() {
    let (state, _) = parse_text(", a");
    match state {
        ParseState::Error(e) => assert_eq!(e.get_description(), "Expected value before comma"),
        other => panic!("{:?}", other),
    }
    let (state, _) = parse_text("(a, )");
    match state {
        ParseState::Error(e) => assert_eq!(e.get_description(), "Expected value after comma"),
        other => panic!("{:?}", other),
    }
}

#[test]
fn while_folds_condition_and_body() {
    let root = finished_root("while i < 3 { i += 1 }");
    let node = &root.children[0];
    assert_eq!(node.get_AST_Type(), AST_Type::Stmt(StmtType::While));
    assert_eq!(node.children.len(), 2);
    assert_binary(&node.children[0], TokenType::LESS);
    let body = &node.children[1];
    assert_eq!(body.get_AST_Type(), AST_Type::Stmt(StmtType::Braced));
    assert_eq!(body.children.len(), 1);
    assert_eq!(body.children[0].get_AST_Type(), AST_Type::Stmt(StmtType::Compound));
    assert_eq!(
        body.children[0].children[0].get_AST_Type(),
        AST_Type::Stmt(StmtType::PlusEqual)
    );
}

#[test]
fn while_without_body_is_an_error() {
    let (state, _) = parse_text("while (a) b");
    match state {
        ParseState::Error(e) => assert_eq!(e.get_description(), "Expected {stmt} after while"),
        other => panic!("{:?}", other),
    }
    let (state, _) = parse_text("while a { }");
    match state {
        ParseState::Error(e) => {
            assert_eq!(e.get_description(), "Expected expression after while")
        }
        other => panic!("{:?}", other),
    }
}

#[test]
fn if_takes_in_its_else_clauses() {
    let root = finished_root("if a == 1 { 1 } else if b { 2 } else if c { 3 } else { 4 }");
    let node = &root.children[0];
    assert_eq!(node.get_AST_Type(), AST_Type::Stmt(StmtType::If));
    assert_eq!(node.children.len(), 5);
    assert_binary(&node.children[0], TokenType::EQUAL_EQUAL);
    assert_eq!(node.children[1].get_AST_Type(), AST_Type::Stmt(StmtType::Braced));
    for clause in [&node.children[2], &node.children[3]] {
        assert_eq!(clause.get_AST_Type(), AST_Type::Stmt(StmtType::Elseif));
        assert_eq!(clause.get_token_type(), TokenType::IF);
        assert_eq!(clause.children.len(), 2);
        assert_eq!(clause.children[1].get_AST_Type(), AST_Type::Stmt(StmtType::Braced));
    }
    let last = &node.children[4];
    assert_eq!(last.get_AST_Type(), AST_Type::Stmt(StmtType::Else));
    assert_eq!(last.get_token_type(), TokenType::ELSE);
    assert_eq!(last.children.len(), 1);
    assert_eq!(last.children[0].get_AST_Type(), AST_Type::Stmt(StmtType::Braced));
}

#[test]
fn malformed_if_is_an_error() {
    for (text, description) in [
        ("if { 1 }", "Expected rvalues"),
        ("if a 1", "Expected Braced Statment"),
        ("if a { 1 } else 2", "Expected Braced Statment or if after else"),
        ("if a { 1 } else if { 2 }", "Expected rvalues"),
        ("if a { 1 } else if b 2", "Expected Braced Statment"),
    ] {
        let (state, _) = parse_text(text);
        match state {
            ParseState::Error(e) => assert_eq!(e.get_description(), description, "{}", text),
            other => panic!("{}: {:?}", text, other),
        }
    }
}

#[test]
fn statements_gather_in_one_compound_statement() {
    let root = finished_root("var a = 1\na += 2\na");
    assert_eq!(root.get_AST_Type(), AST_Type::Stmt(StmtType::Compound));
    assert_eq!(root.get_token_type(), TokenType::DUMMY);
    assert_eq!(root.children.len(), 3);
    assert_eq!(root.children[0].get_AST_Type(), AST_Type::Stmt(StmtType::Declaration));
    assert_eq!(root.children[1].get_AST_Type(), AST_Type::Stmt(StmtType::PlusEqual));
    assert_eq!(root.children[2].get_AST_Type(), AST_Type::Stmt(StmtType::Normal));
}

#[test]
fn later_chunks_join_the_compound_statement() {
    let mut tree = ParseTreeUnfinshed::new();
    let mut line = 1;
    let state = parse_from_string("var a = 1", &mut line, &mut tree, "stdin");
    assert!(matches!(state, ParseState::Finished));
    let state = parse_from_string("a += 2", &mut line, &mut tree, "stdin");
    assert!(matches!(state, ParseState::Finished));
    let root = tree.get_finished_node().unwrap().unwrap();
    assert_eq!(root.children.len(), 2);
    assert_eq!(line, 1);
}

#[test]
fn empty_parentheses_and_braces_have_no_child() {
    let paren = only_expression("()");
    assert_eq!(paren.get_AST_Type(), AST_Type::Expr(ExprType::Paren));
    assert_eq!(paren.children.len(), 0);
    let root = finished_root("{}");
    assert_eq!(root.children[0].get_AST_Type(), AST_Type::Stmt(StmtType::Braced));
    assert_eq!(root.children[0].children.len(), 0);
    let root = finished_root("{\n}");
    assert_eq!(root.children[0].get_AST_Type(), AST_Type::Stmt(StmtType::Braced));
    assert_eq!(root.children[0].children.len(), 0);
}

#[test]
fn region_that_leaves_several_nodes_is_an_error() {
    let (state, _) = parse_text("(1 2)");
    match state {
        ParseState::Error(e) => {
            assert_eq!(e.get_description(), "Expected the end of the statement");
            assert_eq!(e.get_error_type(), ErrorType::ParseErr);
            assert_eq!(e.get_column(), 4);
        }
        other => panic!("{:?}", other),
    }
}

#[test]
fn region_with_an_open_delimiter_is_an_error() {
    let (state, _) = parse_text("( { 1 )");
    match state {
        ParseState::Error(e) => {
            assert_eq!(e.get_description(), "Incomplete Inner Expr");
            assert_eq!(e.get_column(), 1);
        }
        other => panic!("{:?}", other),
    }
}

#[test]
fn scan_error_comes_out_of_parse_from_string() {
    let mut tree = ParseTreeUnfinshed::new();
    let mut line = 1;
    match parse_from_string("a = #", &mut line, &mut tree, "stdin") {
        ParseState::Error(e) => assert_eq!(e.get_description(), "'#' is an invalid token"),
        other => panic!("{:?}", other),
    }
    assert_eq!(tree.len(), 0);
}

#[test]
fn open_delimiter_is_reported_as_unterminated() {
    let tree = ParseTreeUnfinshed::from_tokens(scan("a ( b"));
    let e = get_delimiter_location(
        AST_Type::Unparsed(TokenType::LEFT_PAREN),
        AST_Type::Unparsed(TokenType::RIGHT_PAREN),
        &tree,
        "stdin",
    )
    .unwrap_err();
    assert_eq!(e.get_error_type(), ErrorType::UnterminatedDelimiter);
    assert_eq!(e.get_description(), "Unpaired left delimiter");
    assert_eq!(e.get_column(), 6);
}

#[test]
fn outermost_pairs_are_found_in_order() {
    let tree = ParseTreeUnfinshed::from_tokens(scan("1 + (1 + 2) + (3 + (2 + 3))"));
    let pairs = get_delimiter_location(
        AST_Type::Unparsed(TokenType::LEFT_PAREN),
        AST_Type::Unparsed(TokenType::RIGHT_PAREN),
        &tree,
        "stdin",
    )
    .unwrap();
    assert_eq!(pairs, vec![(2, 6), (8, 16)]);
    let none = get_delimiter_location(
        AST_Type::Unparsed(TokenType::LEFT_BRACE),
        AST_Type::Unparsed(TokenType::RIGHT_BRACE),
        &tree,
        "stdin",
    )
    .unwrap();
    assert!(none.is_empty());
}

#[test]
fn region_between_parentheses_is_parsed_as_it_stands() {
    let paren = only_expression("(;)");
    assert_eq!(paren.get_AST_Type(), AST_Type::Expr(ExprType::Paren));
    assert_eq!(paren.children.len(), 1);
    assert_eq!(paren.children[0].get_AST_Type(), AST_Type::Unparsed(TokenType::STMT_SEP));

    let paren = only_expression("(a;)");
    assert_eq!(paren.children.len(), 1);
    assert_eq!(paren.children[0].get_AST_Type(), AST_Type::Stmt(StmtType::Compound));

    let (state, _) = parse_text("(1 +\n 2)");
    match state {
        ParseState::Error(e) => assert_eq!(e.get_description(), "Expected right operand"),
        other => panic!("{:?}", other),
    }
}

#[test]
fn string_literal_is_an_operand() {
    let sum = only_expression("\"a\" + b");
    assert_binary(&sum, TokenType::PLUS);
    assert_eq!(sum.children[0].get_AST_Type(), AST_Type::Unparsed(TokenType::STRING));
    assert_leaf(&sum.children[0], "a");
    let root = finished_root("s = \"x\"");
    assert_eq!(
        root.children[0].children[1].get_AST_Type(),
        AST_Type::Unparsed(TokenType::STRING)
    );
    let (state, _) = parse_text("-\"a\"");
    match state {
        ParseState::Error(e) => assert_eq!(e.get_description(), "Expected operand after prefix"),
        other => panic!("{:?}", other),
    }
}

#[test]
fn run_is_never_longer_after_a_parse() {
    for text in ["1 + 2)", "(1 2)", "a = ;", "if a 1", "(a, )", "1 2", "a + b", "{ ( }"] {
        let mut tree = ParseTreeUnfinshed::from_tokens(scan(text));
        let before = tree.len();
        let _ = lox_rust::parser::real_parse(&mut tree, "stdin");
        assert!(tree.len() <= before, "{}", text);
    }
}

#[test]
fn closing_brace_ends_the_last_statement() {
    let root = finished_root("{ a = 1 }");
    let block = &root.children[0];
    assert_eq!(block.get_AST_Type(), AST_Type::Stmt(StmtType::Braced));
    assert_eq!(block.children.len(), 1);
    assert_eq!(block.children[0].get_AST_Type(), AST_Type::Stmt(StmtType::Compound));
    assert_eq!(
        block.children[0].children[0].get_AST_Type(),
        AST_Type::Stmt(StmtType::Assignment)
    );
    let root = finished_root("{ a = 1; b = 2\n}");
    assert_eq!(root.children[0].children[0].children.len(), 2);
}
