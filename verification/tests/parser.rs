use mish::error::ParseError;
use mish::lexer::tokenize;
use mish::node::{Data, Node, ParseTypeBase};
use mish::parser::Parser;
use mish::printer::{ASTContext, ASTPrinter};
use mish::token::{Span, Token, TokenKind};

fn printed(src: &str, tokens: &[Token], nodes: &[Node]) -> String {
    let ctx = ASTContext { tokens, source: src };
    ASTPrinter::new(&ctx).print(nodes)
}

fn messages(p: &Parser) -> Vec<String> {
    (0..p.logger().len()).map(|i| p.logger().get(i).message.clone()).collect()
}

#[test]
fn parse_var_binds_star_tighter_than_add() {
    let src = "let int x = 1 + 2 * 3";
    let toks = tokenize(src);
    let mut p = Parser::new(&toks, src);
    let node = p.parse_item().unwrap();
    assert_eq!(
        printed(src, &toks, &[node]),
        "[0..21] VarDecl: mut x : int\n  [12..21] BinaryOp (Add)\n    [12..13] Integer: 1\n    [16..21] BinaryOp (Star)\n      [16..17] Integer: 2\n      [20..21] Integer: 3\n"
    );
    assert_eq!(p.current(), 9);
    assert_eq!(p.logger().len(), 0);
}

#[test]
fn parse_const_groups_left() {
    let src = "const int y = 1 - 2 - 3";
    let toks = tokenize(src);
    let mut p = Parser::new(&toks, src);
    let node = p.parse_var(false);
    let node = match node {
        Ok(n) => n,
        Err(e) => panic!("{:?}", e),
    };
    assert_eq!(
        printed(src, &toks, &[node]),
        "[0..23] VarDecl: y : int\n  [14..23] BinaryOp (Sub)\n    [14..19] BinaryOp (Sub)\n      [14..15] Integer: 1\n      [18..19] Integer: 2\n    [22..23] Integer: 3\n"
    );
}

#[test]
fn parse_expr_assignment_groups_left() {
    let src = "x = y = 1";
    let toks = tokenize(src);
    let mut p = Parser::new(&toks, src);
    let node = p.parse_expr(0).unwrap();
    assert_eq!(
        printed(src, &toks, &[node]),
        "[0..9] BinaryOp (Assign)\n  [0..5] BinaryOp (Assign)\n    [0..1] Identifier: x\n    [4..5] Identifier: y\n  [8..9] Integer: 1\n"
    );
}

#[test]
fn parse_expr_parentheses() {
    let src = "(1 + 2) * 3";
    let toks = tokenize(src);
    let mut p = Parser::new(&toks, src);
    let node = p.parse_expr(0).unwrap();
    assert_eq!(
        printed(src, &toks, &[node]),
        "[1..11] BinaryOp (Star)\n  [1..7] BinaryOp (Add)\n    [1..2] Integer: 1\n    [5..6] Integer: 2\n  [10..11] Integer: 3\n"
    );
    assert_eq!(p.current(), 7);
}

#[test]
fn parse_expr_stops_at_weaker_operator() {
    let src = "a * b + c";
    let toks = tokenize(src);
    let mut p = Parser::new(&toks, src);
    let node = p.parse_expr(5).unwrap();
    assert_eq!(printed(src, &toks, &[node]), "[0..5] BinaryOp (Star)\n  [0..1] Identifier: a\n  [4..5] Identifier: b\n");
    assert_eq!(p.current(), 3);
}

#[test]
fn parse_expr_literals() {
    let src = "2.5";
    let toks = tokenize(src);
    let mut p = Parser::new(&toks, src);
    let node = p.parse_expr(0).unwrap();
    assert!(matches!(node.data, Data::Integer(0)));
    assert_eq!(printed(src, &toks, &[node]), "[0..3] Integer: 2.5\n");

    let src = "\"hi\"";
    let toks = tokenize(src);
    let mut p = Parser::new(&toks, src);
    let node = p.parse_expr(0).unwrap();
    assert!(matches!(node.data, Data::String(0)));
    assert_eq!(printed(src, &toks, &[node]), "[0..4] String: \"\"hi\"\"\n");
}

#[test]
fn parse_expr_reports_missing_operand() {
    let src = ")";
    let toks = tokenize(src);
    let mut p = Parser::new(&toks, src);
    assert!(matches!(p.parse_expr(0), Err(ParseError::UnexpectedToken)));
    assert_eq!(messages(&p), vec!["expected expression".to_string()]);
    assert_eq!(p.logger().get(0).span, Span { start: 0, end: 1 });
    assert_eq!(p.current(), 1);
}

#[test]
fn parse_expr_reports_missing_close_paren() {
    let src = "(1";
    let toks = tokenize(src);
    let mut p = Parser::new(&toks, src);
    assert!(matches!(p.parse_expr(0), Err(ParseError::UnexpectedToken)));
    assert_eq!(messages(&p), vec!["expected CloseParen".to_string()]);
    assert_eq!(p.logger().get(0).span, Span { start: 0, end: 0 });
    assert_eq!(p.current(), 3);
}

#[test]
fn parse_type_modifiers_and_suffixes() {
    let src = "long unsigned int * [3]";
    let toks = tokenize(src);
    let mut p = Parser::new(&toks, src);
    let ty = p.parse_type().unwrap();
    assert!(ty.long && ty.unsigned);
    match &ty.base {
        ParseTypeBase::Array(inner, size) => {
            assert!(!inner.long && !inner.unsigned);
            match &inner.base {
                ParseTypeBase::Pointer(target) => assert!(matches!(target.base, ParseTypeBase::Int)),
                other => panic!("{:?}", other),
            }
            assert!(matches!(size.data, Data::Integer(5)));
        },
        other => panic!("{:?}", other),
    }
    assert_eq!(p.current(), 7);
    assert_eq!(p.logger().len(), 0);
}

#[test]
fn parse_type_rejects_duplicate_modifiers() {
    let src = "long long int";
    let toks = tokenize(src);
    let mut p = Parser::new(&toks, src);
    assert!(matches!(p.parse_type(), Err(ParseError::UnexpectedTypeDuplicate)));
    assert_eq!(messages(&p), vec!["unexpected duplicate 'long'".to_string()]);
    assert_eq!(p.logger().get(0).span, Span { start: 0, end: 4 });
    assert_eq!(p.current(), 3);

    let src = "unsigned unsigned char";
    let toks = tokenize(src);
    let mut p = Parser::new(&toks, src);
    assert!(matches!(p.parse_type(), Err(ParseError::UnexpectedTypeDuplicate)));
    assert_eq!(messages(&p), vec!["unexpected duplicate 'unsigned'".to_string()]);
}

#[test]
fn parse_var_reports_missing_type_and_name() {
    let src = "let x = 1";
    let toks = tokenize(src);
    let mut p = Parser::new(&toks, src);
    assert!(matches!(p.parse_item(), Err(ParseError::UnexpectedToken)));
    assert_eq!(messages(&p), vec!["expected type statement".to_string()]);
    assert_eq!(p.current(), 2);

    let src = "let int = 1";
    let toks = tokenize(src);
    let mut p = Parser::new(&toks, src);
    assert!(matches!(p.parse_item(), Err(ParseError::UnexpectedToken)));
    assert_eq!(messages(&p), vec!["expected Identifier".to_string()]);
    assert_eq!(p.current(), 3);
}

#[test]
fn parse_fn_with_parameters_and_body() {
    let src = "fn int main(int a char b) { let int x = 1 }";
    let toks = tokenize(src);
    let mut p = Parser::new(&toks, src);
    let node = p.parse_fn().unwrap();
    assert_eq!(
        printed(src, &toks, &[node]),
        "[0..43] FnDecl: main -> int\n  [12..22] Param: a : int\n  [18..25] Param: b : char\n  [28..41] VarDecl: mut x : int\n    [40..41] Integer: 1\n"
    );
    assert_eq!(p.current(), 16);
    assert_eq!(p.logger().len(), 0);
}

#[test]
fn parse_fn_reports_missing_name_and_goes_on() {
    let src = "fn int 5 { }";
    let toks = tokenize(src);
    let mut p = Parser::new(&toks, src);
    let node = p.parse_item().unwrap();
    match &node.data {
        Data::FnDeclaration { name, params, body, .. } => {
            assert_eq!(*name, 2);
            assert!(params.is_none());
            assert!(body.is_empty());
        },
        other => panic!("{:?}", other),
    }
    assert_eq!(node.span, Span { start: 0, end: 12 });
    assert_eq!(messages(&p), vec!["expected Identifier".to_string()]);
    assert_eq!(p.logger().get(0).span, Span { start: 7, end: 8 });
}

#[test]
fn parse_fn_empty_parameter_list() {
    let src = "fn char f() { }";
    let toks = tokenize(src);
    let mut p = Parser::new(&toks, src);
    let node = p.parse_fn().unwrap();
    match &node.data {
        Data::FnDeclaration { params, .. } => assert!(params.is_none()),
        other => panic!("{:?}", other),
    }
}

#[test]
fn parse_stmt_and_item_report_unexpected_tokens() {
    let src = "fn";
    let toks = tokenize(src);
    let mut p = Parser::new(&toks, src);
    assert!(matches!(p.parse_stmt(), Err(ParseError::UnexpectedToken)));
    assert_eq!(messages(&p), vec!["expected statement".to_string()]);
    assert_eq!(p.current(), 0);

    let src = "if";
    let toks = tokenize(src);
    let mut p = Parser::new(&toks, src);
    assert!(matches!(p.parse_item(), Err(ParseError::UnexpectedToken)));
    assert_eq!(messages(&p), vec!["unexpected top-level statement".to_string()]);
    assert_eq!(p.current(), 0);
}

#[test]
fn synchronize_stops_at_recovery_tokens() {
    let src = "x y let z";
    let toks = tokenize(src);
    let mut p = Parser::new(&toks, src);
    p.synchronize();
    assert_eq!(p.current(), 2);
    p.synchronize();
    assert_eq!(p.current(), 2);

    let src = "x y";
    let toks = tokenize(src);
    let mut p = Parser::new(&toks, src);
    p.synchronize();
    assert_eq!(p.current(), 2);
}

#[test]
fn get_importance_of_operators() {
    let toks = tokenize("");
    let p = Parser::new(&toks, "");
    assert_eq!(p.get_importance(&TokenKind::Assign), 1);
    assert_eq!(p.get_importance(&TokenKind::DivAssign), 1);
    assert_eq!(p.get_importance(&TokenKind::Equal), 4);
    assert_eq!(p.get_importance(&TokenKind::LesserEqual), 4);
    assert_eq!(p.get_importance(&TokenKind::Add), 5);
    assert_eq!(p.get_importance(&TokenKind::Sub), 5);
    assert_eq!(p.get_importance(&TokenKind::Star), 6);
    assert_eq!(p.get_importance(&TokenKind::Div), 6);
    assert_eq!(p.get_importance(&TokenKind::Increment), 0);
    assert_eq!(p.get_importance(&TokenKind::Identifier), 0);
}

#[test]
fn run_reports_and_recovers() {
    let src = "let int x =";
    let toks = tokenize(src);
    let mut p = Parser::new(&toks, src);
    let nodes = p.run().unwrap();
    assert!(nodes.is_empty());
    assert_eq!(messages(&p), vec!["expected expression".to_string()]);
    assert_eq!(p.current(), 5);

    let src = "const int a = 1 let";
    let toks = tokenize(src);
    let mut p = Parser::new(&toks, src);
    let nodes = p.run().unwrap();
    assert_eq!(printed(src, &toks, &nodes), "[0..15] VarDecl: a : int\n  [14..15] Integer: 1\n");
    assert_eq!(messages(&p), vec!["expected type statement".to_string()]);
    assert_eq!(p.current(), 7);
}

#[test]
fn run_without_end_token() {
    let src = "let int x = 5";
    let mut toks = tokenize(src);
    toks.pop();
    let mut p = Parser::new(&toks, src);
    let nodes = p.run().unwrap();
    assert_eq!(printed(src, &toks, &nodes), "[0..13] VarDecl: mut x : int\n  [12..13] Integer: 5\n");
    assert_eq!(p.logger().len(), 0);

    let empty: Vec<Token> = Vec::new();
    let mut p = Parser::new(&empty, "");
    assert!(p.run().unwrap().is_empty());
}

#[test]
fn run_checked_detects_a_stuck_parser() {
    // After the declaration the parser sits on EOF: the item fails there and
    // recovery does not move, so `run` would repeat that forever.
    let src = "let int x = 5";
    let toks = tokenize(src);
    let mut p = Parser::new(&toks, src);
    assert!(p.run_checked().is_none());

    let src = "let int x =";
    let toks = tokenize(src);
    let mut p = Parser::new(&toks, src);
    let nodes = p.run_checked().unwrap().unwrap();
    assert!(nodes.is_empty());
    assert_eq!(messages(&p), vec!["expected expression".to_string()]);
}

#[test]
fn errors_accumulate_in_order() {
    let src = "x let y";
    let toks = tokenize(src);
    let mut p = Parser::new(&toks, src);
    assert!(p.parse_item().is_err());
    p.synchronize();
    assert_eq!(p.current(), 1);
    assert!(p.parse_item().is_err());
    assert_eq!(
        messages(&p),
        vec!["unexpected top-level statement".to_string(), "expected type statement".to_string()]
    );
    assert_eq!(p.logger().dump(), vec![
        "error: unexpected top-level statement".to_string(),
        "error: expected type statement".to_string()
    ]);
}

#[test]
fn parse_expr_stops_before_equal_strength_operator() {
    let src = "a + b - c";
    let toks = tokenize(src);
    let mut p = Parser::new(&toks, src);
    let node = p.parse_expr(5).unwrap();
    assert!(matches!(node.data, Data::Identifier(0)));
    assert_eq!(p.current(), 1);
}

#[test]
fn parse_type_takes_every_suffix() {
    let src = "char * * x";
    let toks = tokenize(src);
    let mut p = Parser::new(&toks, src);
    let ty = p.parse_type().unwrap();
    match &ty.base {
        ParseTypeBase::Pointer(inner) => assert!(matches!(inner.base, ParseTypeBase::Pointer(_))),
        other => panic!("{:?}", other),
    }
    assert_eq!(p.current(), 3);
}

#[test]
fn parser_steps_only_move_forward() {
    let src = "let int = 1 ; fn int f { const int x = 2 } let int y = (3";
    let toks = tokenize(src);
    let mut p = Parser::new(&toks, src);
    let mut seen: Vec<String> = messages(&p);
    let mut at = p.current();
    assert_eq!(at, 0);
    for step in 0..8 {
        match step % 4 {
            0 => {
                let _ = p.parse_item();
            }
            1 => p.synchronize(),
            2 => {
                let _ = p.parse_expr(0);
            }
            _ => {
                let _ = p.parse_type();
            }
        }
        assert!(p.current() >= at);
        assert!(p.current() <= toks.len());
        let now = messages(&p);
        assert!(now.len() >= seen.len());
        assert_eq!(now[..seen.len()], seen[..]);
            seen = now;
        at = p.current();
    }
}
