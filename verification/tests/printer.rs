use mish::lexer::tokenize;
use mish::node::{Data, Node, ParseType, ParseTypeBase};
use mish::printer::{ASTContext, ASTPrinter};
use mish::token::{Span, Token, TokenKind};

fn span(start: usize, end: usize) -> Span {
    Span { start, end }
}

fn leaf(data: Data, s: Span) -> Node {
    Node { data, span: s }
}

fn plain(base: ParseTypeBase) -> ParseType {
    ParseType { base, unsigned: false, long: false }
}

fn print(src: &str, tokens: &[Token], nodes: &[Node]) -> String {
    let ctx = ASTContext { tokens, source: src };
    ASTPrinter::new(&ctx).print(nodes)
}

#[test]
fn print_concatenates_nodes() {
    let src = "a b";
    let toks = tokenize(src);
    let a = || leaf(Data::Identifier(0), span(0, 1));
    let b = || leaf(Data::Identifier(1), span(2, 3));
    let both = print(src, &toks, &[a(), b()]);
    assert_eq!(both, "[0..1] Identifier: a\n[2..3] Identifier: b\n");
    assert_eq!(both, print(src, &toks, &[a()]) + &print(src, &toks, &[b()]));
    assert_eq!(print(src, &toks, &[]), "");
}

#[test]
fn print_placeholders_for_bad_tokens() {
    let src = "a";
    let toks = tokenize(src);
    assert_eq!(print(src, &toks, &[leaf(Data::Identifier(7), span(0, 1))]), "[0..1] Identifier: <invalid_index>\n");
    let bad = vec![Token { kind: TokenKind::Identifier, span: span(3, 9) }];
    assert_eq!(print(src, &bad, &[leaf(Data::Float(0), span(0, 1))]), "[0..1] Float: <invalid_span>\n");
    let backwards = vec![Token { kind: TokenKind::Identifier, span: span(1, 0) }];
    assert_eq!(print(src, &backwards, &[leaf(Data::Integer(0), span(0, 1))]), "[0..1] Integer: <invalid_span>\n");
}

#[test]
fn print_respects_character_boundaries() {
    let src = "\u{e9}";
    let half = vec![Token { kind: TokenKind::Identifier, span: span(0, 1) }];
    assert_eq!(print(src, &half, &[leaf(Data::Identifier(0), span(0, 1))]), "[0..1] Identifier: <invalid_span>\n");
    let whole = vec![Token { kind: TokenKind::Identifier, span: span(0, 2) }];
    assert_eq!(print(src, &whole, &[leaf(Data::Identifier(0), span(0, 2))]), "[0..2] Identifier: \u{e9}\n");
}

#[test]
fn print_array_size_is_trimmed() {
    let src = "x  ";
    let toks = vec![Token { kind: TokenKind::Identifier, span: span(0, 3) }];
    let size = leaf(Data::Identifier(0), span(0, 1));
    let ty = plain(ParseTypeBase::Array(Box::new(plain(ParseTypeBase::Int)), size));
    let node = Node {
        data: Data::VarDeclaration {
            name: 0,
            mutable: false,
            ty: Box::new(ty),
            value: Box::new(leaf(Data::Integer(0), span(0, 1))),
        },
        span: span(0, 3),
    };
    assert_eq!(print(src, &toks, &[node]), "[0..3] VarDecl: x   : [int; [0..1] Identifier: x]\n  [0..1] Integer: x  \n");
}

#[test]
fn print_every_type_form() {
    let src = "p";
    let toks = tokenize(src);
    let param = |ty: ParseType| Node { data: Data::FnParameter { ty: Box::new(ty), name: 0 }, span: span(0, 1) };
    let function = ParseType {
        base: ParseTypeBase::Function {
            params: vec![plain(ParseTypeBase::Int), plain(ParseTypeBase::Pointer(Box::new(plain(ParseTypeBase::Char))))],
            return_type: Box::new(plain(ParseTypeBase::Void)),
            variadic: true,
        },
        unsigned: false,
        long: false,
    };
    let nodes = vec![
        param(function),
        param(ParseType { base: ParseTypeBase::Byte, unsigned: true, long: true }),
        param(plain(ParseTypeBase::Short)),
        param(plain(ParseTypeBase::Float)),
        param(plain(ParseTypeBase::Struct(span(1, 2)))),
        param(plain(ParseTypeBase::Union(span(30, 4)))),
        param(plain(ParseTypeBase::Enum(span(0, 0)))),
        param(plain(ParseTypeBase::Alias(span(1234567, 89)))),
        param(plain(ParseTypeBase::Function { params: vec![], return_type: Box::new(plain(ParseTypeBase::Int)), variadic: false })),
    ];
    assert_eq!(
        print(src, &toks, &nodes),
        "[0..1] Param: p : fn(int, *char), ... -> void\n\
         [0..1] Param: p : unsigned long byte\n\
         [0..1] Param: p : short\n\
         [0..1] Param: p : float\n\
         [0..1] Param: p : struct<span: 1..2>\n\
         [0..1] Param: p : union<span: 30..4>\n\
         [0..1] Param: p : enum<span: 0..0>\n\
         [0..1] Param: p : alias<span: 1234567..89>\n\
         [0..1] Param: p : fn() -> int\n"
    );
}

#[test]
fn print_unary_and_nested_function() {
    let src = "f x";
    let toks = tokenize(src);
    let unary = Node {
        data: Data::UnaryOp { op: TokenKind::Sub, target: Box::new(leaf(Data::Identifier(1), span(2, 3))) },
        span: span(0, 3),
    };
    let function = Node {
        data: Data::FnDeclaration {
            name: 0,
            params: Some(vec![Node { data: Data::FnParameter { ty: Box::new(plain(ParseTypeBase::Int)), name: 1 }, span: span(2, 3) }]),
            return_type: Box::new(plain(ParseTypeBase::Void)),
            body: vec![unary],
        },
        span: span(0, 3),
    };
    assert_eq!(
        print(src, &toks, &[function]),
        "[0..3] FnDecl: f -> void\n  [2..3] Param: x : int\n  [0..3] UnaryOp (Sub)\n    [2..3] Identifier: x\n"
    );
}

#[test]
fn lexed_tokens_print_their_own_text() {
    let src = "let char s = \"\u{e9}t\u{e9}\"";
    let toks = tokenize(src);
    let nodes: Vec<Node> = (0..toks.len() - 1)
        .map(|i| leaf(Data::Identifier(i), toks[i].span))
        .collect();
    let expected: String = toks[..toks.len() - 1]
        .iter()
        .map(|t| format!("[{}..{}] Identifier: {}\n", t.span.start, t.span.end, &src[t.span.start..t.span.end]))
        .collect();
    assert_eq!(print(src, &toks, &nodes), expected);
    assert!(expected.ends_with("Identifier: \"\u{e9}t\u{e9}\"\n"));
}

#[test]
fn type_modifiers_come_before_the_base() {
    let src = "p";
    let toks = tokenize(src);
    let param = |unsigned: bool, long: bool| Node {
        data: Data::FnParameter {
            ty: Box::new(ParseType { base: ParseTypeBase::Union(span(3, 4)), unsigned, long }),
            name: 0,
        },
        span: span(0, 1),
    };
    let line = |unsigned: bool, long: bool| {
        let text = print(src, &toks, &[param(unsigned, long)]);
        text["[0..1] Param: p : ".len()..text.len() - 1].to_string()
    };
    assert_eq!(line(false, false), "union<span: 3..4>");
    assert_eq!(line(false, true), "long union<span: 3..4>");
    assert_eq!(line(true, false), "unsigned union<span: 3..4>");
    assert_eq!(line(true, true), "unsigned long union<span: 3..4>");
    for (unsigned, long) in [(false, false), (false, true), (true, false), (true, true)] {
        assert_eq!(line(unsigned, long).starts_with("unsigned "), unsigned);
        assert!(line(unsigned, long).ends_with(&line(false, false)));
    }
}
