use mish::lexer::tokenize;
use mish::token::TokenKind;

fn kinds(src: &str) -> Vec<TokenKind> {
    tokenize(src).iter().map(|t| t.kind).collect()
}

fn spans(src: &str) -> Vec<(usize, usize)> {
    tokenize(src).iter().map(|t| (t.span.start, t.span.end)).collect()
}

#[test]
fn tokenize_declaration() {
    let src = "let int x = 5;";
    assert_eq!(kinds(src), vec![TokenKind::KwLet, TokenKind::KwInt, TokenKind::Identifier, TokenKind::Assign, TokenKind::IntegerLiteral, TokenKind::Semicolon, TokenKind::EOF]);
    assert_eq!(spans(src), vec![(0, 3), (4, 7), (8, 9), (10, 11), (12, 13), (13, 14), (0, 0)]);
}

#[test]
fn tokenize_takes_longest_match() {
    let src = "a >= -1.5 <= b";
    assert_eq!(kinds(src), vec![TokenKind::Identifier, TokenKind::GreaterEqual, TokenKind::FloatLiteral, TokenKind::LesserEqual, TokenKind::Identifier, TokenKind::EOF]);
    assert_eq!(spans(src), vec![(0, 1), (2, 4), (5, 9), (10, 12), (13, 14), (0, 0)]);
}

#[test]
fn tokenize_decrement_before_sub() {
    assert_eq!(kinds("x--1"), vec![TokenKind::Identifier, TokenKind::Decrement, TokenKind::IntegerLiteral, TokenKind::EOF]);
    assert_eq!(spans("x--1"), vec![(0, 1), (1, 3), (3, 4), (0, 0)]);
    assert_eq!(kinds("x -1.5"), vec![TokenKind::Identifier, TokenKind::FloatLiteral, TokenKind::EOF]);
}

#[test]
fn tokenize_falls_back_to_shorter_match() {
    // `-1.` is no float: the longest match at 0 is `-`, then `1`; `.` matches nothing.
    assert_eq!(kinds("-1."), vec![TokenKind::Sub, TokenKind::IntegerLiteral, TokenKind::EOF]);
    assert_eq!(spans("-1."), vec![(0, 1), (1, 2), (0, 0)]);
    assert_eq!(kinds("1.x"), vec![TokenKind::IntegerLiteral, TokenKind::EOF]);
    assert_eq!(kinds("1.5.2"), vec![TokenKind::FloatLiteral, TokenKind::EOF]);
    assert_eq!(spans("1.5.2"), vec![(0, 3), (0, 0)]);
}

#[test]
fn tokenize_strings() {
    assert_eq!(kinds("\"hi there\" x"), vec![TokenKind::StringLiteral, TokenKind::Identifier, TokenKind::EOF]);
    assert_eq!(spans("\"hi there\" x"), vec![(0, 10), (11, 12), (0, 0)]);
    // a string may not hold `.`, `\` or a second `"`
    assert_eq!(kinds("\"a.b\" x"), vec![TokenKind::EOF]);
    assert_eq!(kinds("\"a\\b\""), vec![TokenKind::EOF]);
    assert_eq!(kinds("\"unclosed"), vec![TokenKind::EOF]);
    // other characters, in UTF-8, are fine
    assert_eq!(spans("\"\u{e9}\""), vec![(0, 4), (0, 0)]);
}

#[test]
fn tokenize_keywords_and_identifiers() {
    let src = "int integer typealias _x1 #define #sizeof";
    assert_eq!(kinds(src), vec![TokenKind::KwInt, TokenKind::Identifier, TokenKind::KwAlias, TokenKind::Identifier, TokenKind::CompKwDefine, TokenKind::CompKwSizeof, TokenKind::EOF]);
    assert_eq!(spans(src), vec![(0, 3), (4, 11), (12, 21), (22, 25), (26, 33), (34, 41), (0, 0)]);
}

#[test]
fn tokenize_all_operators() {
    let src = "== != > >= < <= = + += ++ - -= -- * *= / /= ; ( ) [ ] { }";
    assert_eq!(
        kinds(src),
        vec![
            TokenKind::Equal, TokenKind::NotEqual, TokenKind::Greater, TokenKind::GreaterEqual, TokenKind::Lesser, TokenKind::LesserEqual, TokenKind::Assign, TokenKind::Add, TokenKind::AddAssign,
            TokenKind::Increment, TokenKind::Sub, TokenKind::SubAssign, TokenKind::Decrement, TokenKind::Star, TokenKind::MulAssign, TokenKind::Div, TokenKind::DivAssign, TokenKind::Semicolon,
            TokenKind::OpenParen, TokenKind::CloseParen, TokenKind::OpenBracket, TokenKind::CloseBracket, TokenKind::OpenBody, TokenKind::CloseBody, TokenKind::EOF
        ]
    );
}

#[test]
fn tokenize_all_keywords() {
    let src = "void unsigned byte short int long char float let const fn if else rtn class struct typealias enum union";
    assert_eq!(
        kinds(src),
        vec![
            TokenKind::KwVoid, TokenKind::KwUnsigned, TokenKind::KwByte, TokenKind::KwShort, TokenKind::KwInt, TokenKind::KwLong, TokenKind::KwChar, TokenKind::KwFloat, TokenKind::KwLet, TokenKind::KwConst,
            TokenKind::KwFn, TokenKind::KwIf, TokenKind::KwElse, TokenKind::KwRtn, TokenKind::KwClass, TokenKind::KwStruct, TokenKind::KwAlias, TokenKind::KwEnum, TokenKind::KwUnion, TokenKind::EOF
        ]
    );
}

#[test]
fn tokenize_stops_at_unknown_text() {
    assert_eq!(kinds("a # b"), vec![TokenKind::Identifier, TokenKind::EOF]);
    assert_eq!(kinds("a , b"), vec![TokenKind::Identifier, TokenKind::EOF]);
    assert_eq!(kinds("\u{e9}"), vec![TokenKind::EOF]);
}

#[test]
fn tokenize_empty_and_blank() {
    assert_eq!(kinds(""), vec![TokenKind::EOF]);
    assert_eq!(kinds("  \n\t\r "), vec![TokenKind::EOF]);
}

#[test]
fn tokenize_spans_are_ordered_and_separated_by_white_space() {
    let src = "fn int main ( ) {\n\tlet char c = 'x' }";
    let toks = tokenize(src);
    let bytes = src.as_bytes();
    let body = &toks[..toks.len() - 1];
    let mut prev = 0;
    for t in body {
        assert!(prev <= t.span.start && t.span.start < t.span.end && t.span.end <= src.len());
        assert!(bytes[prev..t.span.start].iter().all(|b| b" \t\n\r".contains(b)));
        prev = t.span.end;
    }
    assert_eq!(toks[toks.len() - 1].kind, TokenKind::EOF);
}
