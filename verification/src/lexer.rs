//! The token grammar: which bytes each kind of token matches, and the
//! tokenizer, which skips white space and takes the longest match at each
//! position, a fixed-string token winning over an identifier of equal length.
use vstd::prelude::*;
use vstd::string::*;
use crate::token::{Span, Token, TokenKind};

verus! {

/// Space, tab, line feed, carriage return: skipped between tokens.
pub open spec fn is_ws(b: u8) -> bool {
    b == 32 || b == 9 || b == 10 || b == 13
}

pub open spec fn is_digit(b: u8) -> bool {
    48 <= b <= 57
}

/// `[a-zA-Z_]`
pub open spec fn is_ident_start(b: u8) -> bool {
    (65 <= b <= 90) || (97 <= b <= 122) || b == 95
}

/// `[a-zA-Z0-9_]`
pub open spec fn is_ident_char(b: u8) -> bool {
    is_ident_start(b) || is_digit(b)
}

/// A byte a string literal may hold: anything but `"`, `\` and `.`.
pub open spec fn is_string_char(b: u8) -> bool {
    b != 34 && b != 92 && b != 46
}

/// `-?[0-9]+\.[0-9]+` matches `s[i..i + n]`, with its `.` at `dot`.
pub open spec fn float_shape(s: Seq<u8>, i: int, dot: int, n: int) -> bool {
    let a = if s[i] == 45 { i + 1 } else { i };
    &&& a < dot
    &&& dot + 1 < i + n
    &&& s[dot] == 46
    &&& forall|t: int| a <= t < dot ==> is_digit(#[trigger] s[t])
    &&& forall|t: int| dot < t < i + n ==> is_digit(#[trigger] s[t])
}

/// Kind `k` matches exactly the `n` bytes of `s` from `i`.
pub open spec fn pattern_match(k: TokenKind, s: Seq<u8>, i: int, n: int) -> bool {
    &&& 0 <= i
    &&& 0 < n
    &&& i + n <= s.len()
    &&& match k {
        TokenKind::Identifier => is_ident_start(s[i]) && forall|t: int| i < t < i + n ==> is_ident_char(#[trigger] s[t]),
        TokenKind::IntegerLiteral => forall|t: int| i <= t < i + n ==> is_digit(#[trigger] s[t]),
        TokenKind::FloatLiteral => exists|dot: int| float_shape(s, i, dot, n),
        TokenKind::StringLiteral => {
            &&& n >= 2
            &&& s[i] == 34
            &&& s[i + n - 1] == 34
            &&& forall|t: int| i < t < i + n - 1 ==> is_string_char(#[trigger] s[t])
        },
        TokenKind::EOF => false,
        _ => match k.literal() {
            Some(l) => n == l.len() && s.subrange(i, i + n) == l,
            None => false,
        },
    }
}

/// Which of two matches of equal length wins: a fixed string of `n` bytes
/// weighs `2 * n`, the others by their pattern.
pub open spec fn priority(k: TokenKind) -> nat {
    match k {
        TokenKind::Equal => 4,
        TokenKind::NotEqual => 4,
        TokenKind::Greater => 2,
        TokenKind::GreaterEqual => 4,
        TokenKind::Lesser => 2,
        TokenKind::LesserEqual => 4,
        TokenKind::Assign => 2,
        TokenKind::Add => 2,
        TokenKind::AddAssign => 4,
        TokenKind::Increment => 4,
        TokenKind::Sub => 2,
        TokenKind::SubAssign => 4,
        TokenKind::Decrement => 4,
        TokenKind::Star => 2,
        TokenKind::MulAssign => 4,
        TokenKind::Div => 2,
        TokenKind::DivAssign => 4,
        TokenKind::Semicolon => 2,
        TokenKind::OpenParen => 2,
        TokenKind::CloseParen => 2,
        TokenKind::OpenBracket => 2,
        TokenKind::CloseBracket => 2,
        TokenKind::OpenBody => 2,
        TokenKind::CloseBody => 2,
        TokenKind::KwVoid => 8,
        TokenKind::KwUnsigned => 16,
        TokenKind::KwByte => 8,
        TokenKind::KwShort => 10,
        TokenKind::KwInt => 6,
        TokenKind::KwLong => 8,
        TokenKind::KwChar => 8,
        TokenKind::KwFloat => 10,
        TokenKind::KwLet => 6,
        TokenKind::KwConst => 10,
        TokenKind::KwFn => 4,
        TokenKind::KwIf => 4,
        TokenKind::KwElse => 8,
        TokenKind::KwRtn => 6,
        TokenKind::KwClass => 10,
        TokenKind::KwStruct => 12,
        TokenKind::KwAlias => 18,
        TokenKind::KwEnum => 8,
        TokenKind::KwUnion => 10,
        TokenKind::CompKwDefine => 14,
        TokenKind::CompKwSizeof => 14,
        TokenKind::Identifier => 2,
        TokenKind::IntegerLiteral => 2,
        TokenKind::FloatLiteral => 6,
        TokenKind::StringLiteral => 4,
        TokenKind::EOF => 0,
    }
}

/// `k` matching `n` bytes from `i` is the token taken there: no kind matches
/// more bytes, and none matches as many with a higher priority.
pub open spec fn is_best(s: Seq<u8>, i: int, k: TokenKind, n: int) -> bool {
    &&& pattern_match(k, s, i, n)
    &&& forall|k2: TokenKind, n2: int| #[trigger] pattern_match(k2, s, i, n2)
        ==> n2 < n || (n2 == n && priority(k2) <= priority(k))
}

/// The first position at or after `i` that is not white space.
pub open spec fn skip_ws(s: Seq<u8>, i: int) -> int
    decreases s.len() - i,
{
    if 0 <= i < s.len() && is_ws(s[i]) {
        skip_ws(s, i + 1)
    } else {
        i
    }
}

/// The tokens of `s` from `i`: after white space, the best match, and so on,
/// up to the end of the input or the first position where no kind matches.
pub open spec fn lex_from(s: Seq<u8>, i: int) -> Seq<Token>
    decreases s.len() - i,
{
    let j = skip_ws(s, i);
    if j >= s.len() || !(exists|k: TokenKind, n: int| is_best(s, j, k, n)) {
        seq![]
    } else {
        let (k, n) = choose|k: TokenKind, n: int| is_best(s, j, k, n);
        if i <= j && 0 < n {
            seq![Token { kind: k, span: Span { start: j as usize, end: (j + n) as usize } }] + lex_from(s, j + n)
        } else {
            seq![]
        }
    }
}

/// The token list of a source text: its tokens, then `EOF` with an empty span
/// at 0.
pub open spec fn tokens_of(s: Seq<u8>) -> Seq<Token> {
    lex_from(s, 0).push(Token { kind: TokenKind::EOF, span: Span { start: 0, end: 0 } })
}

/// A number that tells the fixed-string kinds apart: the length of the
/// string and its first two bytes.
spec fn literal_key(k: TokenKind) -> int {
    match k {
        TokenKind::Equal => 146749,
        TokenKind::NotEqual => 139581,
        TokenKind::Greater => 81408,
        TokenKind::GreaterEqual => 147005,
        TokenKind::Lesser => 80896,
        TokenKind::LesserEqual => 146493,
        TokenKind::Assign => 81152,
        TokenKind::Add => 76544,
        TokenKind::AddAssign => 142141,
        TokenKind::Increment => 142123,
        TokenKind::Sub => 77056,
        TokenKind::SubAssign => 142653,
        TokenKind::Decrement => 142637,
        TokenKind::Star => 76288,
        TokenKind::MulAssign => 141885,
        TokenKind::Div => 77568,
        TokenKind::DivAssign => 143165,
        TokenKind::Semicolon => 80640,
        TokenKind::OpenParen => 75776,
        TokenKind::CloseParen => 76032,
        TokenKind::OpenBracket => 88832,
        TokenKind::CloseBracket => 89344,
        TokenKind::OpenBody => 97024,
        TokenKind::CloseBody => 97536,
        TokenKind::KwVoid => 292463,
        TokenKind::KwUnsigned => 554350,
        TokenKind::KwByte => 287353,
        TokenKind::KwShort => 357224,
        TokenKind::KwInt => 223598,
        TokenKind::KwLong => 289903,
        TokenKind::KwChar => 287592,
        TokenKind::KwFloat => 353900,
        TokenKind::KwLet => 224357,
        TokenKind::KwConst => 353135,
        TokenKind::KwFn => 157294,
        TokenKind::KwIf => 158054,
        TokenKind::KwElse => 288108,
        TokenKind::KwRtn => 225908,
        TokenKind::KwClass => 353132,
        TokenKind::KwStruct => 422772,
        TokenKind::KwAlias => 619641,
        TokenKind::KwEnum => 288110,
        TokenKind::KwUnion => 357742,
        TokenKind::CompKwDefine => 467812,
        TokenKind::CompKwSizeof => 467827,
        _ => 0,
    }
}

spec fn key_kind(key: int) -> Option<TokenKind> {
    if key == 146749 {
        Some(TokenKind::Equal)
    } else if key == 139581 {
        Some(TokenKind::NotEqual)
    } else if key == 81408 {
        Some(TokenKind::Greater)
    } else if key == 147005 {
        Some(TokenKind::GreaterEqual)
    } else if key == 80896 {
        Some(TokenKind::Lesser)
    } else if key == 146493 {
        Some(TokenKind::LesserEqual)
    } else if key == 81152 {
        Some(TokenKind::Assign)
    } else if key == 76544 {
        Some(TokenKind::Add)
    } else if key == 142141 {
        Some(TokenKind::AddAssign)
    } else if key == 142123 {
        Some(TokenKind::Increment)
    } else if key == 77056 {
        Some(TokenKind::Sub)
    } else if key == 142653 {
        Some(TokenKind::SubAssign)
    } else if key == 142637 {
        Some(TokenKind::Decrement)
    } else if key == 76288 {
        Some(TokenKind::Star)
    } else if key == 141885 {
        Some(TokenKind::MulAssign)
    } else if key == 77568 {
        Some(TokenKind::Div)
    } else if key == 143165 {
        Some(TokenKind::DivAssign)
    } else if key == 80640 {
        Some(TokenKind::Semicolon)
    } else if key == 75776 {
        Some(TokenKind::OpenParen)
    } else if key == 76032 {
        Some(TokenKind::CloseParen)
    } else if key == 88832 {
        Some(TokenKind::OpenBracket)
    } else if key == 89344 {
        Some(TokenKind::CloseBracket)
    } else if key == 97024 {
        Some(TokenKind::OpenBody)
    } else if key == 97536 {
        Some(TokenKind::CloseBody)
    } else if key == 292463 {
        Some(TokenKind::KwVoid)
    } else if key == 554350 {
        Some(TokenKind::KwUnsigned)
    } else if key == 287353 {
        Some(TokenKind::KwByte)
    } else if key == 357224 {
        Some(TokenKind::KwShort)
    } else if key == 223598 {
        Some(TokenKind::KwInt)
    } else if key == 289903 {
        Some(TokenKind::KwLong)
    } else if key == 287592 {
        Some(TokenKind::KwChar)
    } else if key == 353900 {
        Some(TokenKind::KwFloat)
    } else if key == 224357 {
        Some(TokenKind::KwLet)
    } else if key == 353135 {
        Some(TokenKind::KwConst)
    } else if key == 157294 {
        Some(TokenKind::KwFn)
    } else if key == 158054 {
        Some(TokenKind::KwIf)
    } else if key == 288108 {
        Some(TokenKind::KwElse)
    } else if key == 225908 {
        Some(TokenKind::KwRtn)
    } else if key == 353132 {
        Some(TokenKind::KwClass)
    } else if key == 422772 {
        Some(TokenKind::KwStruct)
    } else if key == 619641 {
        Some(TokenKind::KwAlias)
    } else if key == 288110 {
        Some(TokenKind::KwEnum)
    } else if key == 357742 {
        Some(TokenKind::KwUnion)
    } else if key == 467812 {
        Some(TokenKind::CompKwDefine)
    } else if key == 467827 {
        Some(TokenKind::CompKwSizeof)
    } else {
        None
    }
}

proof fn lemma_literal_key(k: TokenKind)
    ensures
        k.literal() matches Some(l) ==> {
            &&& key_kind(literal_key(k)) == Some(k)
            &&& literal_key(k) == l.len() * 65536 + l[0] * 256 + (if l.len() > 1 { l[1] as int } else { 0 })
        },
{
}

/// Two fixed-string kinds with the same string are the same kind.
proof fn lemma_literal_injective(k1: TokenKind, k2: TokenKind)
    requires
        k1.literal() is Some,
        k1.literal() == k2.literal(),
    ensures
        k1 == k2,
{
    lemma_literal_key(k1);
    lemma_literal_key(k2);
}

/// Two kinds that match the same bytes with the same priority are the same
/// kind.
pub proof fn lemma_match_unique(s: Seq<u8>, i: int, n: int, k1: TokenKind, k2: TokenKind)
    requires
        pattern_match(k1, s, i, n),
        pattern_match(k2, s, i, n),
        priority(k1) == priority(k2),
    ensures
        k1 == k2,
{
    if k1.literal() is Some && k2.literal() is Some {
        lemma_literal_injective(k1, k2);
    } else {
        if k1 == TokenKind::FloatLiteral || k2 == TokenKind::FloatLiteral {
            assert(n >= 3);
        }
        if k1.literal() is Some {
            assert(s[i] == k1.literal().unwrap()[0]);
        }
        if k2.literal() is Some {
            assert(s[i] == k2.literal().unwrap()[0]);
        }
    }
}

/// The token taken at a position is unique.
pub proof fn lemma_best_unique(s: Seq<u8>, i: int, k1: TokenKind, n1: int, k2: TokenKind, n2: int)
    requires
        is_best(s, i, k1, n1),
        is_best(s, i, k2, n2),
    ensures
        k1 == k2,
        n1 == n2,
{
    assert(pattern_match(k2, s, i, n2));
    assert(pattern_match(k1, s, i, n1));
    lemma_match_unique(s, i, n1, k1, k2);
}

/// The kinds a match is looked for, each once: every kind but `EOF`.
spec fn kind_at(i: int) -> TokenKind {
    if i == 0 {
        TokenKind::Equal
    } else if i == 1 {
        TokenKind::NotEqual
    } else if i == 2 {
        TokenKind::Greater
    } else if i == 3 {
        TokenKind::GreaterEqual
    } else if i == 4 {
        TokenKind::Lesser
    } else if i == 5 {
        TokenKind::LesserEqual
    } else if i == 6 {
        TokenKind::Assign
    } else if i == 7 {
        TokenKind::Add
    } else if i == 8 {
        TokenKind::AddAssign
    } else if i == 9 {
        TokenKind::Increment
    } else if i == 10 {
        TokenKind::Sub
    } else if i == 11 {
        TokenKind::SubAssign
    } else if i == 12 {
        TokenKind::Decrement
    } else if i == 13 {
        TokenKind::Star
    } else if i == 14 {
        TokenKind::MulAssign
    } else if i == 15 {
        TokenKind::Div
    } else if i == 16 {
        TokenKind::DivAssign
    } else if i == 17 {
        TokenKind::Semicolon
    } else if i == 18 {
        TokenKind::OpenParen
    } else if i == 19 {
        TokenKind::CloseParen
    } else if i == 20 {
        TokenKind::OpenBracket
    } else if i == 21 {
        TokenKind::CloseBracket
    } else if i == 22 {
        TokenKind::OpenBody
    } else if i == 23 {
        TokenKind::CloseBody
    } else if i == 24 {
        TokenKind::KwVoid
    } else if i == 25 {
        TokenKind::KwUnsigned
    } else if i == 26 {
        TokenKind::KwByte
    } else if i == 27 {
        TokenKind::KwShort
    } else if i == 28 {
        TokenKind::KwInt
    } else if i == 29 {
        TokenKind::KwLong
    } else if i == 30 {
        TokenKind::KwChar
    } else if i == 31 {
        TokenKind::KwFloat
    } else if i == 32 {
        TokenKind::KwLet
    } else if i == 33 {
        TokenKind::KwConst
    } else if i == 34 {
        TokenKind::KwFn
    } else if i == 35 {
        TokenKind::KwIf
    } else if i == 36 {
        TokenKind::KwElse
    } else if i == 37 {
        TokenKind::KwRtn
    } else if i == 38 {
        TokenKind::KwClass
    } else if i == 39 {
        TokenKind::KwStruct
    } else if i == 40 {
        TokenKind::KwAlias
    } else if i == 41 {
        TokenKind::KwEnum
    } else if i == 42 {
        TokenKind::KwUnion
    } else if i == 43 {
        TokenKind::CompKwDefine
    } else if i == 44 {
        TokenKind::CompKwSizeof
    } else if i == 45 {
        TokenKind::Identifier
    } else if i == 46 {
        TokenKind::IntegerLiteral
    } else if i == 47 {
        TokenKind::FloatLiteral
    } else if i == 48 {
        TokenKind::StringLiteral
    } else {
        TokenKind::EOF
    }
}

spec fn kind_index(k: TokenKind) -> int {
    match k {
        TokenKind::Equal => 0,
        TokenKind::NotEqual => 1,
        TokenKind::Greater => 2,
        TokenKind::GreaterEqual => 3,
        TokenKind::Lesser => 4,
        TokenKind::LesserEqual => 5,
        TokenKind::Assign => 6,
        TokenKind::Add => 7,
        TokenKind::AddAssign => 8,
        TokenKind::Increment => 9,
        TokenKind::Sub => 10,
        TokenKind::SubAssign => 11,
        TokenKind::Decrement => 12,
        TokenKind::Star => 13,
        TokenKind::MulAssign => 14,
        TokenKind::Div => 15,
        TokenKind::DivAssign => 16,
        TokenKind::Semicolon => 17,
        TokenKind::OpenParen => 18,
        TokenKind::CloseParen => 19,
        TokenKind::OpenBracket => 20,
        TokenKind::CloseBracket => 21,
        TokenKind::OpenBody => 22,
        TokenKind::CloseBody => 23,
        TokenKind::KwVoid => 24,
        TokenKind::KwUnsigned => 25,
        TokenKind::KwByte => 26,
        TokenKind::KwShort => 27,
        TokenKind::KwInt => 28,
        TokenKind::KwLong => 29,
        TokenKind::KwChar => 30,
        TokenKind::KwFloat => 31,
        TokenKind::KwLet => 32,
        TokenKind::KwConst => 33,
        TokenKind::KwFn => 34,
        TokenKind::KwIf => 35,
        TokenKind::KwElse => 36,
        TokenKind::KwRtn => 37,
        TokenKind::KwClass => 38,
        TokenKind::KwStruct => 39,
        TokenKind::KwAlias => 40,
        TokenKind::KwEnum => 41,
        TokenKind::KwUnion => 42,
        TokenKind::CompKwDefine => 43,
        TokenKind::CompKwSizeof => 44,
        TokenKind::Identifier => 45,
        TokenKind::IntegerLiteral => 46,
        TokenKind::FloatLiteral => 47,
        TokenKind::StringLiteral => 48,
        TokenKind::EOF => 49,
    }
}

proof fn lemma_kind_table(k: TokenKind)
    ensures
        k != TokenKind::EOF ==> 0 <= kind_index(k) < 49 && kind_at(kind_index(k)) == k,
{
}

fn kind_at_exec(i: usize) -> (k: TokenKind)
    requires
        i < 49,
    ensures
        k == kind_at(i as int),
{
    match i {
        0 => TokenKind::Equal,
        1 => TokenKind::NotEqual,
        2 => TokenKind::Greater,
        3 => TokenKind::GreaterEqual,
        4 => TokenKind::Lesser,
        5 => TokenKind::LesserEqual,
        6 => TokenKind::Assign,
        7 => TokenKind::Add,
        8 => TokenKind::AddAssign,
        9 => TokenKind::Increment,
        10 => TokenKind::Sub,
        11 => TokenKind::SubAssign,
        12 => TokenKind::Decrement,
        13 => TokenKind::Star,
        14 => TokenKind::MulAssign,
        15 => TokenKind::Div,
        16 => TokenKind::DivAssign,
        17 => TokenKind::Semicolon,
        18 => TokenKind::OpenParen,
        19 => TokenKind::CloseParen,
        20 => TokenKind::OpenBracket,
        21 => TokenKind::CloseBracket,
        22 => TokenKind::OpenBody,
        23 => TokenKind::CloseBody,
        24 => TokenKind::KwVoid,
        25 => TokenKind::KwUnsigned,
        26 => TokenKind::KwByte,
        27 => TokenKind::KwShort,
        28 => TokenKind::KwInt,
        29 => TokenKind::KwLong,
        30 => TokenKind::KwChar,
        31 => TokenKind::KwFloat,
        32 => TokenKind::KwLet,
        33 => TokenKind::KwConst,
        34 => TokenKind::KwFn,
        35 => TokenKind::KwIf,
        36 => TokenKind::KwElse,
        37 => TokenKind::KwRtn,
        38 => TokenKind::KwClass,
        39 => TokenKind::KwStruct,
        40 => TokenKind::KwAlias,
        41 => TokenKind::KwEnum,
        42 => TokenKind::KwUnion,
        43 => TokenKind::CompKwDefine,
        44 => TokenKind::CompKwSizeof,
        45 => TokenKind::Identifier,
        46 => TokenKind::IntegerLiteral,
        47 => TokenKind::FloatLiteral,
        48 => TokenKind::StringLiteral,
        _ => TokenKind::StringLiteral,
    }
}

fn priority_exec(k: TokenKind) -> (p: u8)
    ensures
        p == priority(k),
{
    match k {
        TokenKind::Equal => 4,
        TokenKind::NotEqual => 4,
        TokenKind::Greater => 2,
        TokenKind::GreaterEqual => 4,
        TokenKind::Lesser => 2,
        TokenKind::LesserEqual => 4,
        TokenKind::Assign => 2,
        TokenKind::Add => 2,
        TokenKind::AddAssign => 4,
        TokenKind::Increment => 4,
        TokenKind::Sub => 2,
        TokenKind::SubAssign => 4,
        TokenKind::Decrement => 4,
        TokenKind::Star => 2,
        TokenKind::MulAssign => 4,
        TokenKind::Div => 2,
        TokenKind::DivAssign => 4,
        TokenKind::Semicolon => 2,
        TokenKind::OpenParen => 2,
        TokenKind::CloseParen => 2,
        TokenKind::OpenBracket => 2,
        TokenKind::CloseBracket => 2,
        TokenKind::OpenBody => 2,
        TokenKind::CloseBody => 2,
        TokenKind::KwVoid => 8,
        TokenKind::KwUnsigned => 16,
        TokenKind::KwByte => 8,
        TokenKind::KwShort => 10,
        TokenKind::KwInt => 6,
        TokenKind::KwLong => 8,
        TokenKind::KwChar => 8,
        TokenKind::KwFloat => 10,
        TokenKind::KwLet => 6,
        TokenKind::KwConst => 10,
        TokenKind::KwFn => 4,
        TokenKind::KwIf => 4,
        TokenKind::KwElse => 8,
        TokenKind::KwRtn => 6,
        TokenKind::KwClass => 10,
        TokenKind::KwStruct => 12,
        TokenKind::KwAlias => 18,
        TokenKind::KwEnum => 8,
        TokenKind::KwUnion => 10,
        TokenKind::CompKwDefine => 14,
        TokenKind::CompKwSizeof => 14,
        TokenKind::Identifier => 2,
        TokenKind::IntegerLiteral => 2,
        TokenKind::FloatLiteral => 6,
        TokenKind::StringLiteral => 4,
        TokenKind::EOF => 0,
    }
}

/// The length of the fixed string of `k` if `s` holds it at `j`.
#[verifier::spinoff_prover]
#[verifier::rlimit(100)]
fn literal_len(k: TokenKind, s: &[u8], j: usize) -> (r: Option<usize>)
    requires
        k.literal() is Some,
    ensures
        r matches Some(m) ==> pattern_match(k, s@, j as int, m as int),
        forall|n: int| #[trigger] pattern_match(k, s@, j as int, n) ==> (r matches Some(m) && n <= m),
{
    match k {
            TokenKind::Equal => {
                if j <= s.len() && s.len() - j >= 2 && s[j] == 61 && s[j + 1] == 61 {
                    proof {
                        assert(s@.subrange(j as int, j as int + 2) =~= seq![61u8, 61u8]);
                    }
                    Some(2)
                } else {
                    proof {
                        assert forall|n: int| !pattern_match(k, s@, j as int, n) by {
                            if pattern_match(k, s@, j as int, n) {
                                let sub = s@.subrange(j as int, j as int + n);
                        assert(sub[0] == s@[j as int + 0]);
                        assert(sub[1] == s@[j as int + 1]);
                            }
                        }
                    }
                    None
                }
            },
            TokenKind::NotEqual => {
                if j <= s.len() && s.len() - j >= 2 && s[j] == 33 && s[j + 1] == 61 {
                    proof {
                        assert(s@.subrange(j as int, j as int + 2) =~= seq![33u8, 61u8]);
                    }
                    Some(2)
                } else {
                    proof {
                        assert forall|n: int| !pattern_match(k, s@, j as int, n) by {
                            if pattern_match(k, s@, j as int, n) {
                                let sub = s@.subrange(j as int, j as int + n);
                        assert(sub[0] == s@[j as int + 0]);
                        assert(sub[1] == s@[j as int + 1]);
                            }
                        }
                    }
                    None
                }
            },
            TokenKind::Greater => {
                if j <= s.len() && s.len() - j >= 1 && s[j] == 62 {
                    proof {
                        assert(s@.subrange(j as int, j as int + 1) =~= seq![62u8]);
                    }
                    Some(1)
                } else {
                    proof {
                        assert forall|n: int| !pattern_match(k, s@, j as int, n) by {
                            if pattern_match(k, s@, j as int, n) {
                                let sub = s@.subrange(j as int, j as int + n);
                        assert(sub[0] == s@[j as int + 0]);
                            }
                        }
                    }
                    None
                }
            },
            TokenKind::GreaterEqual => {
                if j <= s.len() && s.len() - j >= 2 && s[j] == 62 && s[j + 1] == 61 {
                    proof {
                        assert(s@.subrange(j as int, j as int + 2) =~= seq![62u8, 61u8]);
                    }
                    Some(2)
                } else {
                    proof {
                        assert forall|n: int| !pattern_match(k, s@, j as int, n) by {
                            if pattern_match(k, s@, j as int, n) {
                                let sub = s@.subrange(j as int, j as int + n);
                        assert(sub[0] == s@[j as int + 0]);
                        assert(sub[1] == s@[j as int + 1]);
                            }
                        }
                    }
                    None
                }
            },
            TokenKind::Lesser => {
                if j <= s.len() && s.len() - j >= 1 && s[j] == 60 {
                    proof {
                        assert(s@.subrange(j as int, j as int + 1) =~= seq![60u8]);
                    }
                    Some(1)
                } else {
                    proof {
                        assert forall|n: int| !pattern_match(k, s@, j as int, n) by {
                            if pattern_match(k, s@, j as int, n) {
                                let sub = s@.subrange(j as int, j as int + n);
                        assert(sub[0] == s@[j as int + 0]);
                            }
                        }
                    }
                    None
                }
            },
            TokenKind::LesserEqual => {
                if j <= s.len() && s.len() - j >= 2 && s[j] == 60 && s[j + 1] == 61 {
                    proof {
                        assert(s@.subrange(j as int, j as int + 2) =~= seq![60u8, 61u8]);
                    }
                    Some(2)
                } else {
                    proof {
                        assert forall|n: int| !pattern_match(k, s@, j as int, n) by {
                            if pattern_match(k, s@, j as int, n) {
                                let sub = s@.subrange(j as int, j as int + n);
                        assert(sub[0] == s@[j as int + 0]);
                        assert(sub[1] == s@[j as int + 1]);
                            }
                        }
                    }
                    None
                }
            },
            TokenKind::Assign => {
                if j <= s.len() && s.len() - j >= 1 && s[j] == 61 {
                    proof {
                        assert(s@.subrange(j as int, j as int + 1) =~= seq![61u8]);
                    }
                    Some(1)
                } else {
                    proof {
                        assert forall|n: int| !pattern_match(k, s@, j as int, n) by {
                            if pattern_match(k, s@, j as int, n) {
                                let sub = s@.subrange(j as int, j as int + n);
                        assert(sub[0] == s@[j as int + 0]);
                            }
                        }
                    }
                    None
                }
            },
            TokenKind::Add => {
                if j <= s.len() && s.len() - j >= 1 && s[j] == 43 {
                    proof {
                        assert(s@.subrange(j as int, j as int + 1) =~= seq![43u8]);
                    }
                    Some(1)
                } else {
                    proof {
                        assert forall|n: int| !pattern_match(k, s@, j as int, n) by {
                            if pattern_match(k, s@, j as int, n) {
                                let sub = s@.subrange(j as int, j as int + n);
                        assert(sub[0] == s@[j as int + 0]);
                            }
                        }
                    }
                    None
                }
            },
            TokenKind::AddAssign => {
                if j <= s.len() && s.len() - j >= 2 && s[j] == 43 && s[j + 1] == 61 {
                    proof {
                        assert(s@.subrange(j as int, j as int + 2) =~= seq![43u8, 61u8]);
                    }
                    Some(2)
                } else {
                    proof {
                        assert forall|n: int| !pattern_match(k, s@, j as int, n) by {
                            if pattern_match(k, s@, j as int, n) {
                                let sub = s@.subrange(j as int, j as int + n);
                        assert(sub[0] == s@[j as int + 0]);
                        assert(sub[1] == s@[j as int + 1]);
                            }
                        }
                    }
                    None
                }
            },
            TokenKind::Increment => {
                if j <= s.len() && s.len() - j >= 2 && s[j] == 43 && s[j + 1] == 43 {
                    proof {
                        assert(s@.subrange(j as int, j as int + 2) =~= seq![43u8, 43u8]);
                    }
                    Some(2)
                } else {
                    proof {
                        assert forall|n: int| !pattern_match(k, s@, j as int, n) by {
                            if pattern_match(k, s@, j as int, n) {
                                let sub = s@.subrange(j as int, j as int + n);
                        assert(sub[0] == s@[j as int + 0]);
                        assert(sub[1] == s@[j as int + 1]);
                            }
                        }
                    }
                    None
                }
            },
            TokenKind::Sub => {
                if j <= s.len() && s.len() - j >= 1 && s[j] == 45 {
                    proof {
                        assert(s@.subrange(j as int, j as int + 1) =~= seq![45u8]);
                    }
                    Some(1)
                } else {
                    proof {
                        assert forall|n: int| !pattern_match(k, s@, j as int, n) by {
                            if pattern_match(k, s@, j as int, n) {
                                let sub = s@.subrange(j as int, j as int + n);
                        assert(sub[0] == s@[j as int + 0]);
                            }
                        }
                    }
                    None
                }
            },
            TokenKind::SubAssign => {
                if j <= s.len() && s.len() - j >= 2 && s[j] == 45 && s[j + 1] == 61 {
                    proof {
                        assert(s@.subrange(j as int, j as int + 2) =~= seq![45u8, 61u8]);
                    }
                    Some(2)
                } else {
                    proof {
                        assert forall|n: int| !pattern_match(k, s@, j as int, n) by {
                            if pattern_match(k, s@, j as int, n) {
                                let sub = s@.subrange(j as int, j as int + n);
                        assert(sub[0] == s@[j as int + 0]);
                        assert(sub[1] == s@[j as int + 1]);
                            }
                        }
                    }
                    None
                }
            },
            TokenKind::Decrement => {
                if j <= s.len() && s.len() - j >= 2 && s[j] == 45 && s[j + 1] == 45 {
                    proof {
                        assert(s@.subrange(j as int, j as int + 2) =~= seq![45u8, 45u8]);
                    }
                    Some(2)
                } else {
                    proof {
                        assert forall|n: int| !pattern_match(k, s@, j as int, n) by {
                            if pattern_match(k, s@, j as int, n) {
                                let sub = s@.subrange(j as int, j as int + n);
                        assert(sub[0] == s@[j as int + 0]);
                        assert(sub[1] == s@[j as int + 1]);
                            }
                        }
                    }
                    None
                }
            },
            TokenKind::Star => {
                if j <= s.len() && s.len() - j >= 1 && s[j] == 42 {
                    proof {
                        assert(s@.subrange(j as int, j as int + 1) =~= seq![42u8]);
                    }
                    Some(1)
                } else {
                    proof {
                        assert forall|n: int| !pattern_match(k, s@, j as int, n) by {
                            if pattern_match(k, s@, j as int, n) {
                                let sub = s@.subrange(j as int, j as int + n);
                        assert(sub[0] == s@[j as int + 0]);
                            }
                        }
                    }
                    None
                }
            },
            TokenKind::MulAssign => {
                if j <= s.len() && s.len() - j >= 2 && s[j] == 42 && s[j + 1] == 61 {
                    proof {
                        assert(s@.subrange(j as int, j as int + 2) =~= seq![42u8, 61u8]);
                    }
                    Some(2)
                } else {
                    proof {
                        assert forall|n: int| !pattern_match(k, s@, j as int, n) by {
                            if pattern_match(k, s@, j as int, n) {
                                let sub = s@.subrange(j as int, j as int + n);
                        assert(sub[0] == s@[j as int + 0]);
                        assert(sub[1] == s@[j as int + 1]);
                            }
                        }
                    }
                    None
                }
            },
            TokenKind::Div => {
                if j <= s.len() && s.len() - j >= 1 && s[j] == 47 {
                    proof {
                        assert(s@.subrange(j as int, j as int + 1) =~= seq![47u8]);
                    }
                    Some(1)
                } else {
                    proof {
                        assert forall|n: int| !pattern_match(k, s@, j as int, n) by {
                            if pattern_match(k, s@, j as int, n) {
                                let sub = s@.subrange(j as int, j as int + n);
                        assert(sub[0] == s@[j as int + 0]);
                            }
                        }
                    }
                    None
                }
            },
            TokenKind::DivAssign => {
                if j <= s.len() && s.len() - j >= 2 && s[j] == 47 && s[j + 1] == 61 {
                    proof {
                        assert(s@.subrange(j as int, j as int + 2) =~= seq![47u8, 61u8]);
                    }
                    Some(2)
                } else {
                    proof {
                        assert forall|n: int| !pattern_match(k, s@, j as int, n) by {
                            if pattern_match(k, s@, j as int, n) {
                                let sub = s@.subrange(j as int, j as int + n);
                        assert(sub[0] == s@[j as int + 0]);
                        assert(sub[1] == s@[j as int + 1]);
                            }
                        }
                    }
                    None
                }
            },
            TokenKind::Semicolon => {
                if j <= s.len() && s.len() - j >= 1 && s[j] == 59 {
                    proof {
                        assert(s@.subrange(j as int, j as int + 1) =~= seq![59u8]);
                    }
                    Some(1)
                } else {
                    proof {
                        assert forall|n: int| !pattern_match(k, s@, j as int, n) by {
                            if pattern_match(k, s@, j as int, n) {
                                let sub = s@.subrange(j as int, j as int + n);
                        assert(sub[0] == s@[j as int + 0]);
                            }
                        }
                    }
                    None
                }
            },
            TokenKind::OpenParen => {
                if j <= s.len() && s.len() - j >= 1 && s[j] == 40 {
                    proof {
                        assert(s@.subrange(j as int, j as int + 1) =~= seq![40u8]);
                    }
                    Some(1)
                } else {
                    proof {
                        assert forall|n: int| !pattern_match(k, s@, j as int, n) by {
                            if pattern_match(k, s@, j as int, n) {
                                let sub = s@.subrange(j as int, j as int + n);
                        assert(sub[0] == s@[j as int + 0]);
                            }
                        }
                    }
                    None
                }
            },
            TokenKind::CloseParen => {
                if j <= s.len() && s.len() - j >= 1 && s[j] == 41 {
                    proof {
                        assert(s@.subrange(j as int, j as int + 1) =~= seq![41u8]);
                    }
                    Some(1)
                } else {
                    proof {
                        assert forall|n: int| !pattern_match(k, s@, j as int, n) by {
                            if pattern_match(k, s@, j as int, n) {
                                let sub = s@.subrange(j as int, j as int + n);
                        assert(sub[0] == s@[j as int + 0]);
                            }
                        }
                    }
                    None
                }
            },
            TokenKind::OpenBracket => {
                if j <= s.len() && s.len() - j >= 1 && s[j] == 91 {
                    proof {
                        assert(s@.subrange(j as int, j as int + 1) =~= seq![91u8]);
                    }
                    Some(1)
                } else {
                    proof {
                        assert forall|n: int| !pattern_match(k, s@, j as int, n) by {
                            if pattern_match(k, s@, j as int, n) {
                                let sub = s@.subrange(j as int, j as int + n);
                        assert(sub[0] == s@[j as int + 0]);
                            }
                        }
                    }
                    None
                }
            },
            TokenKind::CloseBracket => {
                if j <= s.len() && s.len() - j >= 1 && s[j] == 93 {
                    proof {
                        assert(s@.subrange(j as int, j as int + 1) =~= seq![93u8]);
                    }
                    Some(1)
                } else {
                    proof {
                        assert forall|n: int| !pattern_match(k, s@, j as int, n) by {
                            if pattern_match(k, s@, j as int, n) {
                                let sub = s@.subrange(j as int, j as int + n);
                        assert(sub[0] == s@[j as int + 0]);
                            }
                        }
                    }
                    None
                }
            },
            TokenKind::OpenBody => {
                if j <= s.len() && s.len() - j >= 1 && s[j] == 123 {
                    proof {
                        assert(s@.subrange(j as int, j as int + 1) =~= seq![123u8]);
                    }
                    Some(1)
                } else {
                    proof {
                        assert forall|n: int| !pattern_match(k, s@, j as int, n) by {
                            if pattern_match(k, s@, j as int, n) {
                                let sub = s@.subrange(j as int, j as int + n);
                        assert(sub[0] == s@[j as int + 0]);
                            }
                        }
                    }
                    None
                }
            },
            TokenKind::CloseBody => {
                if j <= s.len() && s.len() - j >= 1 && s[j] == 125 {
                    proof {
                        assert(s@.subrange(j as int, j as int + 1) =~= seq![125u8]);
                    }
                    Some(1)
                } else {
                    proof {
                        assert forall|n: int| !pattern_match(k, s@, j as int, n) by {
                            if pattern_match(k, s@, j as int, n) {
                                let sub = s@.subrange(j as int, j as int + n);
                        assert(sub[0] == s@[j as int + 0]);
                            }
                        }
                    }
                    None
                }
            },
            TokenKind::KwVoid => {
                if j <= s.len() && s.len() - j >= 4 && s[j] == 118 && s[j + 1] == 111 && s[j + 2] == 105 && s[j + 3] == 100 {
                    proof {
                        assert(s@.subrange(j as int, j as int + 4) =~= seq![118u8, 111u8, 105u8, 100u8]);
                    }
                    Some(4)
                } else {
                    proof {
                        assert forall|n: int| !pattern_match(k, s@, j as int, n) by {
                            if pattern_match(k, s@, j as int, n) {
                                let sub = s@.subrange(j as int, j as int + n);
                        assert(sub[0] == s@[j as int + 0]);
                        assert(sub[1] == s@[j as int + 1]);
                        assert(sub[2] == s@[j as int + 2]);
                        assert(sub[3] == s@[j as int + 3]);
                            }
                        }
                    }
                    None
                }
            },
            TokenKind::KwUnsigned => {
                if j <= s.len() && s.len() - j >= 8 && s[j] == 117 && s[j + 1] == 110 && s[j + 2] == 115 && s[j + 3] == 105 && s[j + 4] == 103 && s[j + 5] == 110 && s[j + 6] == 101 && s[j + 7] == 100 {
                    proof {
                        assert(s@.subrange(j as int, j as int + 8) =~= seq![117u8, 110u8, 115u8, 105u8, 103u8, 110u8, 101u8, 100u8]);
                    }
                    Some(8)
                } else {
                    proof {
                        assert forall|n: int| !pattern_match(k, s@, j as int, n) by {
                            if pattern_match(k, s@, j as int, n) {
                                let sub = s@.subrange(j as int, j as int + n);
                        assert(sub[0] == s@[j as int + 0]);
                        assert(sub[1] == s@[j as int + 1]);
                        assert(sub[2] == s@[j as int + 2]);
                        assert(sub[3] == s@[j as int + 3]);
                        assert(sub[4] == s@[j as int + 4]);
                        assert(sub[5] == s@[j as int + 5]);
                        assert(sub[6] == s@[j as int + 6]);
                        assert(sub[7] == s@[j as int + 7]);
                            }
                        }
                    }
                    None
                }
            },
            TokenKind::KwByte => {
                if j <= s.len() && s.len() - j >= 4 && s[j] == 98 && s[j + 1] == 121 && s[j + 2] == 116 && s[j + 3] == 101 {
                    proof {
                        assert(s@.subrange(j as int, j as int + 4) =~= seq![98u8, 121u8, 116u8, 101u8]);
                    }
                    Some(4)
                } else {
                    proof {
                        assert forall|n: int| !pattern_match(k, s@, j as int, n) by {
                            if pattern_match(k, s@, j as int, n) {
                                let sub = s@.subrange(j as int, j as int + n);
                        assert(sub[0] == s@[j as int + 0]);
                        assert(sub[1] == s@[j as int + 1]);
                        assert(sub[2] == s@[j as int + 2]);
                        assert(sub[3] == s@[j as int + 3]);
                            }
                        }
                    }
                    None
                }
            },
            TokenKind::KwShort => {
                if j <= s.len() && s.len() - j >= 5 && s[j] == 115 && s[j + 1] == 104 && s[j + 2] == 111 && s[j + 3] == 114 && s[j + 4] == 116 {
                    proof {
                        assert(s@.subrange(j as int, j as int + 5) =~= seq![115u8, 104u8, 111u8, 114u8, 116u8]);
                    }
                    Some(5)
                } else {
                    proof {
                        assert forall|n: int| !pattern_match(k, s@, j as int, n) by {
                            if pattern_match(k, s@, j as int, n) {
                                let sub = s@.subrange(j as int, j as int + n);
                        assert(sub[0] == s@[j as int + 0]);
                        assert(sub[1] == s@[j as int + 1]);
                        assert(sub[2] == s@[j as int + 2]);
                        assert(sub[3] == s@[j as int + 3]);
                        assert(sub[4] == s@[j as int + 4]);
                            }
                        }
                    }
                    None
                }
            },
            TokenKind::KwInt => {
                if j <= s.len() && s.len() - j >= 3 && s[j] == 105 && s[j + 1] == 110 && s[j + 2] == 116 {
                    proof {
                        assert(s@.subrange(j as int, j as int + 3) =~= seq![105u8, 110u8, 116u8]);
                    }
                    Some(3)
                } else {
                    proof {
                        assert forall|n: int| !pattern_match(k, s@, j as int, n) by {
                            if pattern_match(k, s@, j as int, n) {
                                let sub = s@.subrange(j as int, j as int + n);
                        assert(sub[0] == s@[j as int + 0]);
                        assert(sub[1] == s@[j as int + 1]);
                        assert(sub[2] == s@[j as int + 2]);
                            }
                        }
                    }
                    None
                }
            },
            TokenKind::KwLong => {
                if j <= s.len() && s.len() - j >= 4 && s[j] == 108 && s[j + 1] == 111 && s[j + 2] == 110 && s[j + 3] == 103 {
                    proof {
                        assert(s@.subrange(j as int, j as int + 4) =~= seq![108u8, 111u8, 110u8, 103u8]);
                    }
                    Some(4)
                } else {
                    proof {
                        assert forall|n: int| !pattern_match(k, s@, j as int, n) by {
                            if pattern_match(k, s@, j as int, n) {
                                let sub = s@.subrange(j as int, j as int + n);
                        assert(sub[0] == s@[j as int + 0]);
                        assert(sub[1] == s@[j as int + 1]);
                        assert(sub[2] == s@[j as int + 2]);
                        assert(sub[3] == s@[j as int + 3]);
                            }
                        }
                    }
                    None
                }
            },
            TokenKind::KwChar => {
                if j <= s.len() && s.len() - j >= 4 && s[j] == 99 && s[j + 1] == 104 && s[j + 2] == 97 && s[j + 3] == 114 {
                    proof {
                        assert(s@.subrange(j as int, j as int + 4) =~= seq![99u8, 104u8, 97u8, 114u8]);
                    }
                    Some(4)
                } else {
                    proof {
                        assert forall|n: int| !pattern_match(k, s@, j as int, n) by {
                            if pattern_match(k, s@, j as int, n) {
                                let sub = s@.subrange(j as int, j as int + n);
                        assert(sub[0] == s@[j as int + 0]);
                        assert(sub[1] == s@[j as int + 1]);
                        assert(sub[2] == s@[j as int + 2]);
                        assert(sub[3] == s@[j as int + 3]);
                            }
                        }
                    }
                    None
                }
            },
            TokenKind::KwFloat => {
                if j <= s.len() && s.len() - j >= 5 && s[j] == 102 && s[j + 1] == 108 && s[j + 2] == 111 && s[j + 3] == 97 && s[j + 4] == 116 {
                    proof {
                        assert(s@.subrange(j as int, j as int + 5) =~= seq![102u8, 108u8, 111u8, 97u8, 116u8]);
                    }
                    Some(5)
                } else {
                    proof {
                        assert forall|n: int| !pattern_match(k, s@, j as int, n) by {
                            if pattern_match(k, s@, j as int, n) {
                                let sub = s@.subrange(j as int, j as int + n);
                        assert(sub[0] == s@[j as int + 0]);
                        assert(sub[1] == s@[j as int + 1]);
                        assert(sub[2] == s@[j as int + 2]);
                        assert(sub[3] == s@[j as int + 3]);
                        assert(sub[4] == s@[j as int + 4]);
                            }
                        }
                    }
                    None
                }
            },
            TokenKind::KwLet => {
                if j <= s.len() && s.len() - j >= 3 && s[j] == 108 && s[j + 1] == 101 && s[j + 2] == 116 {
                    proof {
                        assert(s@.subrange(j as int, j as int + 3) =~= seq![108u8, 101u8, 116u8]);
                    }
                    Some(3)
                } else {
                    proof {
                        assert forall|n: int| !pattern_match(k, s@, j as int, n) by {
                            if pattern_match(k, s@, j as int, n) {
                                let sub = s@.subrange(j as int, j as int + n);
                        assert(sub[0] == s@[j as int + 0]);
                        assert(sub[1] == s@[j as int + 1]);
                        assert(sub[2] == s@[j as int + 2]);
                            }
                        }
                    }
                    None
                }
            },
            TokenKind::KwConst => {
                if j <= s.len() && s.len() - j >= 5 && s[j] == 99 && s[j + 1] == 111 && s[j + 2] == 110 && s[j + 3] == 115 && s[j + 4] == 116 {
                    proof {
                        assert(s@.subrange(j as int, j as int + 5) =~= seq![99u8, 111u8, 110u8, 115u8, 116u8]);
                    }
                    Some(5)
                } else {
                    proof {
                        assert forall|n: int| !pattern_match(k, s@, j as int, n) by {
                            if pattern_match(k, s@, j as int, n) {
                                let sub = s@.subrange(j as int, j as int + n);
                        assert(sub[0] == s@[j as int + 0]);
                        assert(sub[1] == s@[j as int + 1]);
                        assert(sub[2] == s@[j as int + 2]);
                        assert(sub[3] == s@[j as int + 3]);
                        assert(sub[4] == s@[j as int + 4]);
                            }
                        }
                    }
                    None
                }
            },
            TokenKind::KwFn => {
                if j <= s.len() && s.len() - j >= 2 && s[j] == 102 && s[j + 1] == 110 {
                    proof {
                        assert(s@.subrange(j as int, j as int + 2) =~= seq![102u8, 110u8]);
                    }
                    Some(2)
                } else {
                    proof {
                        assert forall|n: int| !pattern_match(k, s@, j as int, n) by {
                            if pattern_match(k, s@, j as int, n) {
                                let sub = s@.subrange(j as int, j as int + n);
                        assert(sub[0] == s@[j as int + 0]);
                        assert(sub[1] == s@[j as int + 1]);
                            }
                        }
                    }
                    None
                }
            },
            TokenKind::KwIf => {
                if j <= s.len() && s.len() - j >= 2 && s[j] == 105 && s[j + 1] == 102 {
                    proof {
                        assert(s@.subrange(j as int, j as int + 2) =~= seq![105u8, 102u8]);
                    }
                    Some(2)
                } else {
                    proof {
                        assert forall|n: int| !pattern_match(k, s@, j as int, n) by {
                            if pattern_match(k, s@, j as int, n) {
                                let sub = s@.subrange(j as int, j as int + n);
                        assert(sub[0] == s@[j as int + 0]);
                        assert(sub[1] == s@[j as int + 1]);
                            }
                        }
                    }
                    None
                }
            },
            TokenKind::KwElse => {
                if j <= s.len() && s.len() - j >= 4 && s[j] == 101 && s[j + 1] == 108 && s[j + 2] == 115 && s[j + 3] == 101 {
                    proof {
                        assert(s@.subrange(j as int, j as int + 4) =~= seq![101u8, 108u8, 115u8, 101u8]);
                    }
                    Some(4)
                } else {
                    proof {
                        assert forall|n: int| !pattern_match(k, s@, j as int, n) by {
                            if pattern_match(k, s@, j as int, n) {
                                let sub = s@.subrange(j as int, j as int + n);
                        assert(sub[0] == s@[j as int + 0]);
                        assert(sub[1] == s@[j as int + 1]);
                        assert(sub[2] == s@[j as int + 2]);
                        assert(sub[3] == s@[j as int + 3]);
                            }
                        }
                    }
                    None
                }
            },
            TokenKind::KwRtn => {
                if j <= s.len() && s.len() - j >= 3 && s[j] == 114 && s[j + 1] == 116 && s[j + 2] == 110 {
                    proof {
                        assert(s@.subrange(j as int, j as int + 3) =~= seq![114u8, 116u8, 110u8]);
                    }
                    Some(3)
                } else {
                    proof {
                        assert forall|n: int| !pattern_match(k, s@, j as int, n) by {
                            if pattern_match(k, s@, j as int, n) {
                                let sub = s@.subrange(j as int, j as int + n);
                        assert(sub[0] == s@[j as int + 0]);
                        assert(sub[1] == s@[j as int + 1]);
                        assert(sub[2] == s@[j as int + 2]);
                            }
                        }
                    }
                    None
                }
            },
            TokenKind::KwClass => {
                if j <= s.len() && s.len() - j >= 5 && s[j] == 99 && s[j + 1] == 108 && s[j + 2] == 97 && s[j + 3] == 115 && s[j + 4] == 115 {
                    proof {
                        assert(s@.subrange(j as int, j as int + 5) =~= seq![99u8, 108u8, 97u8, 115u8, 115u8]);
                    }
                    Some(5)
                } else {
                    proof {
                        assert forall|n: int| !pattern_match(k, s@, j as int, n) by {
                            if pattern_match(k, s@, j as int, n) {
                                let sub = s@.subrange(j as int, j as int + n);
                        assert(sub[0] == s@[j as int + 0]);
                        assert(sub[1] == s@[j as int + 1]);
                        assert(sub[2] == s@[j as int + 2]);
                        assert(sub[3] == s@[j as int + 3]);
                        assert(sub[4] == s@[j as int + 4]);
                            }
                        }
                    }
                    None
                }
            },
            TokenKind::KwStruct => {
                if j <= s.len() && s.len() - j >= 6 && s[j] == 115 && s[j + 1] == 116 && s[j + 2] == 114 && s[j + 3] == 117 && s[j + 4] == 99 && s[j + 5] == 116 {
                    proof {
                        assert(s@.subrange(j as int, j as int + 6) =~= seq![115u8, 116u8, 114u8, 117u8, 99u8, 116u8]);
                    }
                    Some(6)
                } else {
                    proof {
                        assert forall|n: int| !pattern_match(k, s@, j as int, n) by {
                            if pattern_match(k, s@, j as int, n) {
                                let sub = s@.subrange(j as int, j as int + n);
                        assert(sub[0] == s@[j as int + 0]);
                        assert(sub[1] == s@[j as int + 1]);
                        assert(sub[2] == s@[j as int + 2]);
                        assert(sub[3] == s@[j as int + 3]);
                        assert(sub[4] == s@[j as int + 4]);
                        assert(sub[5] == s@[j as int + 5]);
                            }
                        }
                    }
                    None
                }
            },
            TokenKind::KwAlias => {
                if j <= s.len() && s.len() - j >= 9 && s[j] == 116 && s[j + 1] == 121 && s[j + 2] == 112 && s[j + 3] == 101 && s[j + 4] == 97 && s[j + 5] == 108 && s[j + 6] == 105 && s[j + 7] == 97 && s[j + 8] == 115 {
                    proof {
                        assert(s@.subrange(j as int, j as int + 9) =~= seq![116u8, 121u8, 112u8, 101u8, 97u8, 108u8, 105u8, 97u8, 115u8]);
                    }
                    Some(9)
                } else {
                    proof {
                        assert forall|n: int| !pattern_match(k, s@, j as int, n) by {
                            if pattern_match(k, s@, j as int, n) {
                                let sub = s@.subrange(j as int, j as int + n);
                        assert(sub[0] == s@[j as int + 0]);
                        assert(sub[1] == s@[j as int + 1]);
                        assert(sub[2] == s@[j as int + 2]);
                        assert(sub[3] == s@[j as int + 3]);
                        assert(sub[4] == s@[j as int + 4]);
                        assert(sub[5] == s@[j as int + 5]);
                        assert(sub[6] == s@[j as int + 6]);
                        assert(sub[7] == s@[j as int + 7]);
                        assert(sub[8] == s@[j as int + 8]);
                            }
                        }
                    }
                    None
                }
            },
            TokenKind::KwEnum => {
                if j <= s.len() && s.len() - j >= 4 && s[j] == 101 && s[j + 1] == 110 && s[j + 2] == 117 && s[j + 3] == 109 {
                    proof {
                        assert(s@.subrange(j as int, j as int + 4) =~= seq![101u8, 110u8, 117u8, 109u8]);
                    }
                    Some(4)
                } else {
                    proof {
                        assert forall|n: int| !pattern_match(k, s@, j as int, n) by {
                            if pattern_match(k, s@, j as int, n) {
                                let sub = s@.subrange(j as int, j as int + n);
                        assert(sub[0] == s@[j as int + 0]);
                        assert(sub[1] == s@[j as int + 1]);
                        assert(sub[2] == s@[j as int + 2]);
                        assert(sub[3] == s@[j as int + 3]);
                            }
                        }
                    }
                    None
                }
            },
            TokenKind::KwUnion => {
                if j <= s.len() && s.len() - j >= 5 && s[j] == 117 && s[j + 1] == 110 && s[j + 2] == 105 && s[j + 3] == 111 && s[j + 4] == 110 {
                    proof {
                        assert(s@.subrange(j as int, j as int + 5) =~= seq![117u8, 110u8, 105u8, 111u8, 110u8]);
                    }
                    Some(5)
                } else {
                    proof {
                        assert forall|n: int| !pattern_match(k, s@, j as int, n) by {
                            if pattern_match(k, s@, j as int, n) {
                                let sub = s@.subrange(j as int, j as int + n);
                        assert(sub[0] == s@[j as int + 0]);
                        assert(sub[1] == s@[j as int + 1]);
                        assert(sub[2] == s@[j as int + 2]);
                        assert(sub[3] == s@[j as int + 3]);
                        assert(sub[4] == s@[j as int + 4]);
                            }
                        }
                    }
                    None
                }
            },
            TokenKind::CompKwDefine => {
                if j <= s.len() && s.len() - j >= 7 && s[j] == 35 && s[j + 1] == 100 && s[j + 2] == 101 && s[j + 3] == 102 && s[j + 4] == 105 && s[j + 5] == 110 && s[j + 6] == 101 {
                    proof {
                        assert(s@.subrange(j as int, j as int + 7) =~= seq![35u8, 100u8, 101u8, 102u8, 105u8, 110u8, 101u8]);
                    }
                    Some(7)
                } else {
                    proof {
                        assert forall|n: int| !pattern_match(k, s@, j as int, n) by {
                            if pattern_match(k, s@, j as int, n) {
                                let sub = s@.subrange(j as int, j as int + n);
                        assert(sub[0] == s@[j as int + 0]);
                        assert(sub[1] == s@[j as int + 1]);
                        assert(sub[2] == s@[j as int + 2]);
                        assert(sub[3] == s@[j as int + 3]);
                        assert(sub[4] == s@[j as int + 4]);
                        assert(sub[5] == s@[j as int + 5]);
                        assert(sub[6] == s@[j as int + 6]);
                            }
                        }
                    }
                    None
                }
            },
            TokenKind::CompKwSizeof => {
                if j <= s.len() && s.len() - j >= 7 && s[j] == 35 && s[j + 1] == 115 && s[j + 2] == 105 && s[j + 3] == 122 && s[j + 4] == 101 && s[j + 5] == 111 && s[j + 6] == 102 {
                    proof {
                        assert(s@.subrange(j as int, j as int + 7) =~= seq![35u8, 115u8, 105u8, 122u8, 101u8, 111u8, 102u8]);
                    }
                    Some(7)
                } else {
                    proof {
                        assert forall|n: int| !pattern_match(k, s@, j as int, n) by {
                            if pattern_match(k, s@, j as int, n) {
                                let sub = s@.subrange(j as int, j as int + n);
                        assert(sub[0] == s@[j as int + 0]);
                        assert(sub[1] == s@[j as int + 1]);
                        assert(sub[2] == s@[j as int + 2]);
                        assert(sub[3] == s@[j as int + 3]);
                        assert(sub[4] == s@[j as int + 4]);
                        assert(sub[5] == s@[j as int + 5]);
                        assert(sub[6] == s@[j as int + 6]);
                            }
                        }
                    }
                    None
                }
            },
            _ => None,
    }
}

fn is_digit_exec(b: u8) -> (r: bool)
    ensures
        r == is_digit(b),
{
    48 <= b && b <= 57
}

fn is_ident_start_exec(b: u8) -> (r: bool)
    ensures
        r == is_ident_start(b),
{
    (65 <= b && b <= 90) || (97 <= b && b <= 122) || b == 95
}

fn is_ident_char_exec(b: u8) -> (r: bool)
    ensures
        r == is_ident_char(b),
{
    is_ident_start_exec(b) || is_digit_exec(b)
}

/// The longest identifier at `j`.
fn identifier_len(s: &[u8], j: usize) -> (r: Option<usize>)
    ensures
        r matches Some(m) ==> pattern_match(TokenKind::Identifier, s@, j as int, m as int),
        forall|n: int| #[trigger] pattern_match(TokenKind::Identifier, s@, j as int, n) ==> (r matches Some(m) && n <= m),
{
    if j < s.len() && is_ident_start_exec(s[j]) {
        let mut e = j + 1;
        while e < s.len() && is_ident_char_exec(s[e])
            invariant
                j < e <= s.len(),
                is_ident_start(s@[j as int]),
                forall|t: int| j < t < e ==> is_ident_char(#[trigger] s@[t]),
            decreases s.len() - e,
        {
            e = e + 1;
        }
        assert forall|n: int| #[trigger] pattern_match(TokenKind::Identifier, s@, j as int, n) implies n <= e - j by {
            if n > e - j {
                assert(is_ident_char(s@[e as int]));
            }
        }
        Some(e - j)
    } else {
        None
    }
}

/// The end of the run of digits that starts at `a`.
fn digits_end(s: &[u8], a: usize) -> (e: usize)
    requires
        a <= s.len(),
    ensures
        a <= e <= s.len(),
        forall|t: int| a <= t < e ==> is_digit(#[trigger] s@[t]),
        e == s.len() || !is_digit(s@[e as int]),
{
    let mut e = a;
    while e < s.len() && is_digit_exec(s[e])
        invariant
            a <= e <= s.len(),
            forall|t: int| a <= t < e ==> is_digit(#[trigger] s@[t]),
        decreases s.len() - e,
    {
        e = e + 1;
    }
    e
}

/// The longest integer literal at `j`.
fn integer_len(s: &[u8], j: usize) -> (r: Option<usize>)
    ensures
        r matches Some(m) ==> pattern_match(TokenKind::IntegerLiteral, s@, j as int, m as int),
        forall|n: int| #[trigger] pattern_match(TokenKind::IntegerLiteral, s@, j as int, n) ==> (r matches Some(m) && n <= m),
{
    if j >= s.len() {
        return None;
    }
    let e = digits_end(s, j);
    assert forall|n: int| #[trigger] pattern_match(TokenKind::IntegerLiteral, s@, j as int, n) implies n <= e - j && e > j by {
        assert(is_digit(s@[j as int]));
        if n > e - j {
            assert(is_digit(s@[e as int]));
        }
    }
    if e == j {
        None
    } else {
        Some(e - j)
    }
}

/// The longest float literal at `j`.
fn float_len(s: &[u8], j: usize) -> (r: Option<usize>)
    ensures
        r matches Some(m) ==> pattern_match(TokenKind::FloatLiteral, s@, j as int, m as int),
        forall|n: int| #[trigger] pattern_match(TokenKind::FloatLiteral, s@, j as int, n) ==> (r matches Some(m) && n <= m),
{
    if j >= s.len() {
        return None;
    }
    let a = if s[j] == 45 { j + 1 } else { j };
    let d = digits_end(s, a);
    // every match has its `.` at `d`
    assert forall|n: int, dot: int| float_shape(s@, j as int, dot, n) && j + n <= s.len() implies dot == d by {
        if dot < d {
            assert(is_digit(s@[dot]));
        } else if dot > d {
            assert(is_digit(s@[d as int]));
        }
    }
    if d == a || d >= s.len() || s[d] != 46 {
        assert forall|n: int| !#[trigger] pattern_match(TokenKind::FloatLiteral, s@, j as int, n) by {
            if pattern_match(TokenKind::FloatLiteral, s@, j as int, n) {
                let dot = choose|dot: int| float_shape(s@, j as int, dot, n);
                assert(dot == d);
            }
        }
        return None;
    }
    let e = digits_end(s, d + 1);
    if e == d + 1 {
        assert forall|n: int| !#[trigger] pattern_match(TokenKind::FloatLiteral, s@, j as int, n) by {
            if pattern_match(TokenKind::FloatLiteral, s@, j as int, n) {
                let dot = choose|dot: int| float_shape(s@, j as int, dot, n);
                assert(dot == d);
                assert(is_digit(s@[d + 1]));
            }
        }
        return None;
    }
    assert(float_shape(s@, j as int, d as int, (e - j) as int));
    assert forall|n: int| #[trigger] pattern_match(TokenKind::FloatLiteral, s@, j as int, n) implies n <= e - j by {
        let dot = choose|dot: int| float_shape(s@, j as int, dot, n);
        assert(dot == d);
        if n > e - j {
            assert(is_digit(s@[e as int]));
        }
    }
    Some(e - j)
}

/// The string literal at `j`.
fn string_len(s: &[u8], j: usize) -> (r: Option<usize>)
    ensures
        r matches Some(m) ==> pattern_match(TokenKind::StringLiteral, s@, j as int, m as int),
        forall|n: int| #[trigger] pattern_match(TokenKind::StringLiteral, s@, j as int, n) ==> (r matches Some(m) && n <= m),
{
    if j >= s.len() || s[j] != 34 {
        return None;
    }
    let mut e = j + 1;
    while e < s.len() && s[e] != 34 && s[e] != 92 && s[e] != 46
        invariant
            j < e <= s.len(),
            s@[j as int] == 34,
            forall|t: int| j < t < e ==> is_string_char(#[trigger] s@[t]),
        decreases s.len() - e,
    {
        e = e + 1;
    }
    // every match closes at `e`
    assert forall|n: int| #[trigger] pattern_match(TokenKind::StringLiteral, s@, j as int, n) implies j + n - 1 == e by {
        if j + n - 1 < e {
            assert(is_string_char(s@[j + n - 1]));
        } else if j + n - 1 > e {
            assert(is_string_char(s@[e as int]));
        }
    }
    if e < s.len() && s[e] == 34 {
        Some(e + 1 - j)
    } else {
        None
    }
}

/// The longest match of kind `k` at `j`, if it matches there.
fn match_len(k: TokenKind, s: &[u8], j: usize) -> (r: Option<usize>)
    ensures
        r matches Some(m) ==> pattern_match(k, s@, j as int, m as int),
        forall|n: int| #[trigger] pattern_match(k, s@, j as int, n) ==> (r matches Some(m) && n <= m),
{
    match k {
        TokenKind::Identifier => identifier_len(s, j),
        TokenKind::IntegerLiteral => integer_len(s, j),
        TokenKind::FloatLiteral => float_len(s, j),
        TokenKind::StringLiteral => string_len(s, j),
        TokenKind::EOF => None,
        _ => literal_len(k, s, j),
    }
}

/// The token taken at `j`, if any kind matches there.
fn best_match(s: &[u8], j: usize) -> (r: Option<(TokenKind, usize)>)
    ensures
        r matches Some((k, n)) ==> is_best(s@, j as int, k, n as int),
        r is None ==> forall|k: TokenKind, n: int| !#[trigger] pattern_match(k, s@, j as int, n),
{
    let mut best: Option<(TokenKind, usize)> = None;
    for t in 0..49
        invariant
            best matches Some((bk, bn)) ==> pattern_match(bk, s@, j as int, bn as int),
            forall|u: int, n: int| 0 <= u < t && #[trigger] pattern_match(kind_at(u), s@, j as int, n) ==> (
                best matches Some((bk, bn)) && (n < bn || (n == bn && priority(kind_at(u)) <= priority(bk)))),
    {
        let k = kind_at_exec(t);
        if let Some(m) = match_len(k, s, j) {
            let better = match best {
                None => true,
                Some((bk, bn)) => m > bn || (m == bn && priority_exec(k) > priority_exec(bk)),
            };
            if better {
                best = Some((k, m));
            }
        }
    }
    proof {
        assert forall|k: TokenKind, n: int| #[trigger] pattern_match(k, s@, j as int, n) implies (
            best matches Some((bk, bn)) && (n < bn || (n == bn && priority(k) <= priority(bk)))) by {
            lemma_kind_table(k);
            assert(pattern_match(kind_at(kind_index(k)), s@, j as int, n));
        }
    }
    best
}

/// The first position at or after `i` that is not white space.
fn skip_white(s: &[u8], i: usize) -> (j: usize)
    requires
        i <= s.len(),
    ensures
        j == skip_ws(s@, i as int),
        i <= j <= s.len(),
{
    let mut j = i;
    while j < s.len() && (s[j] == 32 || s[j] == 9 || s[j] == 10 || s[j] == 13)
        invariant
            i <= j <= s.len(),
            skip_ws(s@, j as int) == skip_ws(s@, i as int),
        decreases s.len() - j,
    {
        j = j + 1;
    }
    j
}

/// The tokens of `source`, as the token grammar reads them, then `EOF`.
/// Reading stops at the end of the text or at the first position where no
/// kind of token matches; the tokens read up to there are kept.
pub fn tokenize(source: &str) -> (tokens: Vec<Token>)
    ensures
        tokens@ == tokens_of(source.spec_bytes()),
{
    let s = source.as_bytes();
    let mut tokens: Vec<Token> = Vec::new();
    let mut i: usize = 0;
    assert(tokens@ + lex_from(s@, 0) =~= lex_from(s@, 0));
    loop
        invariant
            i <= s.len(),
            lex_from(s@, 0) == tokens@ + lex_from(s@, i as int),
        ensures
            lex_from(s@, 0) == tokens@,
        decreases s.len() - i,
    {
        let j = skip_white(s, i);
        if j >= s.len() {
            assert(tokens@ + Seq::<Token>::empty() =~= tokens@);
            break;
        }
        match best_match(s, j) {
            None => {
                assert(!(exists|k: TokenKind, n: int| is_best(s@, j as int, k, n)));
                assert(tokens@ + Seq::<Token>::empty() =~= tokens@);
                break;
            },
            Some((k, n)) => {
                proof {
                    let (k2, n2) = choose|k2: TokenKind, n2: int| is_best(s@, j as int, k2, n2);
                    lemma_best_unique(s@, j as int, k, n as int, k2, n2);
                }
                let token = Token { kind: k, span: Span { start: j, end: j + n } };
                assert(lex_from(s@, i as int) == seq![token] + lex_from(s@, (j + n) as int));
                assert(tokens@.push(token) + lex_from(s@, (j + n) as int) =~= tokens@ + (seq![token] + lex_from(s@, (j + n) as int)));
                tokens.push(token);
                i = j + n;
            },
        }
    }
    tokens.push(Token { kind: TokenKind::EOF, span: Span { start: 0, end: 0 } });
    tokens
}


/// Every byte of `s` in `a..b` is white space.
pub open spec fn all_ws(s: Seq<u8>, a: int, b: int) -> bool {
    forall|t: int| a <= t < b ==> is_ws(#[trigger] s[t])
}

proof fn lemma_skip_ws(s: Seq<u8>, i: int)
    requires
        0 <= i <= s.len(),
    ensures
        i <= skip_ws(s, i) <= s.len(),
        all_ws(s, i, skip_ws(s, i)),
        skip_ws(s, i) < s.len() ==> !is_ws(s[skip_ws(s, i)]),
    decreases s.len() - i,
{
    if i < s.len() && is_ws(s[i]) {
        lemma_skip_ws(s, i + 1);
    }
}

/// The longest match of `k` at `j` of at most `m` bytes, or 0.
spec fn longest_upto(k: TokenKind, s: Seq<u8>, j: int, m: int) -> int
    decreases m,
{
    if m <= 0 {
        0
    } else if pattern_match(k, s, j, m) {
        m
    } else {
        longest_upto(k, s, j, m - 1)
    }
}

proof fn lemma_longest_upto(k: TokenKind, s: Seq<u8>, j: int, m: int)
    ensures
        0 <= longest_upto(k, s, j, m) <= if m < 0 { 0 } else { m },
        longest_upto(k, s, j, m) > 0 ==> pattern_match(k, s, j, longest_upto(k, s, j, m)),
        forall|n: int| longest_upto(k, s, j, m) < n <= m ==> !#[trigger] pattern_match(k, s, j, n),
    decreases m,
{
    if m > 0 && !pattern_match(k, s, j, m) {
        lemma_longest_upto(k, s, j, m - 1);
    }
}

/// The best match among the first `t` kinds of the search order, as a
/// length (0 when none matches) and a kind.
spec fn best_upto(s: Seq<u8>, j: int, t: int) -> (int, TokenKind)
    decreases t,
{
    if t <= 0 {
        (0, TokenKind::EOF)
    } else {
        let (bn, bk) = best_upto(s, j, t - 1);
        let k = kind_at(t - 1);
        let n = longest_upto(k, s, j, s.len() - j);
        if n > bn || (n == bn && n > 0 && priority(k) > priority(bk)) {
            (n, k)
        } else {
            (bn, bk)
        }
    }
}

proof fn lemma_best_upto(s: Seq<u8>, j: int, t: int)
    requires
        0 <= j,
    ensures
        ({
            let (bn, bk) = best_upto(s, j, t);
            &&& bn >= 0
            &&& bn > 0 ==> pattern_match(bk, s, j, bn)
            &&& forall|u: int, n: int| 0 <= u < t && #[trigger] pattern_match(kind_at(u), s, j, n)
                ==> n < bn || (n == bn && priority(kind_at(u)) <= priority(bk))
        }),
    decreases t,
{
    if t > 0 {
        lemma_best_upto(s, j, t - 1);
        let k = kind_at(t - 1);
        lemma_longest_upto(k, s, j, s.len() - j);
    }
}

/// Where some kind matches, a best match exists.
pub proof fn lemma_best_exists(s: Seq<u8>, j: int, k0: TokenKind, n0: int)
    requires
        pattern_match(k0, s, j, n0),
    ensures
        exists|k: TokenKind, n: int| is_best(s, j, k, n),
{
    lemma_best_upto(s, j, 49);
    lemma_kind_table(k0);
    let (bn, bk) = best_upto(s, j, 49);
    assert(pattern_match(kind_at(kind_index(k0)), s, j, n0));
    assert forall|k2: TokenKind, n2: int| #[trigger] pattern_match(k2, s, j, n2)
        implies n2 < bn || (n2 == bn && priority(k2) <= priority(bk)) by {
        lemma_kind_table(k2);
        assert(pattern_match(kind_at(kind_index(k2)), s, j, n2));
    }
    assert(is_best(s, j, bk, bn));
}

/// Each of `toks` is the best match at its position, inside `s` from `i` on.
pub open spec fn tokens_matched(s: Seq<u8>, i: int, toks: Seq<Token>) -> bool {
    forall|k: int| 0 <= k < toks.len() ==> {
        let t = #[trigger] toks[k];
        &&& i <= t.span.start < t.span.end <= s.len()
        &&& is_best(s, t.span.start as int, t.kind, t.span.end - t.span.start)
        &&& t.kind != TokenKind::EOF
    }
}

/// `toks` follow each other in `s` from `i` on with only white space before
/// and between them.
pub open spec fn tokens_spaced(s: Seq<u8>, i: int, toks: Seq<Token>) -> bool {
    &&& toks.len() > 0 ==> all_ws(s, i, toks[0].span.start as int)
    &&& forall|k: int| 0 <= k < toks.len() - 1 ==> {
        &&& #[trigger] toks[k].span.end <= toks[k + 1].span.start
        &&& all_ws(s, toks[k].span.end as int, toks[k + 1].span.start as int)
    }
}

/// After `toks`, past white space, is the end of `s` or bytes that no kind
/// of token matches.
pub open spec fn tokens_stop(s: Seq<u8>, i: int, toks: Seq<Token>) -> bool {
    let j = skip_ws(s, end_of(i, toks));
    j >= s.len() || forall|k: TokenKind, n: int| !#[trigger] pattern_match(k, s, j, n)
}

/// Where `toks`, read from `i`, end.
pub open spec fn end_of(i: int, toks: Seq<Token>) -> int {
    if toks.len() == 0 {
        i
    } else {
        toks.last().span.end as int
    }
}

/// What the tokens read from `i` are: each the best match at its position,
/// inside the text and after the previous one, with only white space before
/// and between them; and reading stops at the end of the text or where no
/// kind of token matches.
pub proof fn lemma_lex_shape(s: Seq<u8>, i: int)
    requires
        0 <= i <= s.len(),
        s.len() <= usize::MAX,
    ensures
        tokens_matched(s, i, lex_from(s, i)),
        tokens_spaced(s, i, lex_from(s, i)),
        tokens_stop(s, i, lex_from(s, i)),
    decreases s.len() - i,
{
    lemma_skip_ws(s, i);
    let j = skip_ws(s, i);
    let toks = lex_from(s, i);
    if j >= s.len() {
        assert(toks.len() == 0);
    } else if !(exists|k: TokenKind, n: int| is_best(s, j, k, n)) {
        assert(toks.len() == 0);
        assert forall|k: TokenKind, n: int| !#[trigger] pattern_match(k, s, j, n) by {
            if pattern_match(k, s, j, n) {
                lemma_best_exists(s, j, k, n);
            }
        }
    } else {
        let (k, n) = choose|k: TokenKind, n: int| is_best(s, j, k, n);
        let first = Token { kind: k, span: Span { start: j as usize, end: (j + n) as usize } };
        let rest = lex_from(s, j + n);
        lemma_lex_shape(s, j + n);
        assert(toks == seq![first] + rest);
        assert(toks[0] == first);
        assert forall|q: int| 0 <= q < toks.len() implies {
            let t = #[trigger] toks[q];
            &&& i <= t.span.start < t.span.end <= s.len()
            &&& is_best(s, t.span.start as int, t.kind, t.span.end - t.span.start)
            &&& t.kind != TokenKind::EOF
        } by {
            if q > 0 {
                assert(toks[q] == rest[q - 1]);
            }
        }
        assert forall|q: int| 0 <= q < toks.len() - 1 implies {
            &&& #[trigger] toks[q].span.end <= toks[q + 1].span.start
            &&& all_ws(s, toks[q].span.end as int, toks[q + 1].span.start as int)
        } by {
            assert(toks[q + 1] == rest[q]);
            if q > 0 {
                assert(toks[q] == rest[q - 1]);
            } else {
                if rest.len() > 0 {
                    lemma_skip_ws(s, j + n);
                }
            }
        }
        if rest.len() > 0 {
            assert(toks.last() == rest.last());
        }
        assert(end_of(i, toks) == end_of(j + n, rest));
    }
}

/// Every match starts and ends with an ASCII byte.
pub proof fn lemma_match_ascii_ends(k: TokenKind, s: Seq<u8>, i: int, n: int)
    requires
        pattern_match(k, s, i, n),
    ensures
        s[i] < 128,
        s[i + n - 1] < 128,
{
    match k {
        TokenKind::Identifier => {
            if n > 1 {
                assert(is_ident_char(s[i + n - 1]));
            }
        },
        TokenKind::IntegerLiteral => {
            assert(is_digit(s[i]));
            assert(is_digit(s[i + n - 1]));
        },
        TokenKind::FloatLiteral => {
            let dot = choose|dot: int| float_shape(s, i, dot, n);
            assert(is_digit(s[i + n - 1]));
            if s[i] != 45 {
                assert(is_digit(s[i]));
            }
        },
        TokenKind::StringLiteral => {},
        TokenKind::EOF => {},
        _ => {
            let l = k.literal().unwrap();
            assert(s[i] == s.subrange(i, i + n)[0]);
            assert(s[i + n - 1] == s.subrange(i, i + n)[n - 1]);
        },
    }
}

/// An identifier is an ASCII letter or `_`, then any number of ASCII
/// letters, digits and `_`: upper and lower case alike.
pub proof fn lemma_identifier_bytes(s: Seq<u8>, i: int, n: int)
    ensures
        pattern_match(TokenKind::Identifier, s, i, n) <==> {
            &&& 0 <= i
            &&& 0 < n
            &&& i + n <= s.len()
            &&& (65 <= s[i] <= 90) || (97 <= s[i] <= 122) || s[i] == 95
            &&& forall|t: int| i < t < i + n ==> {
                let b = #[trigger] s[t];
                (65 <= b <= 90) || (97 <= b <= 122) || (48 <= b <= 57) || b == 95
            }
        },
{
}

/// Where a fixed string (a keyword, an operator or a punctuation mark)
/// matches, and no match is longer, the token taken is that fixed string:
/// a keyword is never read as an identifier of the same length.
pub proof fn lemma_fixed_string_wins(s: Seq<u8>, i: int, n: int, k: TokenKind, k2: TokenKind)
    requires
        k.literal() is Some,
        pattern_match(k, s, i, n),
        is_best(s, i, k2, n),
    ensures
        k2 == k,
{
    assert(pattern_match(k, s, i, n));
    let l = k.literal().unwrap();
    assert(s[i] == s.subrange(i, i + n)[0]);
    if k2.literal() is Some {
        assert(k2.literal().unwrap() =~= s.subrange(i, i + n));
        lemma_literal_injective(k, k2);
    } else if k2 == TokenKind::FloatLiteral {
        let dot = choose|dot: int| float_shape(s, i, dot, n);
        assert(s[dot] == s.subrange(i, i + n)[dot - i]);
    } else if k2 == TokenKind::StringLiteral {
        assert(s[i + n - 1] == s.subrange(i, i + n)[n - 1]);
    } else if k2 == TokenKind::Identifier {
        if n > 1 {
            assert(s[i + 1] == s.subrange(i, i + n)[1]);
        }
    }
}

/// An integer literal is one or more ASCII digits.
pub proof fn lemma_integer_bytes(s: Seq<u8>, i: int, n: int)
    ensures
        pattern_match(TokenKind::IntegerLiteral, s, i, n) <==> {
            &&& 0 <= i
            &&& 0 < n
            &&& i + n <= s.len()
            &&& forall|t: int| i <= t < i + n ==> 48 <= #[trigger] s[t] <= 57
        },
{
}

/// Exactly space, tab, line feed and carriage return are skipped before a
/// token.
pub proof fn lemma_white_space(s: Seq<u8>, i: int)
    requires
        0 <= i < s.len(),
    ensures
        skip_ws(s, i) != i <==> (s[i] == 32 || s[i] == 9 || s[i] == 10 || s[i] == 13),
{
    if is_ws(s[i]) {
        lemma_skip_ws(s, i + 1);
    }
}

/// Reading tokens never stops at an ASCII letter, digit or `_`: each of them
/// starts a token, so past the last token read and the white space after it
/// comes the end of the text or some other byte.
pub proof fn lemma_lexing_passes_words(s: Seq<u8>)
    requires
        s.len() <= usize::MAX,
    ensures
        ({
            let j = skip_ws(s, end_of(0, lex_from(s, 0)));
            j < s.len() ==> !((65 <= s[j] <= 90) || (97 <= s[j] <= 122) || (48 <= s[j] <= 57) || s[j] == 95)
        }),
{
    lemma_lex_shape(s, 0);
    let toks = lex_from(s, 0);
    let e = end_of(0, toks);
    if toks.len() > 0 {
        assert(tokens_matched(s, 0, toks));
        let t = toks[toks.len() - 1];
        assert(t.span.end <= s.len());
    }
    lemma_skip_ws(s, e);
    let j = skip_ws(s, e);
    if j < s.len() {
        let b = s[j];
        if (65 <= b <= 90) || (97 <= b <= 122) || b == 95 {
            assert(pattern_match(TokenKind::Identifier, s, j, 1));
        } else if 48 <= b <= 57 {
            assert(pattern_match(TokenKind::IntegerLiteral, s, j, 1));
        }
    }
}

/// A token list read from a text ends in `EOF`, so every parsing step on it
/// returns.
pub proof fn lemma_tokens_end_safely(s: Seq<u8>)
    ensures
        crate::progress::ends_safely(tokens_of(s)),
{
}

} // verus!
