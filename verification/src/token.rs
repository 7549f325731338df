use vstd::prelude::*;

verus! {

/// A half-open byte range `start..end` into the source text.
#[derive(Clone, Copy, Debug, PartialEq, Eq, Structural)]
pub struct Span {
    pub start: usize,
    pub end: usize,
}

/// The kinds of tokens of the language.
#[derive(Clone, Copy, Debug, PartialEq, Eq, Structural)]
pub enum TokenKind {
    /// `==`
    Equal,
    /// `!=`
    NotEqual,
    /// `>`
    Greater,
    /// `>=`
    GreaterEqual,
    /// `<`
    Lesser,
    /// `<=`
    LesserEqual,
    /// `=`
    Assign,
    /// `+`
    Add,
    /// `+=`
    AddAssign,
    /// `++`
    Increment,
    /// `-`
    Sub,
    /// `-=`
    SubAssign,
    /// `--`
    Decrement,
    /// `*`
    Star,
    /// `*=`
    MulAssign,
    /// `/`
    Div,
    /// `/=`
    DivAssign,
    /// `;`
    Semicolon,
    /// `(`
    OpenParen,
    /// `)`
    CloseParen,
    /// `[`
    OpenBracket,
    /// `]`
    CloseBracket,
    /// `{`
    OpenBody,
    /// `}`
    CloseBody,
    /// `void`
    KwVoid,
    /// `unsigned`
    KwUnsigned,
    /// `byte`
    KwByte,
    /// `short`
    KwShort,
    /// `int`
    KwInt,
    /// `long`
    KwLong,
    /// `char`
    KwChar,
    /// `float`
    KwFloat,
    /// `let`
    KwLet,
    /// `const`
    KwConst,
    /// `fn`
    KwFn,
    /// `if`
    KwIf,
    /// `else`
    KwElse,
    /// `rtn`
    KwRtn,
    /// `class`
    KwClass,
    /// `struct`
    KwStruct,
    /// `typealias`
    KwAlias,
    /// `enum`
    KwEnum,
    /// `union`
    KwUnion,
    /// `#define`
    CompKwDefine,
    /// `#sizeof`
    CompKwSizeof,
    /// An identifier: a letter or `_`, then letters, digits or `_`.
    Identifier,
    /// A run of decimal digits.
    IntegerLiteral,
    /// An optional `-`, digits, `.`, digits.
    FloatLiteral,
    /// A double-quoted string holding no `"`, `\\` or `.`.
    StringLiteral,
    /// The end of the input; never produced by matching text.
    EOF,
}

impl TokenKind {
    /// The literal text of the tokens that are fixed strings.
    pub open spec fn literal(self) -> Option<Seq<u8>> {
        match self {
            TokenKind::Equal => Some(seq![61u8, 61u8]),  // ==
            TokenKind::NotEqual => Some(seq![33u8, 61u8]),  // !=
            TokenKind::Greater => Some(seq![62u8]),  // >
            TokenKind::GreaterEqual => Some(seq![62u8, 61u8]),  // >=
            TokenKind::Lesser => Some(seq![60u8]),  // <
            TokenKind::LesserEqual => Some(seq![60u8, 61u8]),  // <=
            TokenKind::Assign => Some(seq![61u8]),  // =
            TokenKind::Add => Some(seq![43u8]),  // +
            TokenKind::AddAssign => Some(seq![43u8, 61u8]),  // +=
            TokenKind::Increment => Some(seq![43u8, 43u8]),  // ++
            TokenKind::Sub => Some(seq![45u8]),  // -
            TokenKind::SubAssign => Some(seq![45u8, 61u8]),  // -=
            TokenKind::Decrement => Some(seq![45u8, 45u8]),  // --
            TokenKind::Star => Some(seq![42u8]),  // *
            TokenKind::MulAssign => Some(seq![42u8, 61u8]),  // *=
            TokenKind::Div => Some(seq![47u8]),  // /
            TokenKind::DivAssign => Some(seq![47u8, 61u8]),  // /=
            TokenKind::Semicolon => Some(seq![59u8]),  // ;
            TokenKind::OpenParen => Some(seq![40u8]),  // (
            TokenKind::CloseParen => Some(seq![41u8]),  // )
            TokenKind::OpenBracket => Some(seq![91u8]),  // [
            TokenKind::CloseBracket => Some(seq![93u8]),  // ]
            TokenKind::OpenBody => Some(seq![123u8]),  // {
            TokenKind::CloseBody => Some(seq![125u8]),  // }
            TokenKind::KwVoid => Some(seq![118u8, 111u8, 105u8, 100u8]),  // void
            TokenKind::KwUnsigned => Some(seq![117u8, 110u8, 115u8, 105u8, 103u8, 110u8, 101u8, 100u8]),  // unsigned
            TokenKind::KwByte => Some(seq![98u8, 121u8, 116u8, 101u8]),  // byte
            TokenKind::KwShort => Some(seq![115u8, 104u8, 111u8, 114u8, 116u8]),  // short
            TokenKind::KwInt => Some(seq![105u8, 110u8, 116u8]),  // int
            TokenKind::KwLong => Some(seq![108u8, 111u8, 110u8, 103u8]),  // long
            TokenKind::KwChar => Some(seq![99u8, 104u8, 97u8, 114u8]),  // char
            TokenKind::KwFloat => Some(seq![102u8, 108u8, 111u8, 97u8, 116u8]),  // float
            TokenKind::KwLet => Some(seq![108u8, 101u8, 116u8]),  // let
            TokenKind::KwConst => Some(seq![99u8, 111u8, 110u8, 115u8, 116u8]),  // const
            TokenKind::KwFn => Some(seq![102u8, 110u8]),  // fn
            TokenKind::KwIf => Some(seq![105u8, 102u8]),  // if
            TokenKind::KwElse => Some(seq![101u8, 108u8, 115u8, 101u8]),  // else
            TokenKind::KwRtn => Some(seq![114u8, 116u8, 110u8]),  // rtn
            TokenKind::KwClass => Some(seq![99u8, 108u8, 97u8, 115u8, 115u8]),  // class
            TokenKind::KwStruct => Some(seq![115u8, 116u8, 114u8, 117u8, 99u8, 116u8]),  // struct
            TokenKind::KwAlias => Some(seq![116u8, 121u8, 112u8, 101u8, 97u8, 108u8, 105u8, 97u8, 115u8]),  // typealias
            TokenKind::KwEnum => Some(seq![101u8, 110u8, 117u8, 109u8]),  // enum
            TokenKind::KwUnion => Some(seq![117u8, 110u8, 105u8, 111u8, 110u8]),  // union
            TokenKind::CompKwDefine => Some(seq![35u8, 100u8, 101u8, 102u8, 105u8, 110u8, 101u8]),  // #define
            TokenKind::CompKwSizeof => Some(seq![35u8, 115u8, 105u8, 122u8, 101u8, 111u8, 102u8]),  // #sizeof
            _ => None,
        }
    }

    /// The name of the variant, as `{:?}` writes it.
    pub open spec fn spec_name(self) -> Seq<char> {
        match self {
            TokenKind::Equal => "Equal"@,
            TokenKind::NotEqual => "NotEqual"@,
            TokenKind::Greater => "Greater"@,
            TokenKind::GreaterEqual => "GreaterEqual"@,
            TokenKind::Lesser => "Lesser"@,
            TokenKind::LesserEqual => "LesserEqual"@,
            TokenKind::Assign => "Assign"@,
            TokenKind::Add => "Add"@,
            TokenKind::AddAssign => "AddAssign"@,
            TokenKind::Increment => "Increment"@,
            TokenKind::Sub => "Sub"@,
            TokenKind::SubAssign => "SubAssign"@,
            TokenKind::Decrement => "Decrement"@,
            TokenKind::Star => "Star"@,
            TokenKind::MulAssign => "MulAssign"@,
            TokenKind::Div => "Div"@,
            TokenKind::DivAssign => "DivAssign"@,
            TokenKind::Semicolon => "Semicolon"@,
            TokenKind::OpenParen => "OpenParen"@,
            TokenKind::CloseParen => "CloseParen"@,
            TokenKind::OpenBracket => "OpenBracket"@,
            TokenKind::CloseBracket => "CloseBracket"@,
            TokenKind::OpenBody => "OpenBody"@,
            TokenKind::CloseBody => "CloseBody"@,
            TokenKind::KwVoid => "KwVoid"@,
            TokenKind::KwUnsigned => "KwUnsigned"@,
            TokenKind::KwByte => "KwByte"@,
            TokenKind::KwShort => "KwShort"@,
            TokenKind::KwInt => "KwInt"@,
            TokenKind::KwLong => "KwLong"@,
            TokenKind::KwChar => "KwChar"@,
            TokenKind::KwFloat => "KwFloat"@,
            TokenKind::KwLet => "KwLet"@,
            TokenKind::KwConst => "KwConst"@,
            TokenKind::KwFn => "KwFn"@,
            TokenKind::KwIf => "KwIf"@,
            TokenKind::KwElse => "KwElse"@,
            TokenKind::KwRtn => "KwRtn"@,
            TokenKind::KwClass => "KwClass"@,
            TokenKind::KwStruct => "KwStruct"@,
            TokenKind::KwAlias => "KwAlias"@,
            TokenKind::KwEnum => "KwEnum"@,
            TokenKind::KwUnion => "KwUnion"@,
            TokenKind::CompKwDefine => "CompKwDefine"@,
            TokenKind::CompKwSizeof => "CompKwSizeof"@,
            TokenKind::Identifier => "Identifier"@,
            TokenKind::IntegerLiteral => "IntegerLiteral"@,
            TokenKind::FloatLiteral => "FloatLiteral"@,
            TokenKind::StringLiteral => "StringLiteral"@,
            TokenKind::EOF => "EOF"@,
        }
    }

    /// The name of the variant, as `{:?}` writes it.
    pub fn name(&self) -> (s: &'static str)
        ensures
            s@ == self.spec_name(),
    {
        match self {
            TokenKind::Equal => "Equal",
            TokenKind::NotEqual => "NotEqual",
            TokenKind::Greater => "Greater",
            TokenKind::GreaterEqual => "GreaterEqual",
            TokenKind::Lesser => "Lesser",
            TokenKind::LesserEqual => "LesserEqual",
            TokenKind::Assign => "Assign",
            TokenKind::Add => "Add",
            TokenKind::AddAssign => "AddAssign",
            TokenKind::Increment => "Increment",
            TokenKind::Sub => "Sub",
            TokenKind::SubAssign => "SubAssign",
            TokenKind::Decrement => "Decrement",
            TokenKind::Star => "Star",
            TokenKind::MulAssign => "MulAssign",
            TokenKind::Div => "Div",
            TokenKind::DivAssign => "DivAssign",
            TokenKind::Semicolon => "Semicolon",
            TokenKind::OpenParen => "OpenParen",
            TokenKind::CloseParen => "CloseParen",
            TokenKind::OpenBracket => "OpenBracket",
            TokenKind::CloseBracket => "CloseBracket",
            TokenKind::OpenBody => "OpenBody",
            TokenKind::CloseBody => "CloseBody",
            TokenKind::KwVoid => "KwVoid",
            TokenKind::KwUnsigned => "KwUnsigned",
            TokenKind::KwByte => "KwByte",
            TokenKind::KwShort => "KwShort",
            TokenKind::KwInt => "KwInt",
            TokenKind::KwLong => "KwLong",
            TokenKind::KwChar => "KwChar",
            TokenKind::KwFloat => "KwFloat",
            TokenKind::KwLet => "KwLet",
            TokenKind::KwConst => "KwConst",
            TokenKind::KwFn => "KwFn",
            TokenKind::KwIf => "KwIf",
            TokenKind::KwElse => "KwElse",
            TokenKind::KwRtn => "KwRtn",
            TokenKind::KwClass => "KwClass",
            TokenKind::KwStruct => "KwStruct",
            TokenKind::KwAlias => "KwAlias",
            TokenKind::KwEnum => "KwEnum",
            TokenKind::KwUnion => "KwUnion",
            TokenKind::CompKwDefine => "CompKwDefine",
            TokenKind::CompKwSizeof => "CompKwSizeof",
            TokenKind::Identifier => "Identifier",
            TokenKind::IntegerLiteral => "IntegerLiteral",
            TokenKind::FloatLiteral => "FloatLiteral",
            TokenKind::StringLiteral => "StringLiteral",
            TokenKind::EOF => "EOF",
        }
    }
}

/// A token: its kind and the bytes of the source that it covers.
#[derive(Clone, Copy, Debug, PartialEq, Eq, Structural)]
pub struct Token {
    pub kind: TokenKind,
    pub span: Span,
}

} // verus!
