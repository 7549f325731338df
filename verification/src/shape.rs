//! What the parse of each construct looks like, in terms of the tokens it
//! is read from: operator strengths and grouping, type modifiers, and which
//! declarations are mutable.
use vstd::prelude::*;
use crate::grammar::{
    binary, done, expr_spec, importance, is_sync_kind, item_spec, next_pos, peek_at, stmt_spec,
    type_spec, var_spec,
};
use crate::error::ParseError;
use crate::node::{DataV, NodeV, TypeBaseV, TypeV};
use crate::progress::{lemma_type_moves, lemma_type_stops};
use crate::token::{Token, TokenKind};

verus! {

/// The binding strengths of the binary operators: the assignments bind
/// weakest (1), then the comparisons, which all bind alike (4), then `+` and
/// `-` (5), then `*` and `/` (6); every other kind is no binary operator (0).
pub proof fn lemma_binding_strengths(k: TokenKind)
    ensures
        importance(TokenKind::Assign) == 1,
        importance(TokenKind::AddAssign) == 1,
        importance(TokenKind::SubAssign) == 1,
        importance(TokenKind::MulAssign) == 1,
        importance(TokenKind::DivAssign) == 1,
        importance(TokenKind::Equal) == 4,
        importance(TokenKind::NotEqual) == 4,
        importance(TokenKind::Greater) == 4,
        importance(TokenKind::GreaterEqual) == 4,
        importance(TokenKind::Lesser) == 4,
        importance(TokenKind::LesserEqual) == 4,
        importance(TokenKind::Add) == 5,
        importance(TokenKind::Sub) == 5,
        importance(TokenKind::Star) == 6,
        importance(TokenKind::Div) == 6,
        importance(k) == 0 <==> !(k == TokenKind::Assign || k == TokenKind::AddAssign
            || k == TokenKind::SubAssign || k == TokenKind::MulAssign || k == TokenKind::DivAssign
            || k == TokenKind::Equal || k == TokenKind::NotEqual || k == TokenKind::Greater
            || k == TokenKind::GreaterEqual || k == TokenKind::Lesser || k == TokenKind::LesserEqual
            || k == TokenKind::Add || k == TokenKind::Sub || k == TokenKind::Star
            || k == TokenKind::Div),
{
}

/// The node of the name at `p`.
pub open spec fn name_leaf(toks: Seq<Token>, p: nat) -> NodeV {
    NodeV { data: DataV::Identifier(p as usize), span: toks[p as int].span }
}

/// `x op1 y op2 z`, three names and two binary operators followed by a token
/// that is no operator, parses as one expression up to that token: grouped
/// `(x op1 y) op2 z` when `op2` binds no more strongly than `op1`, and
/// `x op1 (y op2 z)` when it binds more strongly.
pub proof fn lemma_two_operators(toks: Seq<Token>, p: nat)
    requires
        p + 5 < toks.len(),
        toks[p as int].kind == TokenKind::Identifier,
        toks[p as int + 2].kind == TokenKind::Identifier,
        toks[p as int + 4].kind == TokenKind::Identifier,
        importance(toks[p as int + 1].kind) > 0,
        importance(toks[p as int + 3].kind) > 0,
        importance(toks[p as int + 5].kind) == 0,
    ensures
        ({
            let x = name_leaf(toks, p);
            let y = name_leaf(toks, p + 2);
            let z = name_leaf(toks, p + 4);
            let op1 = toks[p as int + 1].kind;
            let op2 = toks[p as int + 3].kind;
            let tree = if importance(op2) <= importance(op1) {
                binary(binary(x, op1, y), op2, z)
            } else {
                binary(x, op1, binary(y, op2, z))
            };
            expr_spec(toks, p, 0) == done(tree, p + 5, seq![])
        }),
{
    let x = name_leaf(toks, p);
    let y = name_leaf(toks, p + 2);
    let z = name_leaf(toks, p + 4);
    let op1 = toks[p as int + 1].kind;
    let op2 = toks[p as int + 3].kind;
    let i1 = importance(op1);
    let i2 = importance(op2);
    assert(op1 != TokenKind::EOF && op2 != TokenKind::EOF);
    assert(peek_at(toks, p) == toks[p as int]);
    assert(peek_at(toks, p + 1) == toks[p as int + 1]);
    assert(peek_at(toks, p + 2) == toks[p as int + 2]);
    assert(peek_at(toks, p + 3) == toks[p as int + 3]);
    assert(peek_at(toks, p + 4) == toks[p as int + 4]);
    assert(peek_at(toks, p + 5) == toks[p as int + 5]);
    assert(crate::grammar::expr_head_spec(toks, p + 4) == done(z, p + 5, seq![]));
    assert(crate::grammar::expr_head_spec(toks, p + 2) == done(y, p + 3, seq![]));
    assert(crate::grammar::expr_head_spec(toks, p) == done(x, p + 1, seq![]));
    if i2 <= i1 {
        let xy = binary(x, op1, y);
        let t = binary(xy, op2, z);
        assert(crate::grammar::expr_loop_spec(toks, p + 5, 0, t) == done(t, p + 5, seq![]));
        assert(crate::grammar::expr_loop_spec(toks, p + 5, i2, z) == done(z, p + 5, seq![]));
        assert(expr_spec(toks, p + 4, i2) == done(z, p + 5, seq![]));
        assert(crate::grammar::expr_loop_spec(toks, p + 3, 0, xy) == done(t, p + 5, seq![]));
        assert(crate::grammar::expr_loop_spec(toks, p + 3, i1, y) == done(y, p + 3, seq![]));
        assert(expr_spec(toks, p + 2, i1) == done(y, p + 3, seq![]));
        assert(crate::grammar::expr_loop_spec(toks, p + 1, 0, x) == done(t, p + 5, seq![]));
    } else {
        let yz = binary(y, op2, z);
        let t = binary(x, op1, yz);
        assert(crate::grammar::expr_loop_spec(toks, p + 5, i2, z) == done(z, p + 5, seq![]));
        assert(expr_spec(toks, p + 4, i2) == done(z, p + 5, seq![]));
        assert(crate::grammar::expr_loop_spec(toks, p + 5, i1, yz) == done(yz, p + 5, seq![]));
        assert(crate::grammar::expr_loop_spec(toks, p + 3, i1, y) == done(yz, p + 5, seq![]));
        assert(expr_spec(toks, p + 2, i1) == done(yz, p + 5, seq![]));
        assert(crate::grammar::expr_loop_spec(toks, p + 5, 0, t) == done(t, p + 5, seq![]));
        assert(crate::grammar::expr_loop_spec(toks, p + 1, 0, x) == done(t, p + 5, seq![]));
    }
}

/// How a type parsed after a modifier keyword relates to the type parsed
/// after it: the same base, the same other flag and the modifier's flag set;
/// or a duplicate-modifier error when the type after it already had that
/// flag; or the same error as that type's. Both end at the same position.
pub open spec fn modified(inner: Option<crate::grammar::Outcome<TypeV>>, outer: Option<crate::grammar::Outcome<TypeV>>, long: bool) -> bool {
    &&& outer is Some
    &&& outer.unwrap().pos == inner.unwrap().pos
    &&& match (inner.unwrap().value, outer.unwrap().value) {
        (Ok(t), Ok(r)) => {
            &&& r.base == t.base
            &&& if long {
                !t.long && r.long && r.unsigned == t.unsigned
            } else {
                !t.unsigned && r.unsigned && r.long == t.long
            }
        },
        (Ok(t), Err(e)) => e == ParseError::UnexpectedTypeDuplicate && (if long { t.long } else { t.unsigned }),
        (Err(e1), Err(e2)) => e1 == e2,
        (Err(_), Ok(_)) => false,
    }
}

/// `long T` is the type `T` with the long flag set, and nothing else
/// changed; `long` before a type that is already long is a duplicate.
pub proof fn lemma_long_type(toks: Seq<Token>, p: nat)
    requires
        p < toks.len(),
        toks[p as int].kind == TokenKind::KwLong,
        type_spec(toks, p + 1) is Some,
    ensures
        modified(type_spec(toks, p + 1), type_spec(toks, p), true),
{
    lemma_modifier_type(toks, p);
}

/// `unsigned T` is the type `T` with the unsigned flag set, and nothing else
/// changed; `unsigned` before a type that is already unsigned is a duplicate.
pub proof fn lemma_unsigned_type(toks: Seq<Token>, p: nat)
    requires
        p < toks.len(),
        toks[p as int].kind == TokenKind::KwUnsigned,
        type_spec(toks, p + 1) is Some,
    ensures
        modified(type_spec(toks, p + 1), type_spec(toks, p), false),
{
    lemma_modifier_type(toks, p);
}

proof fn lemma_modifier_type(toks: Seq<Token>, p: nat)
    requires
        p < toks.len(),
        toks[p as int].kind == TokenKind::KwLong || toks[p as int].kind == TokenKind::KwUnsigned,
        type_spec(toks, p + 1) is Some,
    ensures
        modified(type_spec(toks, p + 1), type_spec(toks, p), toks[p as int].kind == TokenKind::KwLong),
{
    assert(peek_at(toks, p) == toks[p as int]);
    assert(next_pos(toks, p) == p + 1);
    lemma_type_moves(toks, p + 1);
    lemma_type_stops(toks, p + 1);
    let o = type_spec(toks, p + 1).unwrap();
    let h = crate::grammar::type_head_spec(toks, p).unwrap();
    assert(h.pos == o.pos);
    if let Ok(r) = h.value {
        let k = peek_at(toks, o.pos).kind;
        assert(k != TokenKind::Star && k != TokenKind::OpenBracket);
        assert(crate::grammar::type_loop_spec(toks, o.pos, r) == done(r, o.pos, seq![]));
    }
}

/// Error recovery stops at exactly these kinds: the declaration and
/// definition keywords `let`, `const`, `fn`, `typealias`, `struct`, `union`,
/// `enum`, `#define`, `#sizeof`, the statement keywords `if`, `else`, `rtn`,
/// and `EOF`.
pub proof fn lemma_recovery_kinds(k: TokenKind)
    ensures
        is_sync_kind(k) <==> (k == TokenKind::KwLet || k == TokenKind::KwConst || k == TokenKind::KwFn
            || k == TokenKind::KwAlias || k == TokenKind::KwStruct || k == TokenKind::KwUnion
            || k == TokenKind::KwEnum || k == TokenKind::CompKwDefine || k == TokenKind::CompKwSizeof
            || k == TokenKind::KwIf || k == TokenKind::KwElse || k == TokenKind::KwRtn
            || k == TokenKind::EOF),
{
}

/// A name or literal at `p` that no operator binding more strongly than
/// `min` follows is a whole expression: a leaf that refers to token `p` and
/// has its span. A name gives an identifier, a string literal a string, and
/// an integer or float literal an integer leaf.
pub proof fn lemma_leaf_expr(toks: Seq<Token>, p: nat, min: u8)
    requires
        p + 1 < toks.len(),
        importance(toks[p as int + 1].kind) <= min,
        toks[p as int].kind == TokenKind::Identifier || toks[p as int].kind == TokenKind::IntegerLiteral
            || toks[p as int].kind == TokenKind::FloatLiteral || toks[p as int].kind == TokenKind::StringLiteral,
    ensures
        ({
            let k = toks[p as int].kind;
            let data = if k == TokenKind::Identifier {
                DataV::Identifier(p as usize)
            } else if k == TokenKind::StringLiteral {
                DataV::String(p as usize)
            } else {
                DataV::Integer(p as usize)
            };
            expr_spec(toks, p, min) == done(NodeV { data, span: toks[p as int].span }, p + 1, seq![])
        }),
{
    assert(peek_at(toks, p) == toks[p as int]);
    assert(peek_at(toks, p + 1) == toks[p as int + 1]);
}

/// `int` and `char` are plain types of that base, and a `*` after a type
/// makes a plain pointer to it.
pub proof fn lemma_base_types(toks: Seq<Token>, p: nat)
    requires
        p + 2 < toks.len(),
        toks[p as int].kind == TokenKind::KwInt || toks[p as int].kind == TokenKind::KwChar,
        toks[p as int + 2].kind != TokenKind::Star,
        toks[p as int + 2].kind != TokenKind::OpenBracket,
    ensures
        ({
            let base = if toks[p as int].kind == TokenKind::KwInt { TypeBaseV::Int } else { TypeBaseV::Char };
            let t = TypeV { base, unsigned: false, long: false };
            &&& toks[p as int + 1].kind == TokenKind::Star ==> type_spec(toks, p) == done(
                TypeV { base: TypeBaseV::Pointer(Box::new(t)), unsigned: false, long: false },
                p + 2,
                seq![],
            )
            &&& (toks[p as int + 1].kind != TokenKind::Star && toks[p as int + 1].kind != TokenKind::OpenBracket)
                ==> type_spec(toks, p) == done(t, p + 1, seq![])
        }),
{
    assert(peek_at(toks, p) == toks[p as int]);
    assert(peek_at(toks, p + 1) == toks[p as int + 1]);
    assert(peek_at(toks, p + 2) == toks[p as int + 2]);
    let base = if toks[p as int].kind == TokenKind::KwInt { TypeBaseV::Int } else { TypeBaseV::Char };
    let t = TypeV { base, unsigned: false, long: false };
    let ptr = TypeV { base: TypeBaseV::Pointer(Box::new(t)), unsigned: false, long: false };
    assert(crate::grammar::type_loop_spec(toks, p + 2, ptr) == done(ptr, p + 2, seq![]));
}

/// A declaration statement, in a function body, is mutable exactly when it
/// starts with `let`: one starting with `const` is not.
pub proof fn lemma_stmt_mutability(toks: Seq<Token>, p: nat)
    ensures
        stmt_spec(toks, p) matches Some(o) ==> (o.value matches Ok(n) ==> (
            n.data matches DataV::VarDeclaration { mutable, .. }
            && mutable == (peek_at(toks, p).kind == TokenKind::KwLet)
            && (peek_at(toks, p).kind == TokenKind::KwLet || peek_at(toks, p).kind == TokenKind::KwConst)
        )),
{
    lemma_var_node(toks, p, true);
    lemma_var_node(toks, p, false);
}

/// A top-level declaration that is not a function is mutable exactly when it
/// starts with `let`: one starting with `const` is not.
pub proof fn lemma_item_mutability(toks: Seq<Token>, p: nat)
    ensures
        item_spec(toks, p) matches Some(o) ==> (o.value matches Ok(n) ==> (
            peek_at(toks, p).kind != TokenKind::KwFn ==> (
                n.data matches DataV::VarDeclaration { mutable, .. }
                && mutable == (peek_at(toks, p).kind == TokenKind::KwLet)
                && (peek_at(toks, p).kind == TokenKind::KwLet || peek_at(toks, p).kind == TokenKind::KwConst)
            )
        )),
{
    lemma_var_node(toks, p, true);
    lemma_var_node(toks, p, false);
}

proof fn lemma_var_node(toks: Seq<Token>, p: nat, mutable: bool)
    ensures
        var_spec(toks, p, mutable) matches Some(o) ==> (o.value matches Ok(n) ==> (
            n.data matches DataV::VarDeclaration { mutable: m, .. } && m == mutable
        )),
{
}

} // verus!
