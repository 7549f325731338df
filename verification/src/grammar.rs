//! What each parsing step does, as functions on the token sequence and a
//! position in it. A step yields `None` when it never returns: the parser
//! would call itself, or loop, without consuming a token.
use vstd::prelude::*;
use crate::error::{ErrorKind, ErrorView, ParseError};
use crate::node::{DataV, NodeV, TypeBaseV, TypeV};
use crate::token::{Span, Token, TokenKind};

verus! {

/// What a parsing step returns, where it leaves the position, and the errors
/// it reports, in order.
pub struct Outcome<T> {
    pub value: Result<T, ParseError>,
    pub pos: nat,
    pub log: Seq<ErrorView>,
}

pub open spec fn done<T>(value: T, pos: nat, log: Seq<ErrorView>) -> Option<Outcome<T>> {
    Some(Outcome { value: Ok(value), pos, log })
}

pub open spec fn failed<T>(e: ParseError, pos: nat, log: Seq<ErrorView>) -> Option<Outcome<T>> {
    Some(Outcome { value: Err(e), pos, log })
}

/// The outcome `o`, with `before` reported ahead of its own errors.
pub open spec fn after_log<T>(before: Seq<ErrorView>, o: Option<Outcome<T>>) -> Option<Outcome<T>> {
    match o {
        Some(o) => Some(Outcome { value: o.value, pos: o.pos, log: before + o.log }),
        None => None,
    }
}

/// Reporting `a` then `b` ahead of an outcome is reporting `a + b` ahead of it.
pub proof fn lemma_after_log_assoc<T>(a: Seq<ErrorView>, b: Seq<ErrorView>, o: Option<Outcome<T>>)
    ensures
        after_log(a, after_log(b, o)) == after_log(a + b, o),
{
    if let Some(x) = o {
        assert(a + (b + x.log) =~= (a + b) + x.log);
    }
}

/// The token at `p`, or the last token once `p` is past the end.
pub open spec fn peek_at(toks: Seq<Token>, p: nat) -> Token {
    if p >= toks.len() {
        toks.last()
    } else {
        toks[p as int]
    }
}

/// The position after consuming one token at `p`; it stays put at the end.
pub open spec fn next_pos(toks: Seq<Token>, p: nat) -> nat {
    if p >= toks.len() {
        p
    } else {
        p + 1
    }
}

/// How many tokens are left from `p`.
pub open spec fn remaining(toks: Seq<Token>, p: nat) -> nat {
    if p < toks.len() {
        (toks.len() - p) as nat
    } else {
        0
    }
}

pub open spec fn parse_error(message: Seq<char>, e: ParseError, span: Span) -> ErrorView {
    ErrorView { message, kind: ErrorKind::Parse(e), span }
}

pub open spec fn unexpected(message: Seq<char>, span: Span) -> Seq<ErrorView> {
    seq![parse_error(message, ParseError::UnexpectedToken, span)]
}

/// Binding strength of a binary operator; 0 for every other kind.
pub open spec fn importance(k: TokenKind) -> u8 {
    match k {
        TokenKind::Assign | TokenKind::AddAssign | TokenKind::SubAssign | TokenKind::MulAssign
        | TokenKind::DivAssign => 1,
        TokenKind::Equal | TokenKind::NotEqual | TokenKind::Greater | TokenKind::GreaterEqual
        | TokenKind::Lesser | TokenKind::LesserEqual => 4,
        TokenKind::Add | TokenKind::Sub => 5,
        TokenKind::Star | TokenKind::Div => 6,
        _ => 0,
    }
}

/// `7 - min`, as a measure that falls as the minimum importance rises.
pub open spec fn rank(min: u8) -> nat {
    if min >= 7 {
        0
    } else {
        (7 - min) as nat
    }
}

/// The kinds that error recovery stops at.
pub open spec fn is_sync_kind(k: TokenKind) -> bool {
    match k {
        TokenKind::KwLet | TokenKind::KwConst | TokenKind::KwElse | TokenKind::KwIf
        | TokenKind::KwAlias | TokenKind::KwStruct | TokenKind::KwUnion | TokenKind::KwEnum
        | TokenKind::KwRtn | TokenKind::EOF | TokenKind::CompKwDefine | TokenKind::CompKwSizeof
        | TokenKind::KwFn => true,
        _ => false,
    }
}

/// Consume one token and require it to be of kind `k`.
pub open spec fn expect_spec(toks: Seq<Token>, p: nat, k: TokenKind) -> Outcome<Token> {
    let t = peek_at(toks, p);
    if t.kind == k {
        Outcome { value: Ok(t), pos: next_pos(toks, p), log: seq![] }
    } else {
        Outcome {
            value: Err(ParseError::UnexpectedToken),
            pos: next_pos(toks, p),
            log: unexpected("expected "@ + k.spec_name(), t.span),
        }
    }
}

pub open spec fn binary(lhs: NodeV, op: TokenKind, rhs: NodeV) -> NodeV {
    NodeV {
        span: Span { start: lhs.span.start, end: rhs.span.end },
        data: DataV::BinaryOp { lhs: Box::new(lhs), op, rhs: Box::new(rhs) },
    }
}

/// The first operand of an expression: a name, a literal or a parenthesized
/// expression.
pub open spec fn expr_head_spec(toks: Seq<Token>, p: nat) -> Option<Outcome<NodeV>>
    decreases remaining(toks, p), 0nat, 2nat,
{
    let t = peek_at(toks, p);
    let p1 = next_pos(toks, p);
    let leaf = |d: DataV| NodeV { data: d, span: t.span };
    match t.kind {
        TokenKind::Identifier => done(leaf(DataV::Identifier((p1 - 1) as usize)), p1, seq![]),
        TokenKind::IntegerLiteral => done(leaf(DataV::Integer((p1 - 1) as usize)), p1, seq![]),
        TokenKind::FloatLiteral => done(leaf(DataV::Integer((p1 - 1) as usize)), p1, seq![]),
        TokenKind::StringLiteral => done(leaf(DataV::String((p1 - 1) as usize)), p1, seq![]),
        TokenKind::OpenParen => if p >= toks.len() {
            None
        } else {
            match expr_spec(toks, p1, 0) {
                None => None,
                Some(inner) => match inner.value {
                    Err(e) => failed(e, inner.pos, inner.log),
                    Ok(e) => {
                        let c = expect_spec(toks, inner.pos, TokenKind::CloseParen);
                        match c.value {
                            Err(err) => failed(err, c.pos, inner.log + c.log),
                            Ok(close) => done(
                                NodeV { data: e.data, span: Span { start: e.span.start, end: close.span.end } },
                                c.pos,
                                inner.log + c.log,
                            ),
                        }
                    },
                },
            }
        },
        _ => failed(ParseError::UnexpectedToken, p1, unexpected("expected expression"@, t.span)),
    }
}

/// An expression whose operators all bind more strongly than `min`.
pub open spec fn expr_spec(toks: Seq<Token>, p: nat, min: u8) -> Option<Outcome<NodeV>>
    decreases remaining(toks, p), rank(min), 3nat,
{
    match expr_head_spec(toks, p) {
        None => None,
        Some(h) => match h.value {
            Err(_) => Some(h),
            Ok(lhs) => if h.pos >= next_pos(toks, p) {
                after_log(h.log, expr_loop_spec(toks, h.pos, min, lhs))
            } else {
                None
            },
        },
    }
}

/// The operator loop of an expression, with `lhs` parsed up to `q`.
pub open spec fn expr_loop_spec(toks: Seq<Token>, q: nat, min: u8, lhs: NodeV) -> Option<Outcome<NodeV>>
    decreases remaining(toks, q), rank(min), 0nat,
{
    let op = peek_at(toks, q);
    let imp = importance(op.kind);
    if op.kind == TokenKind::EOF || imp == 0 || imp <= min {
        done(lhs, q, seq![])
    } else {
        match expr_spec(toks, next_pos(toks, q), imp) {
            None => None,
            Some(r) => match r.value {
                Err(e) => failed(e, r.pos, r.log),
                Ok(rhs) => if r.pos > q && q < toks.len() {
                    after_log(r.log, expr_loop_spec(toks, r.pos, min, binary(lhs, op.kind, rhs)))
                } else {
                    None
                },
            },
        }
    }
}

pub open spec fn plain(base: TypeBaseV) -> TypeV {
    TypeV { base, unsigned: false, long: false }
}

/// The modifiers and base of a type.
pub open spec fn type_head_spec(toks: Seq<Token>, p: nat) -> Option<Outcome<TypeV>>
    decreases remaining(toks, p), 1nat,
{
    let t = peek_at(toks, p);
    let p1 = next_pos(toks, p);
    match t.kind {
        TokenKind::KwLong => if p >= toks.len() {
            None
        } else {
            match type_spec(toks, p1) {
                None => None,
                Some(o) => match o.value {
                    Err(e) => failed(e, o.pos, o.log),
                    Ok(next) => if next.long {
                        failed(
                            ParseError::UnexpectedTypeDuplicate,
                            o.pos,
                            o.log.push(parse_error("unexpected duplicate 'long'"@, ParseError::UnexpectedTypeDuplicate, t.span)),
                        )
                    } else {
                        done(TypeV { long: true, ..next }, o.pos, o.log)
                    },
                },
            }
        },
        TokenKind::KwUnsigned => if p >= toks.len() {
            None
        } else {
            match type_spec(toks, p1) {
                None => None,
                Some(o) => match o.value {
                    Err(e) => failed(e, o.pos, o.log),
                    Ok(next) => if next.unsigned {
                        failed(
                            ParseError::UnexpectedTypeDuplicate,
                            o.pos,
                            o.log.push(parse_error("unexpected duplicate 'unsigned'"@, ParseError::UnexpectedTypeDuplicate, t.span)),
                        )
                    } else {
                        done(TypeV { unsigned: true, ..next }, o.pos, o.log)
                    },
                },
            }
        },
        TokenKind::KwInt => done(plain(TypeBaseV::Int), p1, seq![]),
        TokenKind::KwChar => done(plain(TypeBaseV::Char), p1, seq![]),
        _ => failed(ParseError::UnexpectedToken, p1, unexpected("expected type statement"@, t.span)),
    }
}

/// A type: modifiers, a base, then `*` and `[expr]` suffixes.
pub open spec fn type_spec(toks: Seq<Token>, p: nat) -> Option<Outcome<TypeV>>
    decreases remaining(toks, p), 2nat,
{
    match type_head_spec(toks, p) {
        None => None,
        Some(h) => match h.value {
            Err(_) => Some(h),
            Ok(origin) => if h.pos >= next_pos(toks, p) {
                after_log(h.log, type_loop_spec(toks, h.pos, origin))
            } else {
                None
            },
        },
    }
}

/// The suffix loop of a type, with `origin` parsed up to `q`.
pub open spec fn type_loop_spec(toks: Seq<Token>, q: nat, origin: TypeV) -> Option<Outcome<TypeV>>
    decreases remaining(toks, q), 0nat,
{
    let t = peek_at(toks, q);
    if t.kind == TokenKind::Star {
        if q >= toks.len() {
            None
        } else {
            type_loop_spec(toks, q + 1, plain(TypeBaseV::Pointer(Box::new(origin))))
        }
    } else if t.kind == TokenKind::OpenBracket {
        match expr_spec(toks, next_pos(toks, q), 0) {
            None => None,
            Some(e) => match e.value {
                Err(err) => failed(err, e.pos, e.log),
                Ok(len) => {
                    let c = expect_spec(toks, e.pos, TokenKind::CloseBracket);
                    match c.value {
                        Err(err) => failed(err, c.pos, e.log + c.log),
                        Ok(_) => if c.pos > q && q < toks.len() {
                            after_log(
                                e.log + c.log,
                                type_loop_spec(toks, c.pos, plain(TypeBaseV::Array(Box::new(origin), Box::new(len)))),
                            )
                        } else {
                            None
                        },
                    }
                },
            },
        }
    } else {
        done(origin, q, seq![])
    }
}

/// `let`/`const`, a type, a name, `=` and an expression.
pub open spec fn var_spec(toks: Seq<Token>, p: nat, mutable: bool) -> Option<Outcome<NodeV>> {
    let kw = peek_at(toks, p);
    match type_spec(toks, next_pos(toks, p)) {
        None => None,
        Some(ty) => match ty.value {
            Err(e) => failed(e, ty.pos, ty.log),
            Ok(t) => {
                let name = ty.pos;
                let id = expect_spec(toks, name, TokenKind::Identifier);
                match id.value {
                    Err(e) => failed(e, id.pos, ty.log + id.log),
                    Ok(_) => {
                        let asg = expect_spec(toks, id.pos, TokenKind::Assign);
                        match asg.value {
                            Err(e) => failed(e, asg.pos, ty.log + id.log + asg.log),
                            Ok(_) => match expr_spec(toks, asg.pos, 0) {
                                None => None,
                                Some(v) => match v.value {
                                    Err(e) => failed(e, v.pos, ty.log + id.log + asg.log + v.log),
                                    Ok(value) => done(
                                        NodeV {
                                            span: Span { start: kw.span.start, end: value.span.end },
                                            data: DataV::VarDeclaration {
                                                name: name as usize,
                                                mutable,
                                                ty: Box::new(t),
                                                value: Box::new(value),
                                            },
                                        },
                                        v.pos,
                                        ty.log + id.log + asg.log + v.log,
                                    ),
                                },
                            },
                        }
                    },
                }
            },
        },
    }
}

/// The node of a parameter starting at `q`, its name at `name`, followed by
/// the token at `after`.
pub open spec fn param_node(toks: Seq<Token>, q: nat, name: nat, after: nat, t: TypeV) -> NodeV {
    NodeV {
        span: Span { start: peek_at(toks, q).span.start, end: peek_at(toks, after).span.end },
        data: DataV::FnParameter { ty: Box::new(t), name: name as usize },
    }
}

/// The parameters of a function, up to (not including) `)` or the end.
pub open spec fn params_spec(toks: Seq<Token>, q: nat, acc: Option<Seq<NodeV>>) -> Option<Outcome<Option<Seq<NodeV>>>>
    decreases remaining(toks, q),
{
    if q >= toks.len() || peek_at(toks, q).kind == TokenKind::CloseParen {
        done(acc, q, seq![])
    } else {
        match type_spec(toks, q) {
            None => None,
            Some(ty) => match ty.value {
                Err(e) => failed(e, ty.pos, ty.log),
                Ok(t) => {
                    let id = expect_spec(toks, ty.pos, TokenKind::Identifier);
                    match id.value {
                        Err(e) => failed(e, id.pos, ty.log + id.log),
                        Ok(_) => {
                            let param = param_node(toks, q, ty.pos, id.pos, t);
                            let acc2 = match acc {
                                Some(ps) => Some(ps.push(param)),
                                None => Some(seq![param]),
                            };
                            if id.pos > q {
                                after_log(ty.log + id.log, params_spec(toks, id.pos, acc2))
                            } else {
                                None
                            }
                        },
                    }
                },
            },
        }
    }
}

/// A statement: a `const` or `let` declaration.
pub open spec fn stmt_spec(toks: Seq<Token>, p: nat) -> Option<Outcome<NodeV>> {
    let t = peek_at(toks, p);
    match t.kind {
        TokenKind::KwConst => var_spec(toks, p, false),
        TokenKind::KwLet => var_spec(toks, p, true),
        _ => failed(ParseError::UnexpectedToken, p, unexpected("expected statement"@, t.span)),
    }
}

/// The statements of a function body, up to (not including) `}` or the end.
pub open spec fn body_spec(toks: Seq<Token>, q: nat, acc: Seq<NodeV>) -> Option<Outcome<Seq<NodeV>>>
    decreases remaining(toks, q),
{
    if q >= toks.len() || peek_at(toks, q).kind == TokenKind::CloseBody {
        done(acc, q, seq![])
    } else {
        match stmt_spec(toks, q) {
            None => None,
            Some(s) => match s.value {
                Err(e) => failed(e, s.pos, s.log),
                Ok(stmt) => if s.pos > q {
                    after_log(s.log, body_spec(toks, s.pos, acc.push(stmt)))
                } else {
                    None
                },
            },
        }
    }
}

/// The optional parenthesized parameter list of a function, at `q`.
pub open spec fn fn_params_spec(toks: Seq<Token>, q: nat) -> Option<Outcome<Option<Seq<NodeV>>>> {
    if peek_at(toks, q).kind == TokenKind::OpenParen {
        match params_spec(toks, next_pos(toks, q), None) {
            None => None,
            Some(ps) => match ps.value {
                Err(e) => failed(e, ps.pos, ps.log),
                Ok(list) => {
                    let close = expect_spec(toks, ps.pos, TokenKind::CloseParen);
                    match close.value {
                        Err(e) => failed(e, close.pos, ps.log + close.log),
                        Ok(_) => done(list, close.pos, ps.log + close.log),
                    }
                },
            },
        }
    } else {
        done(None, q, seq![])
    }
}

/// A function body in braces, at `q`.
pub open spec fn fn_body_spec(toks: Seq<Token>, q: nat) -> Option<Outcome<(Seq<NodeV>, Token)>> {
    let open = expect_spec(toks, q, TokenKind::OpenBody);
    match open.value {
        Err(e) => failed(e, open.pos, open.log),
        Ok(_) => match body_spec(toks, open.pos, seq![]) {
            None => None,
            Some(b) => match b.value {
                Err(e) => failed(e, b.pos, open.log + b.log),
                Ok(body) => {
                    let end = expect_spec(toks, b.pos, TokenKind::CloseBody);
                    match end.value {
                        Err(e) => failed(e, end.pos, open.log + b.log + end.log),
                        Ok(close) => done((body, close), end.pos, open.log + b.log + end.log),
                    }
                },
            },
        },
    }
}

/// The part of a function declaration from its parameter list on, with the
/// return type `rt`, the name at `name` and the position `q` after the name.
pub open spec fn fn_rest_spec(toks: Seq<Token>, q: nat, kw: Token, name: nat, rt: TypeV) -> Option<Outcome<NodeV>> {
    match fn_params_spec(toks, q) {
        None => None,
        Some(ps) => match ps.value {
            Err(e) => failed(e, ps.pos, ps.log),
            Ok(list) => match fn_body_spec(toks, ps.pos) {
                None => None,
                Some(b) => match b.value {
                    Err(e) => failed(e, b.pos, ps.log + b.log),
                    Ok((body, close)) => done(
                        NodeV {
                            data: DataV::FnDeclaration {
                                name: name as usize,
                                params: list,
                                return_type: Box::new(rt),
                                body,
                            },
                            span: Span { start: kw.span.start, end: close.span.end },
                        },
                        b.pos,
                        ps.log + b.log,
                    ),
                },
            },
        },
    }
}

/// `fn`, a return type, a name (reported, not required), an optional
/// parameter list and a body in braces.
pub open spec fn fn_spec(toks: Seq<Token>, p: nat) -> Option<Outcome<NodeV>> {
    let kw = peek_at(toks, p);
    match type_spec(toks, next_pos(toks, p)) {
        None => None,
        Some(ty) => match ty.value {
            Err(e) => failed(e, ty.pos, ty.log),
            Ok(rt) => {
                let id = expect_spec(toks, ty.pos, TokenKind::Identifier);
                after_log(ty.log + id.log, fn_rest_spec(toks, id.pos, kw, ty.pos, rt))
            },
        },
    }
}

/// A top-level item: a `const`, `fn` or `let` declaration.
pub open spec fn item_spec(toks: Seq<Token>, p: nat) -> Option<Outcome<NodeV>> {
    let t = peek_at(toks, p);
    match t.kind {
        TokenKind::KwConst => var_spec(toks, p, false),
        TokenKind::KwFn => fn_spec(toks, p),
        TokenKind::KwLet => var_spec(toks, p, true),
        _ => failed(ParseError::UnexpectedToken, p, unexpected("unexpected top-level statement"@, t.span)),
    }
}

/// Where error recovery from `p` stops: the first token at or after `p` of a
/// recovery kind, or the end.
pub open spec fn sync_pos(toks: Seq<Token>, p: nat) -> nat
    decreases remaining(toks, p),
{
    if p >= toks.len() || is_sync_kind(toks[p as int].kind) {
        p
    } else {
        sync_pos(toks, p + 1)
    }
}

/// The whole token sequence from `p`: the items parsed, the errors reported
/// and the final position. `None` when an item fails and recovery does not
/// move, so that the same failure repeats forever.
pub open spec fn run_spec(toks: Seq<Token>, p: nat) -> Option<(Seq<NodeV>, Seq<ErrorView>, nat)>
    decreases remaining(toks, p),
{
    if p >= toks.len() {
        Some((seq![], seq![], p))
    } else {
        match item_spec(toks, p) {
            None => None,
            Some(o) => {
                let (items, q) = match o.value {
                    Ok(n) => (seq![n], o.pos),
                    Err(_) => (Seq::<NodeV>::empty(), sync_pos(toks, o.pos)),
                };
                if q <= p {
                    None
                } else {
                    match run_spec(toks, q) {
                        None => None,
                        Some((rest, errs, end)) => Some((items + rest, o.log + errs, end)),
                    }
                }
            },
        }
    }
}

} // verus!
