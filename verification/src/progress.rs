//! How far each parsing step moves, and when it is sure to return.
use vstd::prelude::*;
use crate::grammar::{
    body_spec, expect_spec, expr_head_spec, expr_loop_spec, expr_spec, fn_body_spec,
    fn_params_spec, fn_rest_spec, fn_spec, item_spec, next_pos, params_spec, remaining, rank, run_spec,
    stmt_spec, type_head_spec, type_loop_spec, type_spec, var_spec, sync_pos, importance, is_sync_kind,
};
use crate::node::{NodeV, TypeV};
use crate::token::{Token, TokenKind};

verus! {

/// The furthest a step from `p` can move: the end of the tokens, or `p` itself
/// once past it.
pub open spec fn bound(toks: Seq<Token>, p: nat) -> nat {
    if p >= toks.len() {
        p
    } else {
        toks.len()
    }
}

/// The last token cannot make the parser call itself, or loop, in place:
/// reading it again and again at the end of the tokens leads to an error.
pub open spec fn ends_safely(toks: Seq<Token>) -> bool {
    &&& toks.len() > 0
    &&& match toks.last().kind {
        TokenKind::OpenParen | TokenKind::KwLong | TokenKind::KwUnsigned | TokenKind::Star => false,
        _ => true,
    }
}

proof fn lemma_bound_trans(toks: Seq<Token>, p: nat, q: nat, r: nat)
    requires
        p <= q <= bound(toks, p),
        q <= r <= bound(toks, q),
    ensures
        p <= r <= bound(toks, p),
{
}

/// The first operand of an expression consumes at least the token it starts at.
pub proof fn lemma_expr_head_moves(toks: Seq<Token>, p: nat)
    ensures
        ends_safely(toks) ==> expr_head_spec(toks, p) is Some,
        expr_head_spec(toks, p) matches Some(o) ==> next_pos(toks, p) <= o.pos <= bound(toks, p),
        expr_head_spec(toks, p) matches Some(o) ==> (o.value is Err <==> o.log.len() > 0),
    decreases remaining(toks, p), 0nat, 2nat,
{
    if peek_kind(toks, p) == TokenKind::OpenParen && p < toks.len() {
        lemma_expr_moves(toks, p + 1, 0);
        if let Some(inner) = expr_spec(toks, p + 1, 0) {
            lemma_bound_trans(toks, p, p + 1, inner.pos);
            lemma_bound_trans(toks, p, inner.pos, next_pos(toks, inner.pos));
        }
    }
}

spec fn peek_kind(toks: Seq<Token>, p: nat) -> TokenKind {
    crate::grammar::peek_at(toks, p).kind
}

/// An expression consumes at least the token it starts at, and never moves
/// past the end of the tokens.
pub proof fn lemma_expr_moves(toks: Seq<Token>, p: nat, min: u8)
    ensures
        ends_safely(toks) ==> expr_spec(toks, p, min) is Some,
        expr_spec(toks, p, min) matches Some(o) ==> next_pos(toks, p) <= o.pos <= bound(toks, p),
        expr_spec(toks, p, min) matches Some(o) ==> (o.value is Err <==> o.log.len() > 0),
    decreases remaining(toks, p), rank(min), 3nat,
{
    lemma_expr_head_moves(toks, p);
    if let Some(h) = expr_head_spec(toks, p) {
        if let Ok(lhs) = h.value {
            lemma_expr_loop_moves(toks, h.pos, min, lhs);
            if let Some(o) = expr_loop_spec(toks, h.pos, min, lhs) {
                lemma_bound_trans(toks, p, h.pos, o.pos);
            }
        }
    }
}

/// The operator loop of an expression never moves back or past the end.
pub proof fn lemma_expr_loop_moves(toks: Seq<Token>, q: nat, min: u8, lhs: NodeV)
    ensures
        ends_safely(toks) ==> expr_loop_spec(toks, q, min, lhs) is Some,
        expr_loop_spec(toks, q, min, lhs) matches Some(o) ==> q <= o.pos <= bound(toks, q),
        expr_loop_spec(toks, q, min, lhs) matches Some(o) ==> (o.value is Err <==> o.log.len() > 0),
    decreases remaining(toks, q), rank(min), 0nat,
{
    let op = crate::grammar::peek_at(toks, q);
    let imp = importance(op.kind);
    if !(op.kind == TokenKind::EOF || imp == 0 || imp <= min) {
        let q1 = next_pos(toks, q);
        lemma_expr_moves(toks, q1, imp);
        if let Some(r) = expr_spec(toks, q1, imp) {
            if let Ok(rhs) = r.value {
                if q >= toks.len() {
                    assert(expr_head_spec(toks, q1).unwrap().value is Err);
                }
                lemma_bound_trans(toks, q, q1, r.pos);
                let next = crate::grammar::binary(lhs, op.kind, rhs);
                lemma_expr_loop_moves(toks, r.pos, min, next);
                if let Some(o) = expr_loop_spec(toks, r.pos, min, next) {
                    lemma_bound_trans(toks, q, r.pos, o.pos);
                }
            }
        }
    }
}

/// The modifiers and base of a type consume at least one token.
pub proof fn lemma_type_head_moves(toks: Seq<Token>, p: nat)
    ensures
        ends_safely(toks) ==> type_head_spec(toks, p) is Some,
        type_head_spec(toks, p) matches Some(o) ==> next_pos(toks, p) <= o.pos <= bound(toks, p),
        type_head_spec(toks, p) matches Some(o) ==> (o.value is Err <==> o.log.len() > 0),
    decreases remaining(toks, p), 1nat,
{
    let k = peek_kind(toks, p);
    if (k == TokenKind::KwLong || k == TokenKind::KwUnsigned) && p < toks.len() {
        lemma_type_moves(toks, p + 1);
        if let Some(o) = type_spec(toks, p + 1) {
            lemma_bound_trans(toks, p, p + 1, o.pos);
        }
    }
}

/// A type consumes at least one token, and never moves past the end.
pub proof fn lemma_type_moves(toks: Seq<Token>, p: nat)
    ensures
        ends_safely(toks) ==> type_spec(toks, p) is Some,
        type_spec(toks, p) matches Some(o) ==> next_pos(toks, p) <= o.pos <= bound(toks, p),
        type_spec(toks, p) matches Some(o) ==> (o.value is Err <==> o.log.len() > 0),
    decreases remaining(toks, p), 2nat,
{
    lemma_type_head_moves(toks, p);
    if let Some(h) = type_head_spec(toks, p) {
        if let Ok(origin) = h.value {
            lemma_type_loop_moves(toks, h.pos, origin);
            if let Some(o) = type_loop_spec(toks, h.pos, origin) {
                lemma_bound_trans(toks, p, h.pos, o.pos);
            }
        }
    }
}

/// The suffix loop of a type never moves back or past the end.
pub proof fn lemma_type_loop_moves(toks: Seq<Token>, q: nat, origin: TypeV)
    ensures
        ends_safely(toks) ==> type_loop_spec(toks, q, origin) is Some,
        type_loop_spec(toks, q, origin) matches Some(o) ==> q <= o.pos <= bound(toks, q),
        type_loop_spec(toks, q, origin) matches Some(o) ==> (o.value is Err <==> o.log.len() > 0),
    decreases remaining(toks, q), 0nat,
{
    let k = peek_kind(toks, q);
    if k == TokenKind::Star {
        if q < toks.len() {
            let next = crate::grammar::plain(crate::node::TypeBaseV::Pointer(Box::new(origin)));
            lemma_type_loop_moves(toks, q + 1, next);
            if let Some(o) = type_loop_spec(toks, q + 1, next) {
                lemma_bound_trans(toks, q, q + 1, o.pos);
            }
        }
    } else if k == TokenKind::OpenBracket {
        let q1 = next_pos(toks, q);
        lemma_expr_moves(toks, q1, 0);
        if let Some(e) = expr_spec(toks, q1, 0) {
            if let Ok(len) = e.value {
                if q >= toks.len() {
                    assert(expr_head_spec(toks, q1).unwrap().value is Err);
                }
                lemma_bound_trans(toks, q, q1, e.pos);
                let c = expect_spec(toks, e.pos, TokenKind::CloseBracket);
                lemma_bound_trans(toks, q, e.pos, c.pos);
                let next = crate::grammar::plain(
                    crate::node::TypeBaseV::Array(Box::new(origin), Box::new(len)),
                );
                lemma_type_loop_moves(toks, c.pos, next);
                if let Some(o) = type_loop_spec(toks, c.pos, next) {
                    lemma_bound_trans(toks, q, c.pos, o.pos);
                }
            }
        }
    }
}

/// A declaration consumes at least its keyword, and never moves past the end.
pub proof fn lemma_var_moves(toks: Seq<Token>, p: nat, mutable: bool)
    ensures
        ends_safely(toks) ==> var_spec(toks, p, mutable) is Some,
        var_spec(toks, p, mutable) matches Some(o) ==> next_pos(toks, p) <= o.pos <= bound(toks, p),
        var_spec(toks, p, mutable) matches Some(o) ==> (o.value is Err <==> o.log.len() > 0),
{
    let p1 = next_pos(toks, p);
    lemma_type_moves(toks, p1);
    if let Some(ty) = type_spec(toks, p1) {
        lemma_bound_trans(toks, p, p1, ty.pos);
        let id = expect_spec(toks, ty.pos, TokenKind::Identifier);
        lemma_bound_trans(toks, p, ty.pos, id.pos);
        let asg = expect_spec(toks, id.pos, TokenKind::Assign);
        lemma_bound_trans(toks, p, id.pos, asg.pos);
        lemma_expr_moves(toks, asg.pos, 0);
        if let Some(v) = expr_spec(toks, asg.pos, 0) {
            lemma_bound_trans(toks, p, asg.pos, v.pos);
        }
    }
}

/// A statement never moves back or past the end, and consumes at least one
/// token when it succeeds.
pub proof fn lemma_stmt_moves(toks: Seq<Token>, p: nat)
    ensures
        ends_safely(toks) ==> stmt_spec(toks, p) is Some,
        stmt_spec(toks, p) matches Some(o) ==> p <= o.pos <= bound(toks, p),
        stmt_spec(toks, p) matches Some(o) ==> (o.value is Err <==> o.log.len() > 0),
        stmt_spec(toks, p) matches Some(o) ==> (o.value is Ok ==> next_pos(toks, p) <= o.pos),
{
    lemma_var_moves(toks, p, false);
    lemma_var_moves(toks, p, true);
}

/// The parameter loop never moves back or past the end.
pub proof fn lemma_params_moves(toks: Seq<Token>, q: nat, acc: Option<Seq<NodeV>>)
    ensures
        ends_safely(toks) ==> params_spec(toks, q, acc) is Some,
        params_spec(toks, q, acc) matches Some(o) ==> q <= o.pos <= bound(toks, q),
        params_spec(toks, q, acc) matches Some(o) ==> (o.value is Err <==> o.log.len() > 0),
    decreases remaining(toks, q),
{
    if !(q >= toks.len() || peek_kind(toks, q) == TokenKind::CloseParen) {
        lemma_type_moves(toks, q);
        if let Some(ty) = type_spec(toks, q) {
            if let Ok(t) = ty.value {
                lemma_bound_trans(toks, q, ty.pos, next_pos(toks, ty.pos));
                let id = expect_spec(toks, ty.pos, TokenKind::Identifier);
                let param = crate::grammar::param_node(toks, q, ty.pos, id.pos, t);
                let acc2 = match acc {
                    Some(ps) => Some(ps.push(param)),
                    None => Some(seq![param]),
                };
                lemma_params_moves(toks, id.pos, acc2);
                if let Some(o) = params_spec(toks, id.pos, acc2) {
                    lemma_bound_trans(toks, q, id.pos, o.pos);
                }
            }
        }
    }
}

/// The statement loop of a body never moves back or past the end.
pub proof fn lemma_body_moves(toks: Seq<Token>, q: nat, acc: Seq<NodeV>)
    ensures
        ends_safely(toks) ==> body_spec(toks, q, acc) is Some,
        body_spec(toks, q, acc) matches Some(o) ==> q <= o.pos <= bound(toks, q),
        body_spec(toks, q, acc) matches Some(o) ==> (o.value is Err <==> o.log.len() > 0),
    decreases remaining(toks, q),
{
    if !(q >= toks.len() || peek_kind(toks, q) == TokenKind::CloseBody) {
        lemma_stmt_moves(toks, q);
        if let Some(s) = stmt_spec(toks, q) {
            if let Ok(stmt) = s.value {
                lemma_body_moves(toks, s.pos, acc.push(stmt));
                if let Some(o) = body_spec(toks, s.pos, acc.push(stmt)) {
                    lemma_bound_trans(toks, q, s.pos, o.pos);
                }
            }
        }
    }
}

/// A function declaration consumes at least its keyword, and never moves
/// past the end.
pub proof fn lemma_fn_moves(toks: Seq<Token>, p: nat)
    ensures
        ends_safely(toks) ==> fn_spec(toks, p) is Some,
        fn_spec(toks, p) matches Some(o) ==> next_pos(toks, p) <= o.pos <= bound(toks, p),
        fn_spec(toks, p) matches Some(o) ==> (o.value is Err ==> o.log.len() > 0),
{
    let p1 = next_pos(toks, p);
    lemma_type_moves(toks, p1);
    if let Some(ty) = type_spec(toks, p1) {
        if let Ok(rt) = ty.value {
            lemma_bound_trans(toks, p, p1, ty.pos);
            let id = expect_spec(toks, ty.pos, TokenKind::Identifier);
            let q = id.pos;
            lemma_bound_trans(toks, p, ty.pos, q);
            // the parameter list
            let q1 = next_pos(toks, q);
            lemma_bound_trans(toks, p, q, q1);
            lemma_params_moves(toks, q1, None);
            if let Some(ps) = params_spec(toks, q1, None) {
                lemma_bound_trans(toks, p, q1, ps.pos);
                lemma_bound_trans(toks, p, ps.pos, next_pos(toks, ps.pos));
            }
            if let Some(fp) = fn_params_spec(toks, q) {
                assert(p <= fp.pos <= bound(toks, p));
                // the body
                let open = expect_spec(toks, fp.pos, TokenKind::OpenBody);
                lemma_bound_trans(toks, p, fp.pos, open.pos);
                lemma_body_moves(toks, open.pos, seq![]);
                if let Some(b) = body_spec(toks, open.pos, seq![]) {
                    lemma_bound_trans(toks, p, open.pos, b.pos);
                    lemma_bound_trans(toks, p, b.pos, next_pos(toks, b.pos));
                }
                if let Some(fb) = fn_body_spec(toks, fp.pos) {
                    assert(p <= fb.pos <= bound(toks, p));
                }
            }
            assert(fn_rest_spec(toks, q, crate::grammar::peek_at(toks, p), ty.pos, rt) matches Some(o)
                ==> p1 <= o.pos <= bound(toks, p));
        }
    }
}

/// A top-level item never moves back or past the end, and consumes at least
/// one token when it succeeds.
pub proof fn lemma_item_moves(toks: Seq<Token>, p: nat)
    ensures
        ends_safely(toks) ==> item_spec(toks, p) is Some,
        item_spec(toks, p) matches Some(o) ==> p <= o.pos <= bound(toks, p),
        item_spec(toks, p) matches Some(o) ==> (o.value is Err ==> o.log.len() > 0),
        item_spec(toks, p) matches Some(o) ==> (o.value is Ok ==> next_pos(toks, p) <= o.pos),
{
    lemma_var_moves(toks, p, false);
    lemma_var_moves(toks, p, true);
    lemma_fn_moves(toks, p);
}

/// Error recovery never moves back or past the end, and stops at the end or
/// at a token of a recovery kind.
pub proof fn lemma_sync_moves(toks: Seq<Token>, p: nat)
    ensures
        p <= sync_pos(toks, p) <= bound(toks, p),
        sync_pos(toks, p) < toks.len() ==> is_sync_kind(toks[sync_pos(toks, p) as int].kind),
    decreases remaining(toks, p),
{
    if !(p >= toks.len() || is_sync_kind(toks[p as int].kind)) {
        lemma_sync_moves(toks, p + 1);
    }
}

/// Parsing every item from `p` ends neither before `p` nor past the end of
/// the tokens.
pub proof fn lemma_run_moves(toks: Seq<Token>, p: nat)
    ensures
        run_spec(toks, p) matches Some((items, errs, end)) ==> p <= end <= bound(toks, p),
    decreases remaining(toks, p),
{
    if p < toks.len() {
        lemma_item_moves(toks, p);
        if let Some(o) = item_spec(toks, p) {
            lemma_sync_moves(toks, o.pos);
            let q = match o.value {
                Ok(_) => o.pos,
                Err(_) => sync_pos(toks, o.pos),
            };
            if q > p {
                lemma_run_moves(toks, q);
            }
        }
    }
}

/// Where an expression parsed with minimum importance `min` ends: at `EOF`
/// or at a token that is no operator binding more strongly than `min`. So an
/// operand ends before the next operator of its own strength, and operators
/// of equal strength group to the left.
pub proof fn lemma_expr_stops(toks: Seq<Token>, p: nat, min: u8)
    ensures
        expr_spec(toks, p, min) matches Some(o) ==> (o.value is Ok ==> {
            let k = crate::grammar::peek_at(toks, o.pos).kind;
            k == TokenKind::EOF || importance(k) <= min
        }),
{
    if let Some(h) = expr_head_spec(toks, p) {
        if let Ok(lhs) = h.value {
            lemma_expr_loop_stops(toks, h.pos, min, lhs);
        }
    }
}

proof fn lemma_expr_loop_stops(toks: Seq<Token>, q: nat, min: u8, lhs: NodeV)
    ensures
        expr_loop_spec(toks, q, min, lhs) matches Some(o) ==> (o.value is Ok ==> {
            let k = crate::grammar::peek_at(toks, o.pos).kind;
            k == TokenKind::EOF || importance(k) <= min
        }),
    decreases remaining(toks, q),
{
    let op = crate::grammar::peek_at(toks, q);
    let imp = importance(op.kind);
    if !(op.kind == TokenKind::EOF || imp == 0 || imp <= min) {
        if let Some(r) = expr_spec(toks, next_pos(toks, q), imp) {
            if let Ok(rhs) = r.value {
                if r.pos > q && q < toks.len() {
                    lemma_expr_loop_stops(toks, r.pos, min, crate::grammar::binary(lhs, op.kind, rhs));
                }
            }
        }
    }
}

/// A type ends at a token that is neither `*` nor `[`: every suffix that
/// follows it is part of it.
pub proof fn lemma_type_stops(toks: Seq<Token>, p: nat)
    ensures
        type_spec(toks, p) matches Some(o) ==> (o.value is Ok ==> {
            let k = crate::grammar::peek_at(toks, o.pos).kind;
            k != TokenKind::Star && k != TokenKind::OpenBracket
        }),
{
    if let Some(h) = type_head_spec(toks, p) {
        if let Ok(origin) = h.value {
            lemma_type_loop_stops(toks, h.pos, origin);
        }
    }
}

proof fn lemma_type_loop_stops(toks: Seq<Token>, q: nat, origin: TypeV)
    ensures
        type_loop_spec(toks, q, origin) matches Some(o) ==> (o.value is Ok ==> {
            let k = crate::grammar::peek_at(toks, o.pos).kind;
            k != TokenKind::Star && k != TokenKind::OpenBracket
        }),
    decreases remaining(toks, q),
{
    let k = peek_kind(toks, q);
    if k == TokenKind::Star {
        if q < toks.len() {
            lemma_type_loop_stops(toks, q + 1, crate::grammar::plain(crate::node::TypeBaseV::Pointer(Box::new(origin))));
        }
    } else if k == TokenKind::OpenBracket {
        if let Some(e) = expr_spec(toks, next_pos(toks, q), 0) {
            if let Ok(len) = e.value {
                let c = expect_spec(toks, e.pos, TokenKind::CloseBracket);
                if c.value is Ok && c.pos > q && q < toks.len() {
                    lemma_type_loop_stops(
                        toks,
                        c.pos,
                        crate::grammar::plain(crate::node::TypeBaseV::Array(Box::new(origin), Box::new(len))),
                    );
                }
            }
        }
    }
}

} // verus!
