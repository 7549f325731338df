use vstd::prelude::*;
use vstd::string::*;
use crate::error::{Error, ErrorKind, ErrorLogger, ErrorView, ParseError};
use crate::grammar::{
    after_log, binary, body_spec, done, expect_spec, expr_head_spec, expr_loop_spec, expr_spec,
    fn_body_spec, fn_params_spec, fn_rest_spec, fn_spec, importance, item_spec,
    lemma_after_log_assoc, next_pos, params_spec, parse_error, peek_at, plain, rank, remaining,
    run_spec, stmt_spec, sync_pos, type_head_spec, type_loop_spec, type_spec, unexpected, var_spec,
};
use crate::node::{
    lemma_nodes_view_push, nodes_view, params_view, Data, Node, NodeV, ParseType, ParseTypeBase,
    TypeBaseV, TypeV,
};
use crate::token::{Span, Token, TokenKind};
use crate::progress::{
    bound, ends_safely, lemma_expr_moves, lemma_fn_moves, lemma_item_moves, lemma_run_moves,
    lemma_stmt_moves, lemma_sync_moves, lemma_type_moves, lemma_var_moves,
};

verus! {

/// What a parse result holds, as plain values.
pub open spec fn node_result(r: Result<Node, ParseError>) -> Result<NodeV, ParseError> {
    match r {
        Ok(n) => Ok(n@),
        Err(e) => Err(e),
    }
}

/// What a type parse result holds, as plain values.
pub open spec fn type_result(r: Result<ParseType, ParseError>) -> Result<TypeV, ParseError> {
    match r {
        Ok(t) => Ok(t@),
        Err(e) => Err(e),
    }
}

/// What a parameter-list parse result holds, as plain values.
pub open spec fn params_result(r: Result<Option<Vec<Node>>, ParseError>) -> Result<Option<Seq<NodeV>>, ParseError> {
    match r {
        Ok(p) => Ok(params_view(p)),
        Err(e) => Err(e),
    }
}

/// What a statement-list parse result holds, as plain values.
pub open spec fn nodes_result(r: Result<Vec<Node>, ParseError>) -> Result<Seq<NodeV>, ParseError> {
    match r {
        Ok(v) => Ok(nodes_view(v@)),
        Err(e) => Err(e),
    }
}

/// What a function-body parse result holds, as plain values.
pub open spec fn body_result(r: Result<(Vec<Node>, Token), ParseError>) -> Result<(Seq<NodeV>, Token), ParseError> {
    match r {
        Ok((v, t)) => Ok((nodes_view(v@), t)),
        Err(e) => Err(e),
    }
}

/// A recursive-descent parser over a token list.
pub struct Parser<'a> {
    tokens: &'a [Token],
    source: &'a str,
    logger: ErrorLogger<'a>,
    current: usize,
}

impl<'a> Parser<'a> {
    /// The tokens being parsed.
    pub closed spec fn toks(&self) -> Seq<Token> {
        self.tokens@
    }

    /// The position of the next token to read.
    pub closed spec fn pos(&self) -> nat {
        self.current as nat
    }

    /// The errors reported so far.
    pub closed spec fn log(&self) -> Seq<ErrorView> {
        self.logger@
    }

    /// The source text the tokens come from.
    pub closed spec fn source_text(&self) -> Seq<char> {
        self.source@
    }

    /// The source text that the parser's error log is about.
    pub closed spec fn logger_source(&self) -> Seq<char> {
        self.logger.source_text()
    }

    /// `self` is `before` moved to `pos`, with `log` reported after the errors
    /// of `before`.
    pub open spec fn stepped(self, before: Self, pos: nat, log: Seq<ErrorView>) -> bool {
        &&& self.toks() == before.toks()
        &&& self.source_text() == before.source_text()
        &&& self.logger_source() == before.logger_source()
        &&& self.pos() == pos
        &&& self.log() == before.log() + log
    }

    /// `self` can follow `before` after parsing steps: the tokens and sources
    /// are the same, the position has not moved back, nor past the end of the
    /// tokens unless `before` was already there, and the errors of `before`
    /// still stand first in the log.
    pub open spec fn evolved_from(self, before: Self) -> bool {
        &&& self.toks() == before.toks()
        &&& self.source_text() == before.source_text()
        &&& self.logger_source() == before.logger_source()
        &&& before.pos() <= self.pos() <= bound(before.toks(), before.pos())
        &&& before.log().len() <= self.log().len()
        &&& forall|i: int| 0 <= i < before.log().len() ==> #[trigger] self.log()[i] == before.log()[i]
    }

    /// A parser follows itself.
    pub proof fn lemma_evolved_refl(p: Self)
        ensures
            p.evolved_from(p),
    {
    }

    /// Parsing steps compose: what follows a parser that follows `a` follows `a`.
    pub proof fn lemma_evolved_trans(a: Self, b: Self, c: Self)
        requires
            b.evolved_from(a),
            c.evolved_from(b),
        ensures
            c.evolved_from(a),
    {
        assert forall|i: int| 0 <= i < a.log().len() implies #[trigger] c.log()[i] == a.log()[i] by {
            assert(c.log()[i] == b.log()[i]);
        }
    }

    /// A parser whose position lies within its tokens, as that of a new one
    /// does, keeps it there through every parsing step that follows.
    pub proof fn lemma_evolved_in_bounds(start: Self, p: Self)
        requires
            start.pos() <= start.toks().len(),
            p.evolved_from(start),
        ensures
            p.pos() <= p.toks().len(),
    {
    }

    /// A parser at the first of `tokens`, with no errors reported.
    pub fn new(tokens: &'a [Token], source: &'a str) -> (p: Self)
        ensures
            p.toks() == tokens@,
            p.source_text() == source@,
            p.logger_source() == source@,
            p.pos() == 0,
            p.log() == Seq::<ErrorView>::empty(),
    {
        Self { tokens, source, logger: ErrorLogger::new(source), current: 0 }
    }

    /// The position of the next token to read.
    pub fn current(&self) -> (c: usize)
        ensures
            c == self.pos(),
    {
        self.current
    }

    /// The errors reported so far.
    pub fn logger(&self) -> (l: &ErrorLogger<'a>)
        ensures
            l@ == self.log(),
            l.source_text() == self.logger_source(),
    {
        &self.logger
    }

    fn report(&mut self, message: &str, kind: ParseError, span: Span)
        ensures
            final(self).stepped(*old(self), old(self).pos(), seq![parse_error(message@, kind, span)]),
    {
        let error = Error { message: String::from_str(message), kind: ErrorKind::Parse(kind), span };
        self.logger.add_error(error);
        assert(self.log() =~= old(self).log() + seq![parse_error(message@, kind, span)]);
    }

    fn advance(&mut self) -> (t: Token)
        requires
            old(self).toks().len() > 0,
        ensures
            t == peek_at(old(self).toks(), old(self).pos()),
            final(self).stepped(*old(self), next_pos(old(self).toks(), old(self).pos()), seq![]),
            final(self).evolved_from(*old(self)),
    {
        if self.is_at_end() {
            return self.tokens[self.tokens.len() - 1];
        }
        let token = self.tokens[self.current];
        self.current += 1;
        assert(self.log() =~= old(self).log() + Seq::<ErrorView>::empty());
        token
    }

    fn expect(&mut self, expected: TokenKind) -> (r: Result<Token, ParseError>)
        requires
            old(self).toks().len() > 0,
        ensures
            ({
                let o = expect_spec(old(self).toks(), old(self).pos(), expected);
                r == o.value && final(self).stepped(*old(self), o.pos, o.log)
            }),
            final(self).evolved_from(*old(self)),
    {
        let token = self.advance();
        if token.kind == expected {
            return Ok(token);
        }
        let mut message = String::from_str("expected ");
        message.append(expected.name());
        let error = Error { message, kind: ErrorKind::Parse(ParseError::UnexpectedToken), span: token.span };
        self.logger.add_error(error);
        assert(self.log() =~= old(self).log() + unexpected("expected "@ + expected.spec_name(), token.span));
        Err(ParseError::UnexpectedToken)
    }

    fn peek(&self) -> (t: Token)
        requires
            self.toks().len() > 0,
        ensures
            t == peek_at(self.toks(), self.pos()),
    {
        if self.is_at_end() {
            return self.tokens[self.tokens.len() - 1];
        }
        self.tokens[self.current]
    }

    fn is_at_end(&self) -> (b: bool)
        ensures
            b == (self.pos() >= self.toks().len()),
    {
        self.current >= self.tokens.len()
    }

    /// The binding strength of `kind` as a binary operator; 0 if it is none.
    pub fn get_importance(&self, kind: &TokenKind) -> (r: u8)
        ensures
            r == importance(*kind),
    {
        match kind {
            TokenKind::Assign
            | TokenKind::AddAssign
            | TokenKind::SubAssign
            | TokenKind::MulAssign
            | TokenKind::DivAssign => 1,
            TokenKind::Equal
            | TokenKind::NotEqual
            | TokenKind::Greater
            | TokenKind::GreaterEqual
            | TokenKind::Lesser
            | TokenKind::LesserEqual => 4,
            TokenKind::Add | TokenKind::Sub => 5,
            TokenKind::Star | TokenKind::Div => 6,
            _ => 0,
        }
    }

    /// Skips tokens until one that can start a new item or statement, or the end.
    pub fn synchronize(&mut self)
        ensures
            final(self).stepped(*old(self), sync_pos(old(self).toks(), old(self).pos()), seq![]),
            final(self).evolved_from(*old(self)),
    {
        proof {
            lemma_sync_moves(self.toks(), self.pos());
        }
        let ghost target = sync_pos(self.toks(), self.pos());
        while !self.is_at_end()
            invariant
                self.toks() == old(self).toks(),
                self.source_text() == old(self).source_text(),
                self.logger_source() == old(self).logger_source(),
                self.log() == old(self).log(),
                sync_pos(self.toks(), self.pos()) == target,
            ensures
                self.pos() == target,
            decreases remaining(self.toks(), self.pos()),
        {
            match self.peek().kind {
                TokenKind::KwLet
                | TokenKind::KwConst
                | TokenKind::KwElse
                | TokenKind::KwIf
                | TokenKind::KwAlias
                | TokenKind::KwStruct
                | TokenKind::KwUnion
                | TokenKind::KwEnum
                | TokenKind::KwRtn
                | TokenKind::EOF
                | TokenKind::CompKwDefine
                | TokenKind::CompKwSizeof
                | TokenKind::KwFn => break,
                _ => {},
            }
            self.advance();
        }
        assert(self.log() =~= old(self).log() + Seq::<ErrorView>::empty());
    }

    /// An expression whose binary operators bind more strongly than
    /// `min_importance`; operators of equal strength group to the left.
    pub fn parse_expr(&mut self, min_importance: u8) -> (res: Result<Node, ParseError>)
        requires
            old(self).toks().len() > 0,
            expr_spec(old(self).toks(), old(self).pos(), min_importance) is Some,
        ensures
            ({
                let o = expr_spec(old(self).toks(), old(self).pos(), min_importance).unwrap();
                node_result(res) == o.value && final(self).stepped(*old(self), o.pos, o.log)
            }),
            final(self).evolved_from(*old(self)),
        decreases remaining(old(self).toks(), old(self).pos()), rank(min_importance),
    {
        proof {
            lemma_expr_moves(self.toks(), self.pos(), min_importance);
        }
        let ghost toks = self.toks();
        let ghost p = self.pos();
        let ghost p1 = next_pos(toks, p);
        let ghost log0 = self.log();
        let ghost head = expr_head_spec(toks, p).unwrap();
        let ghost target = expr_spec(toks, p, min_importance).unwrap();
        let lhs_token = self.advance();
        let mut lhs = match lhs_token.kind {
            TokenKind::Identifier => Node { data: Data::Identifier(self.current - 1), span: lhs_token.span },
            TokenKind::IntegerLiteral => Node { data: Data::Integer(self.current - 1), span: lhs_token.span },
            TokenKind::FloatLiteral => Node { data: Data::Integer(self.current - 1), span: lhs_token.span },
            TokenKind::StringLiteral => Node { data: Data::String(self.current - 1), span: lhs_token.span },
            TokenKind::OpenParen => {
                let mut expr = match self.parse_expr(0) {
                    Ok(e) => e,
                    Err(e) => {
                        assert(self.log() =~= log0 + target.log);
                        return Err(e);
                    },
                };
                let close = match self.expect(TokenKind::CloseParen) {
                    Ok(c) => c,
                    Err(e) => {
                        assert(self.log() =~= log0 + target.log);
                        return Err(e);
                    },
                };
                expr.span = Span { start: expr.span.start, end: close.span.end };
                assert(self.log() =~= log0 + head.log);
                expr
            },
            _ => {
                self.report("expected expression", ParseError::UnexpectedToken, lhs_token.span);
                assert(self.log() =~= log0 + target.log);
                return Err(ParseError::UnexpectedToken);
            },
        };
        assert(head.value == Ok::<NodeV, ParseError>(lhs@));
        assert(self.log() =~= log0 + head.log);
        let ghost mut acc = head.log;
        loop
            invariant
                self.toks() == toks,
                self.source_text() == old(self).source_text(),
                self.logger_source() == old(self).logger_source(),
                toks.len() > 0,
                toks == old(self).toks(),
                p == old(self).pos(),
                p1 == next_pos(toks, p),
                self.pos() >= p1,
                self.log() == log0 + acc,
                log0 == old(self).log(),
                target == expr_spec(toks, p, min_importance).unwrap(),
                p <= target.pos <= bound(toks, p),
                expr_loop_spec(toks, self.pos(), min_importance, lhs@) is Some,
                Some(target) == after_log(acc, expr_loop_spec(toks, self.pos(), min_importance, lhs@)),
            ensures
                expr_loop_spec(toks, self.pos(), min_importance, lhs@) == done(lhs@, self.pos(), seq![]),
            decreases remaining(toks, self.pos()),
        {
            let ghost q = self.pos();
            if self.peek().kind == TokenKind::EOF {
                break;
            }
            let op = self.peek();
            let importance = self.get_importance(&op.kind);
            if importance == 0 || importance <= min_importance {
                break;
            }
            self.advance();
            let ghost r = expr_spec(toks, self.pos(), importance).unwrap();
            let rhs = match self.parse_expr(importance) {
                Ok(n) => n,
                Err(e) => {
                    assert(self.log() =~= log0 + target.log);
                    return Err(e);
                },
            };
            let ghost next_lhs = binary(lhs@, op.kind, rhs@);
            proof {
                assert(r.pos > q && q < toks.len());
                assert(self.log() =~= log0 + (acc + r.log));
                lemma_after_log_assoc(acc, r.log, expr_loop_spec(toks, self.pos(), min_importance, next_lhs));
                acc = acc + r.log;
            }
            lhs = Node {
                span: Span { start: lhs.span.start, end: rhs.span.end },
                data: Data::BinaryOp { lhs: Box::new(lhs), op: op.kind, rhs: Box::new(rhs) },
            };
            assert(lhs@ == next_lhs);
        }
        assert(self.log() =~= log0 + target.log);
        Ok(lhs)
    }

    /// A type: `long`/`unsigned` modifiers, `int` or `char`, then any number of
    /// `*` and `[expr]` suffixes.
    pub fn parse_type(&mut self) -> (res: Result<ParseType, ParseError>)
        requires
            old(self).toks().len() > 0,
            type_spec(old(self).toks(), old(self).pos()) is Some,
        ensures
            ({
                let o = type_spec(old(self).toks(), old(self).pos()).unwrap();
                type_result(res) == o.value && final(self).stepped(*old(self), o.pos, o.log)
            }),
            final(self).evolved_from(*old(self)),
        decreases remaining(old(self).toks(), old(self).pos()),
    {
        proof {
            lemma_type_moves(self.toks(), self.pos());
        }
        let ghost toks = self.toks();
        let ghost p = self.pos();
        let ghost p1 = next_pos(toks, p);
        let ghost log0 = self.log();
        let ghost head = type_head_spec(toks, p).unwrap();
        let ghost target = type_spec(toks, p).unwrap();
        let first_token = self.advance();
        let mut origin = match first_token.kind {
            TokenKind::KwLong => {
                let mut next = match self.parse_type() {
                    Ok(t) => t,
                    Err(e) => {
                        assert(self.log() =~= log0 + target.log);
                        return Err(e);
                    },
                };
                if next.long {
                    self.report("unexpected duplicate 'long'", ParseError::UnexpectedTypeDuplicate, first_token.span);
                    assert(self.log() =~= log0 + target.log);
                    return Err(ParseError::UnexpectedTypeDuplicate);
                }
                next.long = true;
                next
            },
            TokenKind::KwUnsigned => {
                let mut next = match self.parse_type() {
                    Ok(t) => t,
                    Err(e) => {
                        assert(self.log() =~= log0 + target.log);
                        return Err(e);
                    },
                };
                if next.unsigned {
                    self.report("unexpected duplicate 'unsigned'", ParseError::UnexpectedTypeDuplicate, first_token.span);
                    assert(self.log() =~= log0 + target.log);
                    return Err(ParseError::UnexpectedTypeDuplicate);
                }
                next.unsigned = true;
                next
            },
            TokenKind::KwInt => ParseType { base: ParseTypeBase::Int, long: false, unsigned: false },
            TokenKind::KwChar => ParseType { base: ParseTypeBase::Char, long: false, unsigned: false },
            _ => {
                self.report("expected type statement", ParseError::UnexpectedToken, first_token.span);
                assert(self.log() =~= log0 + target.log);
                return Err(ParseError::UnexpectedToken);
            },
        };
        assert(head.value == Ok::<TypeV, ParseError>(origin@));
        assert(self.log() =~= log0 + head.log);
        let ghost mut acc = head.log;
        loop
            invariant
                self.toks() == toks,
                self.source_text() == old(self).source_text(),
                self.logger_source() == old(self).logger_source(),
                toks.len() > 0,
                toks == old(self).toks(),
                p == old(self).pos(),
                self.log() == log0 + acc,
                log0 == old(self).log(),
                target == type_spec(toks, p).unwrap(),
                p <= target.pos <= bound(toks, p),
                type_loop_spec(toks, self.pos(), origin@) is Some,
                Some(target) == after_log(acc, type_loop_spec(toks, self.pos(), origin@)),
            ensures
                type_loop_spec(toks, self.pos(), origin@) == done(origin@, self.pos(), seq![]),
            decreases remaining(toks, self.pos()),
        {
            let ghost q = self.pos();
            match self.peek().kind {
                TokenKind::Star => {
                    self.advance();
                    origin = ParseType { unsigned: false, long: false, base: ParseTypeBase::Pointer(Box::new(origin)) };
                    proof {
                        lemma_after_log_assoc(acc, seq![], type_loop_spec(toks, self.pos(), origin@));
                        assert(acc + Seq::<ErrorView>::empty() =~= acc);
                    }
                },
                TokenKind::OpenBracket => {
                    self.advance();
                    let ghost e = expr_spec(toks, self.pos(), 0).unwrap();
                    let len = match self.parse_expr(0) {
                        Ok(n) => n,
                        Err(err) => {
                            assert(self.log() =~= log0 + target.log);
                            return Err(err);
                        },
                    };
                    let ghost c = expect_spec(toks, self.pos(), TokenKind::CloseBracket);
                    match self.expect(TokenKind::CloseBracket) {
                        Ok(_) => {},
                        Err(err) => {
                            assert(self.log() =~= log0 + target.log);
                            return Err(err);
                        },
                    }
                    let ghost next_origin = plain(TypeBaseV::Array(Box::new(origin@), Box::new(len@)));
                    proof {
                        assert(c.pos > q && q < toks.len());
                        assert(self.log() =~= log0 + (acc + (e.log + c.log)));
                        lemma_after_log_assoc(acc, e.log + c.log, type_loop_spec(toks, self.pos(), next_origin));
                        acc = acc + (e.log + c.log);
                    }
                    origin = ParseType { unsigned: false, long: false, base: ParseTypeBase::Array(Box::new(origin), len) };
                    assert(origin@ == next_origin);
                },
                _ => break,
            }
        }
        assert(self.log() =~= log0 + target.log);
        Ok(origin)
    }

    /// A declaration: the keyword (`let` or `const`), a type, a name, `=` and
    /// an expression. `mutable` tells which keyword it is.
    pub fn parse_var(&mut self, mutable: bool) -> (res: Result<Node, ParseError>)
        requires
            old(self).toks().len() > 0,
            var_spec(old(self).toks(), old(self).pos(), mutable) is Some,
        ensures
            ({
                let o = var_spec(old(self).toks(), old(self).pos(), mutable).unwrap();
                node_result(res) == o.value && final(self).stepped(*old(self), o.pos, o.log)
            }),
            final(self).evolved_from(*old(self)),
    {
        proof {
            lemma_var_moves(self.toks(), self.pos(), mutable);
        }
        let ghost toks = self.toks();
        let ghost log0 = self.log();
        let ghost target = var_spec(toks, self.pos(), mutable).unwrap();
        let kw = self.advance();
        let ty = match self.parse_type() {
            Ok(t) => t,
            Err(e) => {
                assert(self.log() =~= log0 + target.log);
                return Err(e);
            },
        };
        let name = self.current;
        match self.expect(TokenKind::Identifier) {
            Ok(_) => {},
            Err(e) => {
                assert(self.log() =~= log0 + target.log);
                return Err(e);
            },
        }
        match self.expect(TokenKind::Assign) {
            Ok(_) => {},
            Err(e) => {
                assert(self.log() =~= log0 + target.log);
                return Err(e);
            },
        }
        let value = match self.parse_expr(0) {
            Ok(v) => v,
            Err(e) => {
                assert(self.log() =~= log0 + target.log);
                return Err(e);
            },
        };
        assert(self.log() =~= log0 + target.log);
        Ok(Node {
            span: Span { start: kw.span.start, end: value.span.end },
            data: Data::VarDeclaration { name, mutable, ty: Box::new(ty), value: Box::new(value) },
        })
    }

    /// A statement: a `const` or `let` declaration.
    pub fn parse_stmt(&mut self) -> (res: Result<Node, ParseError>)
        requires
            old(self).toks().len() > 0,
            stmt_spec(old(self).toks(), old(self).pos()) is Some,
        ensures
            ({
                let o = stmt_spec(old(self).toks(), old(self).pos()).unwrap();
                node_result(res) == o.value && final(self).stepped(*old(self), o.pos, o.log)
            }),
            final(self).evolved_from(*old(self)),
    {
        proof {
            lemma_stmt_moves(self.toks(), self.pos());
        }
        match self.peek().kind {
            TokenKind::KwConst => self.parse_var(false),
            TokenKind::KwLet => self.parse_var(true),
            _ => {
                let span = self.peek().span;
                self.report("expected statement", ParseError::UnexpectedToken, span);
                Err(ParseError::UnexpectedToken)
            },
        }
    }

    /// A top-level item: a `const`, `fn` or `let` declaration.
    pub fn parse_item(&mut self) -> (res: Result<Node, ParseError>)
        requires
            old(self).toks().len() > 0,
            item_spec(old(self).toks(), old(self).pos()) is Some,
        ensures
            ({
                let o = item_spec(old(self).toks(), old(self).pos()).unwrap();
                node_result(res) == o.value && final(self).stepped(*old(self), o.pos, o.log)
            }),
            final(self).evolved_from(*old(self)),
    {
        proof {
            lemma_item_moves(self.toks(), self.pos());
        }
        match self.peek().kind {
            TokenKind::KwConst => self.parse_var(false),
            TokenKind::KwFn => self.parse_fn(),
            TokenKind::KwLet => self.parse_var(true),
            _ => {
                let span = self.peek().span;
                self.report("unexpected top-level statement", ParseError::UnexpectedToken, span);
                Err(ParseError::UnexpectedToken)
            },
        }
    }

    /// The parameters of a function after its `(`: each a type and a name,
    /// up to `)` or the end of the tokens. `None` when there are none.
    fn parse_params(&mut self) -> (res: Result<Option<Vec<Node>>, ParseError>)
        requires
            old(self).toks().len() > 0,
            params_spec(old(self).toks(), old(self).pos(), None) is Some,
        ensures
            ({
                let o = params_spec(old(self).toks(), old(self).pos(), None).unwrap();
                params_result(res) == o.value && final(self).stepped(*old(self), o.pos, o.log)
            }),
    {
        let ghost toks = self.toks();
        let ghost log0 = self.log();
        let ghost target = params_spec(toks, self.pos(), None).unwrap();
        let mut params: Option<Vec<Node>> = None;
        let ghost mut acc: Seq<ErrorView> = seq![];
        assert(self.log() =~= log0 + acc);
        while !self.is_at_end()
            invariant
                self.toks() == toks,
                self.source_text() == old(self).source_text(),
                self.logger_source() == old(self).logger_source(),
                toks.len() > 0,
                toks == old(self).toks(),
                self.log() == log0 + acc,
                log0 == old(self).log(),
                target == params_spec(toks, old(self).pos(), None).unwrap(),
                params_spec(toks, self.pos(), params_view(params)) is Some,
                Some(target) == after_log(acc, params_spec(toks, self.pos(), params_view(params))),
            ensures
                params_spec(toks, self.pos(), params_view(params)) == done(params_view(params), self.pos(), seq![]),
            decreases remaining(toks, self.pos()),
        {
            if self.peek().kind == TokenKind::CloseParen {
                break;
            }
            let ghost q = self.pos();
            let start = self.peek().span.start;
            let ghost ty = type_spec(toks, q).unwrap();
            let p_ty = match self.parse_type() {
                Ok(t) => t,
                Err(e) => {
                    assert(self.log() =~= log0 + target.log);
                    return Err(e);
                },
            };
            let p_name = self.current;
            let ghost id = expect_spec(toks, self.pos(), TokenKind::Identifier);
            match self.expect(TokenKind::Identifier) {
                Ok(_) => {},
                Err(e) => {
                    assert(self.log() =~= log0 + target.log);
                    return Err(e);
                },
            }
            let node = Node {
                span: Span { start, end: self.peek().span.end },
                data: Data::FnParameter { name: p_name, ty: Box::new(p_ty) },
            };
            let ghost acc2 = match params_view(params) {
                Some(ps) => Some(ps.push(node@)),
                None => Some(seq![node@]),
            };
            params = match params {
                Some(mut v) => {
                    proof {
                        lemma_nodes_view_push(v@, node);
                    }
                    v.push(node);
                    Some(v)
                },
                None => {
                    let mut v = Vec::new();
                    proof {
                        lemma_nodes_view_push(v@, node);
                    }
                    v.push(node);
                    assert(nodes_view(v@) =~= seq![node@]);
                    Some(v)
                },
            };
            assert(params_view(params) == acc2);
            proof {
                assert(id.pos > q);
                assert(self.log() =~= log0 + (acc + (ty.log + id.log)));
                lemma_after_log_assoc(acc, ty.log + id.log, params_spec(toks, self.pos(), acc2));
                acc = acc + (ty.log + id.log);
            }
        }
        assert(self.log() =~= log0 + target.log);
        Ok(params)
    }

    /// The statements of a function body after its `{`, up to `}` or the end
    /// of the tokens.
    fn parse_body(&mut self) -> (res: Result<Vec<Node>, ParseError>)
        requires
            old(self).toks().len() > 0,
            body_spec(old(self).toks(), old(self).pos(), seq![]) is Some,
        ensures
            ({
                let o = body_spec(old(self).toks(), old(self).pos(), seq![]).unwrap();
                nodes_result(res) == o.value && final(self).stepped(*old(self), o.pos, o.log)
            }),
    {
        let ghost toks = self.toks();
        let ghost log0 = self.log();
        let ghost target = body_spec(toks, self.pos(), seq![]).unwrap();
        let mut body: Vec<Node> = Vec::new();
        let ghost mut acc: Seq<ErrorView> = seq![];
        assert(self.log() =~= log0 + acc);
        assert(nodes_view(body@) =~= Seq::<NodeV>::empty());
        while !self.is_at_end()
            invariant
                self.toks() == toks,
                self.source_text() == old(self).source_text(),
                self.logger_source() == old(self).logger_source(),
                toks.len() > 0,
                toks == old(self).toks(),
                self.log() == log0 + acc,
                log0 == old(self).log(),
                target == body_spec(toks, old(self).pos(), seq![]).unwrap(),
                body_spec(toks, self.pos(), nodes_view(body@)) is Some,
                Some(target) == after_log(acc, body_spec(toks, self.pos(), nodes_view(body@))),
            ensures
                body_spec(toks, self.pos(), nodes_view(body@)) == done(nodes_view(body@), self.pos(), seq![]),
            decreases remaining(toks, self.pos()),
        {
            if self.peek().kind == TokenKind::CloseBody {
                break;
            }
            let ghost q = self.pos();
            let ghost s = stmt_spec(toks, q).unwrap();
            let stmt = match self.parse_stmt() {
                Ok(n) => n,
                Err(e) => {
                    assert(self.log() =~= log0 + target.log);
                    return Err(e);
                },
            };
            proof {
                lemma_nodes_view_push(body@, stmt);
            }
            body.push(stmt);
            proof {
                assert(s.pos > q);
                assert(self.log() =~= log0 + (acc + s.log));
                lemma_after_log_assoc(acc, s.log, body_spec(toks, self.pos(), nodes_view(body@)));
                acc = acc + s.log;
            }
        }
        assert(self.log() =~= log0 + target.log);
        Ok(body)
    }

    /// The optional parameter list of a function: `(`, the parameters, `)`.
    fn parse_fn_params(&mut self) -> (res: Result<Option<Vec<Node>>, ParseError>)
        requires
            old(self).toks().len() > 0,
            fn_params_spec(old(self).toks(), old(self).pos()) is Some,
        ensures
            ({
                let o = fn_params_spec(old(self).toks(), old(self).pos()).unwrap();
                params_result(res) == o.value && final(self).stepped(*old(self), o.pos, o.log)
            }),
    {
        let ghost log0 = self.log();
        let ghost target = fn_params_spec(self.toks(), self.pos()).unwrap();
        let mut params: Option<Vec<Node>> = None;
        if self.peek().kind == TokenKind::OpenParen {
            let _ = self.advance();
            params = match self.parse_params() {
                Ok(list) => list,
                Err(e) => return Err(e),
            };
            match self.expect(TokenKind::CloseParen) {
                Ok(_) => {},
                Err(e) => {
                    assert(self.log() =~= log0 + target.log);
                    return Err(e);
                },
            }
            assert(self.log() =~= log0 + target.log);
        } else {
            assert(self.log() =~= log0 + target.log);
        }
        Ok(params)
    }

    /// The body of a function: `{`, the statements, `}`; with the closing token.
    fn parse_fn_body(&mut self) -> (res: Result<(Vec<Node>, Token), ParseError>)
        requires
            old(self).toks().len() > 0,
            fn_body_spec(old(self).toks(), old(self).pos()) is Some,
        ensures
            ({
                let o = fn_body_spec(old(self).toks(), old(self).pos()).unwrap();
                body_result(res) == o.value && final(self).stepped(*old(self), o.pos, o.log)
            }),
    {
        let ghost log0 = self.log();
        let ghost target = fn_body_spec(self.toks(), self.pos()).unwrap();
        match self.expect(TokenKind::OpenBody) {
            Ok(_) => {},
            Err(e) => return Err(e),
        }
        let body = match self.parse_body() {
            Ok(b) => b,
            Err(e) => {
                assert(self.log() =~= log0 + target.log);
                return Err(e);
            },
        };
        let end = match self.expect(TokenKind::CloseBody) {
            Ok(t) => t,
            Err(e) => {
                assert(self.log() =~= log0 + target.log);
                return Err(e);
            },
        };
        assert(self.log() =~= log0 + target.log);
        Ok((body, end))
    }

    /// A function declaration: `fn`, a return type, a name, an optional
    /// parenthesized parameter list and a body of statements in braces. A
    /// missing name is reported without stopping the parse.
    #[verifier::rlimit(40)]
    pub fn parse_fn(&mut self) -> (res: Result<Node, ParseError>)
        requires
            old(self).toks().len() > 0,
            fn_spec(old(self).toks(), old(self).pos()) is Some,
        ensures
            ({
                let o = fn_spec(old(self).toks(), old(self).pos()).unwrap();
                node_result(res) == o.value && final(self).stepped(*old(self), o.pos, o.log)
            }),
            final(self).evolved_from(*old(self)),
    {
        proof {
            lemma_fn_moves(self.toks(), self.pos());
        }
        let ghost toks = self.toks();
        let ghost log0 = self.log();
        let ghost target = fn_spec(toks, self.pos()).unwrap();
        let kw = self.advance();
        let ghost ty = type_spec(toks, self.pos()).unwrap();
        let return_type = match self.parse_type() {
            Ok(t) => t,
            Err(e) => {
                assert(self.log() =~= log0 + target.log);
                return Err(e);
            },
        };
        let name = self.current;
        let ghost id = expect_spec(toks, self.pos(), TokenKind::Identifier);
        let _ = self.expect(TokenKind::Identifier);
        let ghost head_log = ty.log + id.log;
        assert(self.log() =~= log0 + head_log);
        let ghost rest_o = fn_rest_spec(toks, self.pos(), kw, name as nat, return_type@);
        assert(Some(target) == after_log(head_log, rest_o));
        let ghost rest = rest_o.unwrap();
        let ghost ps = fn_params_spec(toks, self.pos()).unwrap();
        let params = match self.parse_fn_params() {
            Ok(list) => list,
            Err(e) => {
                assert(rest.log == ps.log);
                assert(self.log() =~= log0 + target.log);
                return Err(e);
            },
        };
        let ghost b = fn_body_spec(toks, self.pos()).unwrap();
        let (body, end) = match self.parse_fn_body() {
            Ok(pair) => pair,
            Err(e) => {
                assert(rest.log == ps.log + b.log);
                assert(self.log() =~= log0 + target.log);
                return Err(e);
            },
        };
        assert(rest.log == ps.log + b.log);
        assert(self.log() =~= log0 + target.log);
        Ok(Node {
            data: Data::FnDeclaration { name, params, return_type: Box::new(return_type), body },
            span: Span { start: kw.span.start, end: end.span.end },
        })
    }

    /// Parses items until the end of the tokens. An item that fails is
    /// reported and skipped by [`Self::synchronize`]; the result is always `Ok`.
    /// When a failed item and its recovery leave the position where it was,
    /// the same failure repeats and this loop never ends; `requires` leaves
    /// those inputs out (see [`Self::run_checked`]).
    pub fn run(&mut self) -> (res: Result<Vec<Node>, ParseError>)
        requires
            run_spec(old(self).toks(), old(self).pos()) is Some,
        ensures
            ({
                let (items, errs, end) = run_spec(old(self).toks(), old(self).pos()).unwrap();
                &&& res is Ok
                &&& nodes_view(res.unwrap()@) == items
                &&& final(self).stepped(*old(self), end, errs)
            }),
            final(self).evolved_from(*old(self)),
    {
        proof {
            lemma_run_moves(self.toks(), self.pos());
        }
        let ghost toks = self.toks();
        let ghost log0 = self.log();
        let ghost target = run_spec(toks, self.pos()).unwrap();
        let mut nodes: Vec<Node> = Vec::new();
        let ghost mut acc: Seq<ErrorView> = seq![];
        assert(nodes_view(nodes@) =~= Seq::<NodeV>::empty());
        assert(self.log() =~= log0 + acc);
        while !self.is_at_end()
            invariant
                self.toks() == toks,
                toks == old(self).toks(),
                self.source_text() == old(self).source_text(),
                self.logger_source() == old(self).logger_source(),
                self.log() == log0 + acc,
                log0 == old(self).log(),
                run_spec(toks, self.pos()) is Some,
                target == ({
                    let (rest, errs, end) = run_spec(toks, self.pos()).unwrap();
                    (nodes_view(nodes@) + rest, acc + errs, end)
                }),
            decreases remaining(toks, self.pos()),
        {
            let ghost o = item_spec(toks, self.pos()).unwrap();
            let maybenode = self.parse_item();
            if let Ok(node) = maybenode {
                proof {
                    lemma_nodes_view_push(nodes@, node);
                }
                nodes.push(node);
            } else {
                self.synchronize();
            }
            proof {
                let (rest, errs, end) = run_spec(toks, self.pos()).unwrap();
                assert(nodes_view(nodes@) + rest =~= target.0);
                assert((acc + o.log) + errs =~= target.1);
                acc = acc + o.log;
            }
        }
        assert(nodes_view(nodes@) + Seq::<NodeV>::empty() =~= nodes_view(nodes@));
        assert(acc + Seq::<ErrorView>::empty() =~= acc);
        Ok(nodes)
    }

    /// [`Self::run`] for any token list whose last token [`ends_safely`]
    /// (as one ending in `EOF` does): `None` exactly when `run` would never
    /// return, having stopped as soon as a failed item leaves the position
    /// unchanged.
    pub fn run_checked(&mut self) -> (res: Option<Result<Vec<Node>, ParseError>>)
        requires
            old(self).toks().len() == 0 || ends_safely(old(self).toks()),
        ensures
            res is Some <==> run_spec(old(self).toks(), old(self).pos()) is Some,
            res is Some ==> ({
                let (items, errs, end) = run_spec(old(self).toks(), old(self).pos()).unwrap();
                &&& res.unwrap() is Ok
                &&& nodes_view(res.unwrap().unwrap()@) == items
                &&& final(self).stepped(*old(self), end, errs)
            }),
            final(self).evolved_from(*old(self)),
    {
        let ghost toks = self.toks();
        let ghost log0 = self.log();
        let ghost p0 = self.pos();
        let ghost start = *self;
        proof {
            Self::lemma_evolved_refl(start);
        }
        let mut nodes: Vec<Node> = Vec::new();
        let ghost mut acc: Seq<ErrorView> = seq![];
        assert(nodes_view(nodes@) =~= Seq::<NodeV>::empty());
        assert(self.log() =~= log0 + acc);
        while !self.is_at_end()
            invariant
                self.toks() == toks,
                toks == old(self).toks(),
                toks.len() == 0 || ends_safely(toks),
                p0 == old(self).pos(),
                start == *old(self),
                self.evolved_from(start),
                self.source_text() == old(self).source_text(),
                self.logger_source() == old(self).logger_source(),
                self.log() == log0 + acc,
                log0 == old(self).log(),
                run_spec(toks, p0) is Some <==> run_spec(toks, self.pos()) is Some,
                run_spec(toks, self.pos()) is Some ==> run_spec(toks, p0).unwrap() == ({
                    let (rest, errs, end) = run_spec(toks, self.pos()).unwrap();
                    (nodes_view(nodes@) + rest, acc + errs, end)
                }),
            decreases remaining(toks, self.pos()),
        {
            let before = self.current;
            let ghost p = self.pos();
            assert(item_spec(toks, p) is Some) by {
                lemma_item_moves(toks, p);
            }
            let ghost o = item_spec(toks, p).unwrap();
            let ghost s0 = *self;
            let maybenode = self.parse_item();
            proof {
                Self::lemma_evolved_trans(start, s0, *self);
            }
            if let Ok(node) = maybenode {
                proof {
                    lemma_nodes_view_push(nodes@, node);
                }
                nodes.push(node);
            } else {
                let ghost s1 = *self;
                self.synchronize();
                proof {
                    Self::lemma_evolved_trans(start, s1, *self);
                }
            }
            if self.current <= before {
                return None;
            }
            proof {
                if run_spec(toks, self.pos()) is Some {
                    let (rest, errs, end) = run_spec(toks, self.pos()).unwrap();
                    assert((acc + o.log) + errs =~= acc + (o.log + errs));
                }
                acc = acc + o.log;
            }
        }
        assert(nodes_view(nodes@) + Seq::<NodeV>::empty() =~= nodes_view(nodes@));
        assert(acc + Seq::<ErrorView>::empty() =~= acc);
        Some(Ok(nodes))
    }
}

} // verus!
