use vstd::prelude::*;
use vstd::string::*;
use vstd::seq_lib::lemma_concat_associative;
use vstd::utf8::{
    decode_utf8, encode_utf8, is_continuation_byte, pop_first_scalar, encode_utf8_decode_utf8, encode_utf8_valid_utf8, is_char_boundary,
    is_char_boundary_iff_not_is_continuation_byte, is_char_boundary_start_end_of_seq, valid_utf8,
    valid_utf8_split,
};
use crate::node::{
    nodes_view, types_view, Data, DataV, Node, NodeV, ParseType, ParseTypeBase, TypeBaseV, TypeV,
};
use crate::text::{indent_text, push_decimal, push_indent, push_span, span_text, trim, trim_text};
use crate::token::Token;
use crate::lexer::{lemma_lex_shape, lemma_match_ascii_ends, lex_from, pattern_match, tokens_matched, tokens_of};

verus! {

/// What `source.get(start..end)` gives: the text of the bytes `start..end`
/// when both ends fall on character boundaries and `start <= end`.
pub open spec fn slice_text(src: Seq<u8>, start: usize, end: usize) -> Option<Seq<char>> {
    if start <= end && is_char_boundary(src, start as int) && is_char_boundary(src, end as int) {
        Some(decode_utf8(src.subrange(start as int, end as int)))
    } else {
        None
    }
}

/// The source text of token `idx`, or a placeholder when there is no such
/// token or its span does not slice the source.
pub open spec fn token_text(toks: Seq<Token>, src: Seq<u8>, idx: usize) -> Seq<char> {
    if idx < toks.len() {
        match slice_text(src, toks[idx as int].span.start, toks[idx as int].span.end) {
            Some(t) => t,
            None => "<invalid_span>"@,
        }
    } else {
        "<invalid_index>"@
    }
}

pub open spec fn when(b: bool, s: Seq<char>) -> Seq<char> {
    if b {
        s
    } else {
        Seq::empty()
    }
}

/// The lines printed for node `n` at depth `indent`, with the tokens `toks`
/// of the source whose UTF-8 bytes are `src`: one line for the node,
/// `<indent>[<span>] <what>`, then its children one level deeper.
pub open spec fn node_text(toks: Seq<Token>, src: Seq<u8>, n: NodeV, indent: nat) -> Seq<char>
    decreases n, 2nat,
{
    indent_text(indent) + "["@ + span_text(n.span) + "] "@ + node_line_text(toks, src, n)
        + children_text(toks, src, n, indent + 1)
}

/// What the line of node `n` says after its span, up to its end of line.
pub open spec fn node_line_text(toks: Seq<Token>, src: Seq<u8>, n: NodeV) -> Seq<char>
    decreases n, 0nat,
{
    let tok = |i: usize| token_text(toks, src, i);
    match n.data {
        DataV::Identifier(i) => "Identifier: "@ + tok(i) + "\n"@,
        DataV::String(i) => "String: \""@ + tok(i) + "\"\n"@,
        DataV::Integer(i) => "Integer: "@ + tok(i) + "\n"@,
        DataV::Float(i) => "Float: "@ + tok(i) + "\n"@,
        DataV::BinaryOp { op, .. } => "BinaryOp ("@ + op.spec_name() + ")\n"@,
        DataV::UnaryOp { op, .. } => "UnaryOp ("@ + op.spec_name() + ")\n"@,
        DataV::VarDeclaration { name, mutable, ty, .. } => "VarDecl: "@ + when(mutable, "mut "@) + tok(name)
            + " : "@ + type_text(toks, src, *ty) + "\n"@,
        DataV::FnDeclaration { name, return_type, .. } => "FnDecl: "@ + tok(name) + " -> "@
            + type_text(toks, src, *return_type) + "\n"@,
        DataV::FnParameter { ty, name } => "Param: "@ + tok(name) + " : "@ + type_text(toks, src, *ty) + "\n"@,
    }
}

/// The lines of the children of `n`, at depth `depth`.
pub open spec fn children_text(toks: Seq<Token>, src: Seq<u8>, n: NodeV, depth: nat) -> Seq<char>
    decreases n, 1nat,
{
    match n.data {
        DataV::BinaryOp { lhs, rhs, .. } => node_text(toks, src, *lhs, depth) + node_text(toks, src, *rhs, depth),
        DataV::UnaryOp { target, .. } => node_text(toks, src, *target, depth),
        DataV::VarDeclaration { value, .. } => node_text(toks, src, *value, depth),
        DataV::FnDeclaration { params, body, .. } => {
            let ps = match params {
                Some(ps) => nodes_text(toks, src, ps, depth),
                None => Seq::empty(),
            };
            ps + nodes_text(toks, src, body, depth)
        },
        _ => Seq::empty(),
    }
}

/// The lines of each node in turn.
pub open spec fn nodes_text(toks: Seq<Token>, src: Seq<u8>, ns: Seq<NodeV>, indent: nat) -> Seq<char>
    decreases ns, 0nat,
{
    if ns.len() == 0 {
        Seq::empty()
    } else {
        nodes_text(toks, src, ns.subrange(0, ns.len() - 1), indent) + node_text(toks, src, ns[ns.len() - 1], indent)
    }
}

/// A type as the printer writes it: modifiers, then the base.
pub open spec fn type_text(toks: Seq<Token>, src: Seq<u8>, t: TypeV) -> Seq<char>
    decreases t, 0nat,
{
    when(t.unsigned, "unsigned "@) + when(t.long, "long "@) + match t.base {
        TypeBaseV::Char => "char"@,
        TypeBaseV::Void => "void"@,
        TypeBaseV::Byte => "byte"@,
        TypeBaseV::Short => "short"@,
        TypeBaseV::Int => "int"@,
        TypeBaseV::Float => "float"@,
        TypeBaseV::Pointer(inner) => "*"@ + type_text(toks, src, *inner),
        TypeBaseV::Array(inner, size) => "["@ + type_text(toks, src, *inner) + "; "@
            + trim_text(node_text(toks, src, *size, 0)) + "]"@,
        TypeBaseV::Function { params, return_type, variadic } => "fn("@ + types_text(toks, src, params)
            + ")"@ + when(variadic, ", ..."@) + " -> "@ + type_text(toks, src, *return_type),
        TypeBaseV::Struct(s) => "struct<span: "@ + span_text(s) + ">"@,
        TypeBaseV::Union(s) => "union<span: "@ + span_text(s) + ">"@,
        TypeBaseV::Enum(s) => "enum<span: "@ + span_text(s) + ">"@,
        TypeBaseV::Alias(s) => "alias<span: "@ + span_text(s) + ">"@,
    }
}

/// The types of `ts`, separated by `, `.
pub open spec fn types_text(toks: Seq<Token>, src: Seq<u8>, ts: Seq<TypeV>) -> Seq<char>
    decreases ts, 0nat,
{
    if ts.len() == 0 {
        Seq::empty()
    } else if ts.len() == 1 {
        type_text(toks, src, ts[0])
    } else {
        types_text(toks, src, ts.subrange(0, ts.len() - 1)) + ", "@ + type_text(toks, src, ts[ts.len() - 1])
    }
}

/// A function declaration prints as its own line, then the lines of its
/// parameters when it has a parameter list, then the lines of every
/// statement of its body, all one level deeper; with or without parameters,
/// its body is printed.
pub proof fn lemma_fn_decl_text(toks: Seq<Token>, src: Seq<u8>, n: NodeV, indent: nat)
    requires
        n.data is FnDeclaration,
    ensures
        ({
            let line = indent_text(indent) + "["@ + span_text(n.span) + "] "@ + node_line_text(toks, src, n);
            let body = nodes_text(toks, src, n.data->FnDeclaration_body, indent + 1);
            node_text(toks, src, n, indent) == match n.data->FnDeclaration_params {
                Some(ps) => line + nodes_text(toks, src, ps, indent + 1) + body,
                None => line + body,
            }
        }),
        nodes_text(toks, src, n.data->FnDeclaration_body, indent + 1).is_suffix_of(node_text(toks, src, n, indent)),
{
    let line = indent_text(indent) + "["@ + span_text(n.span) + "] "@ + node_line_text(toks, src, n);
    let body = nodes_text(toks, src, n.data->FnDeclaration_body, indent + 1);
    let text = node_text(toks, src, n, indent);
    match n.data->FnDeclaration_params {
        Some(ps) => {
            let pt = nodes_text(toks, src, ps, indent + 1);
            assert(text =~= line + pt + body);
            assert((line + pt) + body =~= line + (pt + body));
            assert(text.subrange(text.len() - body.len(), text.len() as int) =~= body);
        },
        None => {
            assert(Seq::<char>::empty() + body =~= body);
            assert(text =~= line + body);
            assert(text.subrange(text.len() - body.len(), text.len() as int) =~= body);
        },
    }
}

/// A declaration prints as `VarDecl: `, then `mut ` exactly when it is
/// mutable, its name, ` : ` and its type on one line, then the lines of its
/// value one level deeper.
pub proof fn lemma_var_decl_text(toks: Seq<Token>, src: Seq<u8>, n: NodeV, indent: nat)
    requires
        n.data is VarDeclaration,
    ensures
        ({
            let name = n.data->VarDeclaration_name;
            let head = if n.data->VarDeclaration_mutable { "VarDecl: mut "@ } else { "VarDecl: "@ };
            node_text(toks, src, n, indent) == indent_text(indent) + "["@ + span_text(n.span) + "] "@ + head
                + token_text(toks, src, name) + " : "@ + type_text(toks, src, *n.data->VarDeclaration_ty)
                + "\n"@ + node_text(toks, src, *n.data->VarDeclaration_value, indent + 1)
        }),
{
    reveal_strlit("VarDecl: mut ");
    reveal_strlit("VarDecl: ");
    reveal_strlit("mut ");
    let head = if n.data->VarDeclaration_mutable { "VarDecl: mut "@ } else { "VarDecl: "@ };
    assert(head =~= "VarDecl: "@ + when(n.data->VarDeclaration_mutable, "mut "@));
    let front = indent_text(indent) + "["@ + span_text(n.span) + "] "@;
    let rest = token_text(toks, src, n.data->VarDeclaration_name) + " : "@
        + type_text(toks, src, *n.data->VarDeclaration_ty) + "\n"@;
    let kids = node_text(toks, src, *n.data->VarDeclaration_value, indent + 1);
    assert(node_line_text(toks, src, n) =~= head + rest);
    assert(node_text(toks, src, n, indent) =~= front + (head + rest) + kids);
    assert(front + (head + rest) + kids =~= front + head + token_text(toks, src, n.data->VarDeclaration_name)
        + " : "@ + type_text(toks, src, *n.data->VarDeclaration_ty) + "\n"@ + kids);
}

/// The text of a type's base alone, without modifiers.
pub open spec fn base_text(toks: Seq<Token>, src: Seq<u8>, base: TypeBaseV) -> Seq<char> {
    type_text(toks, src, TypeV { base, unsigned: false, long: false })
}

/// A printed type is its modifiers, `unsigned ` before `long `, followed by a
/// text that depends on its base alone: changing only the modifiers changes
/// only the front of the text.
pub proof fn lemma_type_text_parts(toks: Seq<Token>, src: Seq<u8>, t: TypeV)
    ensures
        type_text(toks, src, t) == when(t.unsigned, "unsigned "@) + when(t.long, "long "@)
            + base_text(toks, src, t.base),
{
    let plain = TypeV { base: t.base, unsigned: false, long: false };
    assert(when(false, "unsigned "@) + when(false, "long "@) =~= Seq::<char>::empty());
    assert(type_text(toks, src, plain) == when(false, "unsigned "@) + when(false, "long "@)
        + base_text(toks, src, t.base));
    assert(Seq::<char>::empty() + base_text(toks, src, t.base) =~= base_text(toks, src, t.base));
}

/// A printed type starts with `unsigned ` exactly when the type is unsigned.
pub proof fn lemma_type_text_unsigned(toks: Seq<Token>, src: Seq<u8>, t: TypeV)
    ensures
        "unsigned "@.is_prefix_of(type_text(toks, src, t)) <==> t.unsigned,
{
    reveal_strlit("unsigned ");
    reveal_strlit("long ");
    reveal_strlit("char");
    reveal_strlit("void");
    reveal_strlit("byte");
    reveal_strlit("short");
    reveal_strlit("int");
    reveal_strlit("float");
    reveal_strlit("*");
    reveal_strlit("[");
    reveal_strlit("fn(");
    reveal_strlit("struct<span: ");
    reveal_strlit("union<span: ");
    reveal_strlit("enum<span: ");
    reveal_strlit("alias<span: ");
    lemma_type_text_parts(toks, src, t);
    let u = "unsigned "@;
    let text = type_text(toks, src, t);
    if t.unsigned {
        let rest = when(t.long, "long "@) + base_text(toks, src, t.base);
        assert(text =~= u + rest);
        assert(u =~= text.subrange(0, u.len() as int));
    } else {
        let b = base_text(toks, src, t.base);
        let head: Seq<char> = match t.base {
            TypeBaseV::Char => "char"@,
            TypeBaseV::Void => "void"@,
            TypeBaseV::Byte => "byte"@,
            TypeBaseV::Short => "short"@,
            TypeBaseV::Int => "int"@,
            TypeBaseV::Float => "float"@,
            TypeBaseV::Pointer(_) => "*"@,
            TypeBaseV::Array(_, _) => "["@,
            TypeBaseV::Function { .. } => "fn("@,
            TypeBaseV::Struct(_) => "struct<span: "@,
            TypeBaseV::Union(_) => "union<span: "@,
            TypeBaseV::Enum(_) => "enum<span: "@,
            TypeBaseV::Alias(_) => "alias<span: "@,
        };
        assert(exists|k: int| 0 <= k < head.len() && k < u.len() && #[trigger] head[k] != u[k]) by {
            if head.len() >= 3 && head[0] == 'u' {
                assert(head[2] != u[2]);
            } else {
                assert(head[0] != u[0]);
            }
        }
        assert(head.is_prefix_of(b));
        assert(!u.is_prefix_of(text)) by {
            if u.is_prefix_of(text) {
                if t.long {
                    assert(text[0] == 'l');
                    assert(u[0] == text[0]);
                } else {
                    let k = choose|k: int| 0 <= k < head.len() && k < u.len() && #[trigger] head[k] != u[k];
                    assert(text[k] == head[k]);
                    assert(text[k] == u[k]);
                }
            }
        }
    }
}

/// Printing two lists of nodes one after the other prints their
/// concatenation.
pub proof fn lemma_nodes_text_concat(toks: Seq<Token>, src: Seq<u8>, a: Seq<NodeV>, b: Seq<NodeV>, indent: nat)
    ensures
        nodes_text(toks, src, a + b, indent) == nodes_text(toks, src, a, indent) + nodes_text(toks, src, b, indent),
    decreases b.len(),
{
    if b.len() == 0 {
        assert(a + b =~= a);
        assert(nodes_text(toks, src, a, indent) + Seq::<char>::empty() =~= nodes_text(toks, src, a, indent));
    } else {
        let b1 = b.subrange(0, b.len() - 1);
        lemma_nodes_text_concat(toks, src, a, b1, indent);
        assert((a + b).subrange(0, (a + b).len() - 1) =~= a + b1);
        assert((a + b)[(a + b).len() - 1] == b[b.len() - 1]);
        let x = nodes_text(toks, src, a, indent);
        let y = nodes_text(toks, src, b1, indent);
        let z = node_text(toks, src, b[b.len() - 1], indent);
        assert(x + y + z =~= x + (y + z));
    }
}

/// Every node of `n` sits at a depth that a `usize` holds, counting from
/// `indent` (the nodes inside a type count from 0).
pub open spec fn printable(n: NodeV, indent: nat) -> bool
    decreases n,
{
    &&& indent <= usize::MAX
    &&& match n.data {
        DataV::BinaryOp { lhs, rhs, .. } => printable(*lhs, (indent + 1) as nat) && printable(*rhs, (indent + 1) as nat),
        DataV::UnaryOp { target, .. } => printable(*target, (indent + 1) as nat),
        DataV::VarDeclaration { ty, value, .. } => type_printable(*ty) && printable(*value, (indent + 1) as nat),
        DataV::FnDeclaration { params, return_type, body, .. } => {
            &&& match params {
                Some(ps) => all_printable(ps, (indent + 1) as nat),
                None => true,
            }
            &&& type_printable(*return_type)
            &&& all_printable(body, (indent + 1) as nat)
        },
        DataV::FnParameter { ty, .. } => type_printable(*ty),
        _ => true,
    }
}

/// The types on the line of `n` can be written.
pub open spec fn line_printable(n: NodeV) -> bool {
    match n.data {
        DataV::VarDeclaration { ty, .. } => type_printable(*ty),
        DataV::FnDeclaration { return_type, .. } => type_printable(*return_type),
        DataV::FnParameter { ty, .. } => type_printable(*ty),
        _ => true,
    }
}

pub open spec fn all_printable(ns: Seq<NodeV>, indent: nat) -> bool
    decreases ns,
{
    ns.len() == 0 || (all_printable(ns.subrange(0, ns.len() - 1), indent) && printable(ns[ns.len() - 1], indent))
}

pub open spec fn type_printable(t: TypeV) -> bool
    decreases t,
{
    match t.base {
        TypeBaseV::Pointer(inner) => type_printable(*inner),
        TypeBaseV::Array(inner, size) => type_printable(*inner) && printable(*size, 0),
        TypeBaseV::Function { params, return_type, .. } => all_types_printable(params) && type_printable(*return_type),
        _ => true,
    }
}

pub open spec fn all_types_printable(ts: Seq<TypeV>) -> bool
    decreases ts,
{
    ts.len() == 0 || (all_types_printable(ts.subrange(0, ts.len() - 1)) && type_printable(ts[ts.len() - 1]))
}

proof fn lemma_nodes_view_index(s: Seq<Node>)
    ensures
        nodes_view(s).len() == s.len(),
        forall|i: int| 0 <= i < s.len() ==> #[trigger] nodes_view(s)[i] == s[i]@,
    decreases s.len(),
{
    if s.len() > 0 {
        lemma_nodes_view_index(s.subrange(0, s.len() - 1));
    }
}

proof fn lemma_types_view_index(s: Seq<ParseType>)
    ensures
        types_view(s).len() == s.len(),
        forall|i: int| 0 <= i < s.len() ==> #[trigger] types_view(s)[i] == s[i]@,
    decreases s.len(),
{
    if s.len() > 0 {
        lemma_types_view_index(s.subrange(0, s.len() - 1));
    }
}

proof fn lemma_all_printable(ns: Seq<NodeV>, indent: nat, i: int)
    requires
        all_printable(ns, indent),
        0 <= i < ns.len(),
    ensures
        printable(ns[i], indent),
    decreases ns.len(),
{
    if i < ns.len() - 1 {
        lemma_all_printable(ns.subrange(0, ns.len() - 1), indent, i);
    }
}

proof fn lemma_all_types_printable(ts: Seq<TypeV>, i: int)
    requires
        all_types_printable(ts),
        0 <= i < ts.len(),
    ensures
        type_printable(ts[i]),
    decreases ts.len(),
{
    if i < ts.len() - 1 {
        lemma_all_types_printable(ts.subrange(0, ts.len() - 1), i);
    }
}

proof fn lemma_nodes_text_step(toks: Seq<Token>, src: Seq<u8>, ns: Seq<NodeV>, i: int, indent: nat)
    requires
        0 <= i < ns.len(),
    ensures
        nodes_text(toks, src, ns.subrange(0, i + 1), indent)
            == nodes_text(toks, src, ns.subrange(0, i), indent) + node_text(toks, src, ns[i], indent),
{
    assert(ns.subrange(0, i + 1).subrange(0, i) =~= ns.subrange(0, i));
}

proof fn lemma_types_text_step(toks: Seq<Token>, src: Seq<u8>, ts: Seq<TypeV>, i: int)
    requires
        0 <= i < ts.len(),
    ensures
        types_text(toks, src, ts.subrange(0, i + 1)) == if i == 0 {
            type_text(toks, src, ts[0])
        } else {
            types_text(toks, src, ts.subrange(0, i)) + ", "@ + type_text(toks, src, ts[i])
        },
{
    assert(ts.subrange(0, i + 1).subrange(0, i) =~= ts.subrange(0, i));
}

/// A character boundary of a UTF-8 text is one of each prefix that holds it.
proof fn lemma_boundary_in_prefix(b: Seq<u8>, start: int, end: int)
    requires
        valid_utf8(b),
        is_char_boundary(b, start),
        is_char_boundary(b, end),
        0 <= start <= end,
    ensures
        valid_utf8(b.subrange(0, end)),
        is_char_boundary(b.subrange(0, end), start),
{
    valid_utf8_split(b, end);
    let pre = b.subrange(0, end);
    if start == end {
        is_char_boundary_start_end_of_seq(pre);
    } else if start > 0 {
        is_char_boundary_iff_not_is_continuation_byte(b, start);
        is_char_boundary_iff_not_is_continuation_byte(pre, start);
    }
}

/// In UTF-8, the byte after an ASCII byte starts a character.
proof fn lemma_after_ascii(b: Seq<u8>, i: int)
    requires
        valid_utf8(b),
        0 <= i,
        i + 1 < b.len(),
        b[i] < 128,
    ensures
        !is_continuation_byte(b[i + 1]),
{
    is_char_boundary_iff_not_is_continuation_byte(b, i);
    valid_utf8_split(b, i);
    let c = b.subrange(i, b.len() as int);
    let d = b.subrange(i + 1, b.len() as int);
    assert(pop_first_scalar(c) =~= d);
    assert(valid_utf8(d));
    assert(is_char_boundary(d, 0));
    is_char_boundary_iff_not_is_continuation_byte(d, 0);
    assert(d[0] == b[i + 1]);
}

/// The printer resolves every token that the lexer reads from a text to the
/// text of its own bytes, never to a placeholder.
pub proof fn lemma_lexed_tokens_resolve(text: Seq<char>, k: usize)
    requires
        k + 1 < tokens_of(encode_utf8(text)).len(),
        encode_utf8(text).len() <= usize::MAX,
    ensures
        ({
            let b = encode_utf8(text);
            let t = tokens_of(b)[k as int];
            token_text(tokens_of(b), b, k) == decode_utf8(b.subrange(t.span.start as int, t.span.end as int))
        }),
{
    let b = encode_utf8(text);
    encode_utf8_valid_utf8(text);
    lemma_lex_shape(b, 0);
    let toks = lex_from(b, 0);
    let t = toks[k as int];
    assert(tokens_of(b)[k as int] == t);
    assert(tokens_matched(b, 0, toks));
    let start = t.span.start as int;
    let end = t.span.end as int;
    assert(pattern_match(t.kind, b, start, end - start));
    lemma_match_ascii_ends(t.kind, b, start, end - start);
    is_char_boundary_iff_not_is_continuation_byte(b, start);
    if end == b.len() {
        is_char_boundary_start_end_of_seq(b);
    } else {
        lemma_after_ascii(b, end - 1);
        is_char_boundary_iff_not_is_continuation_byte(b, end);
    }
}

/// The tokens and the source text that a printer resolves node indices with.
pub struct ASTContext<'a> {
    pub tokens: &'a [Token],
    pub source: &'a str,
}

/// Writes syntax trees as indented text, one line per node.
pub struct ASTPrinter<'a> {
    ctx: &'a ASTContext<'a>,
}

impl<'a> ASTPrinter<'a> {
    /// The tokens that node indices refer to.
    pub closed spec fn toks(&self) -> Seq<Token> {
        self.ctx.tokens@
    }

    /// The UTF-8 bytes of the source text.
    pub closed spec fn src(&self) -> Seq<u8> {
        self.ctx.source.spec_bytes()
    }

    pub fn new(ctx: &'a ASTContext<'a>) -> (p: Self)
        ensures
            p.toks() == ctx.tokens@,
            p.src() == ctx.source.spec_bytes(),
    {
        Self { ctx }
    }

    /// The lines of every node, in order, each tree starting at depth 0.
    pub fn print(&self, nodes: &[Node]) -> (output: String)
        requires
            all_printable(nodes_view(nodes@), 0),
        ensures
            output@ == nodes_text(self.toks(), self.src(), nodes_view(nodes@), 0),
    {
        let mut output = String::new();
        let ghost ns = nodes_view(nodes@);
        proof {
            lemma_nodes_view_index(nodes@);
            assert(ns.subrange(0, 0) =~= Seq::<NodeV>::empty());
        }
        let n = nodes.len();
        for i in 0..n
            invariant
                n == nodes@.len(),
                ns == nodes_view(nodes@),
                ns.len() == n,
                forall|j: int| 0 <= j < n ==> #[trigger] ns[j] == nodes@[j]@,
                all_printable(ns, 0),
                output@ == nodes_text(self.toks(), self.src(), ns.subrange(0, i as int), 0),
        {
            proof {
                lemma_all_printable(ns, 0, i as int);
                lemma_nodes_text_step(self.toks(), self.src(), ns, i as int, 0);
            }
            self.print_node(&nodes[i], 0, &mut output);
        }
        assert(ns.subrange(0, n as int) =~= ns);
        output
    }

    /// The source text of token `idx`; `<invalid_index>` when there is no
    /// such token, `<invalid_span>` when its span does not slice the source.
    fn resolve_token(&self, idx: usize) -> (s: &str)
        ensures
            s@ == token_text(self.toks(), self.src(), idx),
    {
        if idx < self.ctx.tokens.len() {
            let token = self.ctx.tokens[idx];
            let start = token.span.start;
            let end = token.span.end;
            if start <= end && self.ctx.source.is_char_boundary(start) && self.ctx.source.is_char_boundary(end) {
                let ghost b = self.src();
                proof {
                    encode_utf8_valid_utf8(self.ctx.source@);
                    lemma_boundary_in_prefix(b, start as int, end as int);
                }
                let (head, _) = self.ctx.source.split_at(end);
                let (_, piece) = head.split_at(start);
                proof {
                    assert(piece.spec_bytes() =~= b.subrange(start as int, end as int));
                    encode_utf8_decode_utf8(piece@);
                }
                piece
            } else {
                "<invalid_span>"
            }
        } else {
            "<invalid_index>"
        }
    }

    /// Appends the lines of `node` at depth `indent` to `out`.
    fn print_node(&self, node: &Node, indent: usize, out: &mut String)
        requires
            printable(node@, indent as nat),
        ensures
            final(out)@ == old(out)@ + node_text(self.toks(), self.src(), node@, indent as nat),
        decreases node, 2nat,
    {
        let ghost toks = self.toks();
        let ghost src = self.src();
        let ghost depth = (indent + 1) as nat;
        let ghost n = node@;
        push_indent(out, indent);
        out.append("[");
        push_span(out, node.span);
        out.append("] ");
        let ghost head = indent_text(indent as nat) + "["@ + span_text(n.span) + "] "@;
        assert(out@ =~= old(out)@ + head);
        assert(line_printable(n));
        let line = self.node_line(node);
        out.append(line.as_str());
        let ghost before_children = out@;
        let ghost children = children_text(toks, src, n, depth);
        match &node.data {
            Data::BinaryOp { lhs, rhs, .. } => {
                assert(n.data matches DataV::BinaryOp { lhs: l, rhs: r, .. } && *l == lhs@ && *r == rhs@);
                assert(printable(lhs@, depth) && printable(rhs@, depth));
                self.print_node(lhs, indent + 1, out);
                self.print_node(rhs, indent + 1, out);
                assert(out@ =~= before_children + children);
            },
            Data::UnaryOp { target, .. } => {
                assert(n.data matches DataV::UnaryOp { target: t, .. } && *t == target@);
                assert(printable(target@, depth));
                self.print_node(target, indent + 1, out);
                assert(out@ =~= before_children + children);
            },
            Data::VarDeclaration { value, .. } => {
                assert(n.data matches DataV::VarDeclaration { value: v, .. } && *v == value@);
                assert(printable(value@, depth));
                self.print_node(value, indent + 1, out);
                assert(out@ =~= before_children + children);
            },
            Data::FnDeclaration { params, body, .. } => {
                assert(n.data matches DataV::FnDeclaration { body: b, params: ps, .. }
                    && b == nodes_view(body@) && ps == crate::node::params_view(*params));
                assert(all_printable(nodes_view(body@), depth));
                if let Some(p_list) = params {
                    assert(all_printable(nodes_view(p_list@), depth));
                    self.print_children(p_list, indent, out);
                } else {
                    assert(out@ =~= before_children + Seq::<char>::empty());
                }
                self.print_children(body, indent, out);
                assert(out@ =~= before_children + children);
            },
            _ => {
                assert(out@ =~= before_children + children);
            },
        }
        proof {
            let line_v = node_line_text(toks, src, n);
            lemma_concat_associative(old(out)@, head, line_v);
            lemma_concat_associative(old(out)@, head + line_v, children);
        }
    }

    /// The line of `node` after its span, up to and including its end of line.
    fn node_line(&self, node: &Node) -> (line: String)
        requires
            line_printable(node@),
        ensures
            line@ == node_line_text(self.toks(), self.src(), node@),
        decreases node, 0nat,
    {
        let mut out = String::new();
        match &node.data {
            Data::Identifier(idx) => {
                out.append("Identifier: ");
                out.append(self.resolve_token(*idx));
                out.append("\n");
            },
            Data::String(idx) => {
                out.append("String: \"");
                out.append(self.resolve_token(*idx));
                out.append("\"\n");
            },
            Data::Integer(idx) => {
                out.append("Integer: ");
                out.append(self.resolve_token(*idx));
                out.append("\n");
            },
            Data::Float(idx) => {
                out.append("Float: ");
                out.append(self.resolve_token(*idx));
                out.append("\n");
            },
            Data::BinaryOp { op, .. } => {
                out.append("BinaryOp (");
                out.append(op.name());
                out.append(")\n");
            },
            Data::UnaryOp { op, .. } => {
                out.append("UnaryOp (");
                out.append(op.name());
                out.append(")\n");
            },
            Data::VarDeclaration { name, mutable, ty, .. } => {
                let mut_str = if *mutable { "mut " } else { "" };
                let name_str = self.resolve_token(*name);
                let ty_str = self.format_type(ty);
                out.append("VarDecl: ");
                out.append(mut_str);
                out.append(name_str);
                out.append(" : ");
                out.append(ty_str.as_str());
                out.append("\n");
                proof {
                    reveal_strlit("");
                }
            },
            Data::FnDeclaration { name, return_type, .. } => {
                let name_str = self.resolve_token(*name);
                let ty_str = self.format_type(return_type);
                out.append("FnDecl: ");
                out.append(name_str);
                out.append(" -> ");
                out.append(ty_str.as_str());
                out.append("\n");
            },
            Data::FnParameter { ty, name } => {
                let name_str = self.resolve_token(*name);
                let ty_str = self.format_type(ty);
                out.append("Param: ");
                out.append(name_str);
                out.append(" : ");
                out.append(ty_str.as_str());
                out.append("\n");
            },
        }
        assert(out@ =~= node_line_text(self.toks(), self.src(), node@));
        out
    }

    /// Appends the lines of each of `nodes`, one level deeper than `indent`, to
    /// `out`.
    fn print_children(&self, nodes: &Vec<Node>, indent: usize, out: &mut String)
        requires
            all_printable(nodes_view(nodes@), (indent + 1) as nat),
        ensures
            final(out)@ == old(out)@ + nodes_text(self.toks(), self.src(), nodes_view(nodes@), (indent + 1) as nat),
        decreases nodes, 0nat,
    {
        let ghost ns = nodes_view(nodes@);
        let ghost depth = (indent + 1) as nat;
        proof {
            lemma_nodes_view_index(nodes@);
            assert(ns.subrange(0, 0) =~= Seq::<NodeV>::empty());
            assert(out@ =~= old(out)@ + nodes_text(self.toks(), self.src(), ns.subrange(0, 0), depth));
        }
        let n = nodes.len();
        for i in 0..n
            invariant
                n == nodes@.len(),
                ns == nodes_view(nodes@),
                ns.len() == n,
                depth == indent + 1,
                forall|j: int| 0 <= j < n ==> #[trigger] ns[j] == nodes@[j]@,
                all_printable(ns, depth),
                out@ == old(out)@ + nodes_text(self.toks(), self.src(), ns.subrange(0, i as int), depth),
        {
            proof {
                lemma_all_printable(ns, depth, i as int);
                lemma_nodes_text_step(self.toks(), self.src(), ns, i as int, depth);
            }
            self.print_node(&nodes[i], indent + 1, out);
            assert(out@ =~= old(out)@ + nodes_text(self.toks(), self.src(), ns.subrange(0, i + 1), depth));
        }
        assert(ns.subrange(0, n as int) =~= ns);
    }

    /// A type as text: `unsigned `/`long ` modifiers, then the base.
    fn format_type(&self, parse_type: &ParseType) -> (s: String)
        requires
            type_printable(parse_type@),
        ensures
            s@ == type_text(self.toks(), self.src(), parse_type@),
        decreases parse_type, 0nat,
    {
        let ghost toks = self.toks();
        let ghost src = self.src();
        let mut modifiers = String::new();
        if parse_type.unsigned {
            modifiers.append("unsigned ");
        }
        if parse_type.long {
            modifiers.append("long ");
        }
        let base_str = match &parse_type.base {
            ParseTypeBase::Char => String::from_str("char"),
            ParseTypeBase::Void => String::from_str("void"),
            ParseTypeBase::Byte => String::from_str("byte"),
            ParseTypeBase::Short => String::from_str("short"),
            ParseTypeBase::Int => String::from_str("int"),
            ParseTypeBase::Float => String::from_str("float"),
            ParseTypeBase::Pointer(inner) => {
                let mut s = String::from_str("*");
                let inner_str = self.format_type(inner);
                s.append(inner_str.as_str());
                s
            },
            ParseTypeBase::Array(inner, size_node) => {
                let mut size_str = String::new();
                self.print_node(size_node, 0, &mut size_str);
                let inner_str = self.format_type(inner);
                let mut s = String::from_str("[");
                s.append(inner_str.as_str());
                s.append("; ");
                s.append(trim(size_str.as_str()));
                s.append("]");
                s
            },
            ParseTypeBase::Function { params, return_type, variadic } => {
                let mut s = String::from_str("fn(");
                self.push_types(params, &mut s);
                s.append(")");
                if *variadic {
                    s.append(", ...");
                }
                s.append(" -> ");
                let rt = self.format_type(return_type);
                s.append(rt.as_str());
                s
            },
            ParseTypeBase::Struct(span) => {
                let mut s = String::from_str("struct<span: ");
                push_span(&mut s, *span);
                s.append(">");
                s
            },
            ParseTypeBase::Union(span) => {
                let mut s = String::from_str("union<span: ");
                push_span(&mut s, *span);
                s.append(">");
                s
            },
            ParseTypeBase::Enum(span) => {
                let mut s = String::from_str("enum<span: ");
                push_span(&mut s, *span);
                s.append(">");
                s
            },
            ParseTypeBase::Alias(span) => {
                let mut s = String::from_str("alias<span: ");
                push_span(&mut s, *span);
                s.append(">");
                s
            },
        };
        proof {
            reveal_strlit("");
        }
        modifiers.append(base_str.as_str());
        assert(modifiers@ =~= type_text(toks, src, parse_type@));
        modifiers
    }

    /// Appends the types of `params`, separated by `, `, to `out`.
    fn push_types(&self, params: &Vec<ParseType>, out: &mut String)
        requires
            all_types_printable(types_view(params@)),
        ensures
            final(out)@ == old(out)@ + types_text(self.toks(), self.src(), types_view(params@)),
        decreases params, 0nat,
    {
        let ghost ts = types_view(params@);
        proof {
            lemma_types_view_index(params@);
            assert(ts.subrange(0, 0) =~= Seq::<TypeV>::empty());
            assert(out@ =~= old(out)@ + types_text(self.toks(), self.src(), ts.subrange(0, 0)));
        }
        let n = params.len();
        for i in 0..n
            invariant
                n == params@.len(),
                ts == types_view(params@),
                ts.len() == n,
                forall|j: int| 0 <= j < n ==> #[trigger] ts[j] == params@[j]@,
                all_types_printable(ts),
                out@ == old(out)@ + types_text(self.toks(), self.src(), ts.subrange(0, i as int)),
        {
            proof {
                lemma_all_types_printable(ts, i as int);
                lemma_types_text_step(self.toks(), self.src(), ts, i as int);
            }
            if i > 0 {
                out.append(", ");
            }
            let t = self.format_type(&params[i]);
            out.append(t.as_str());
            assert(out@ =~= old(out)@ + types_text(self.toks(), self.src(), ts.subrange(0, i + 1)));
        }
        assert(ts.subrange(0, n as int) =~= ts);
    }
}

} // verus!
