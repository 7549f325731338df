use vstd::prelude::*;
use crate::token::{Span, TokenKind};

verus! {

/// What a syntax node is. The `usize` fields are indices into the token list.
#[derive(Debug)]
pub enum Data {
    Identifier(usize),
    String(usize),
    Integer(usize),
    Float(usize),
    BinaryOp { lhs: Box<Node>, op: TokenKind, rhs: Box<Node> },
    UnaryOp { op: TokenKind, target: Box<Node> },
    VarDeclaration { name: usize, mutable: bool, ty: Box<ParseType>, value: Box<Node> },
    FnDeclaration {
        name: usize,
        params: Option<Vec<Node>>,
        return_type: Box<ParseType>,
        body: Vec<Node>,
    },
    FnParameter { ty: Box<ParseType>, name: usize },
}

/// A syntax node and the source range it covers.
#[derive(Debug)]
pub struct Node {
    pub data: Data,
    pub span: Span,
}

/// The base of a type.
#[derive(Debug)]
pub enum ParseTypeBase {
    Char,
    Void,
    Byte,
    Short,
    Int,
    Float,
    Pointer(Box<ParseType>),
    Array(Box<ParseType>, Node),
    Function { params: Vec<ParseType>, return_type: Box<ParseType>, variadic: bool },
    Struct(Span),
    Union(Span),
    Enum(Span),
    Alias(Span),
}

/// A type with its `unsigned` and `long` modifiers.
#[derive(Debug)]
pub struct ParseType {
    pub base: ParseTypeBase,
    pub unsigned: bool,
    pub long: bool,
}

/// A [`Data`] as a plain value, its lists as sequences.
pub enum DataV {
    Identifier(usize),
    String(usize),
    Integer(usize),
    Float(usize),
    BinaryOp { lhs: Box<NodeV>, op: TokenKind, rhs: Box<NodeV> },
    UnaryOp { op: TokenKind, target: Box<NodeV> },
    VarDeclaration { name: usize, mutable: bool, ty: Box<TypeV>, value: Box<NodeV> },
    FnDeclaration {
        name: usize,
        params: Option<Seq<NodeV>>,
        return_type: Box<TypeV>,
        body: Seq<NodeV>,
    },
    FnParameter { ty: Box<TypeV>, name: usize },
}

/// A [`Node`] as a plain value.
pub struct NodeV {
    pub data: DataV,
    pub span: Span,
}

/// A [`ParseTypeBase`] as a plain value.
pub enum TypeBaseV {
    Char,
    Void,
    Byte,
    Short,
    Int,
    Float,
    Pointer(Box<TypeV>),
    Array(Box<TypeV>, Box<NodeV>),
    Function { params: Seq<TypeV>, return_type: Box<TypeV>, variadic: bool },
    Struct(Span),
    Union(Span),
    Enum(Span),
    Alias(Span),
}

/// A [`ParseType`] as a plain value.
pub struct TypeV {
    pub base: TypeBaseV,
    pub unsigned: bool,
    pub long: bool,
}

pub open spec fn node_view(n: Node) -> NodeV
    decreases n,
{
    let data = match n.data {
        Data::Identifier(i) => DataV::Identifier(i),
        Data::String(i) => DataV::String(i),
        Data::Integer(i) => DataV::Integer(i),
        Data::Float(i) => DataV::Float(i),
        Data::BinaryOp { lhs, op, rhs } => DataV::BinaryOp {
            lhs: Box::new(node_view(*lhs)),
            op,
            rhs: Box::new(node_view(*rhs)),
        },
        Data::UnaryOp { op, target } => DataV::UnaryOp { op, target: Box::new(node_view(*target)) },
        Data::VarDeclaration { name, mutable, ty, value } => DataV::VarDeclaration {
            name,
            mutable,
            ty: Box::new(type_view(*ty)),
            value: Box::new(node_view(*value)),
        },
        Data::FnDeclaration { name, params, return_type, body } => DataV::FnDeclaration {
            name,
            params: match params {
                Some(ps) => Some(nodes_view(ps@)),
                None => None,
            },
            return_type: Box::new(type_view(*return_type)),
            body: nodes_view(body@),
        },
        Data::FnParameter { ty, name } => DataV::FnParameter { ty: Box::new(type_view(*ty)), name },
    };
    NodeV { data, span: n.span }
}

pub open spec fn nodes_view(s: Seq<Node>) -> Seq<NodeV>
    decreases s,
{
    if s.len() == 0 {
        Seq::empty()
    } else {
        nodes_view(s.subrange(0, s.len() - 1)).push(node_view(s[s.len() - 1]))
    }
}

pub open spec fn type_view(t: ParseType) -> TypeV
    decreases t,
{
    let base = match t.base {
        ParseTypeBase::Char => TypeBaseV::Char,
        ParseTypeBase::Void => TypeBaseV::Void,
        ParseTypeBase::Byte => TypeBaseV::Byte,
        ParseTypeBase::Short => TypeBaseV::Short,
        ParseTypeBase::Int => TypeBaseV::Int,
        ParseTypeBase::Float => TypeBaseV::Float,
        ParseTypeBase::Pointer(inner) => TypeBaseV::Pointer(Box::new(type_view(*inner))),
        ParseTypeBase::Array(inner, size) => TypeBaseV::Array(
            Box::new(type_view(*inner)),
            Box::new(node_view(size)),
        ),
        ParseTypeBase::Function { params, return_type, variadic } => TypeBaseV::Function {
            params: types_view(params@),
            return_type: Box::new(type_view(*return_type)),
            variadic,
        },
        ParseTypeBase::Struct(s) => TypeBaseV::Struct(s),
        ParseTypeBase::Union(s) => TypeBaseV::Union(s),
        ParseTypeBase::Enum(s) => TypeBaseV::Enum(s),
        ParseTypeBase::Alias(s) => TypeBaseV::Alias(s),
    };
    TypeV { base, unsigned: t.unsigned, long: t.long }
}

pub open spec fn types_view(s: Seq<ParseType>) -> Seq<TypeV>
    decreases s,
{
    if s.len() == 0 {
        Seq::empty()
    } else {
        types_view(s.subrange(0, s.len() - 1)).push(type_view(s[s.len() - 1]))
    }
}

/// Viewing a list grown by one node is viewing the list, grown by its view.
pub proof fn lemma_nodes_view_push(s: Seq<Node>, n: Node)
    ensures
        nodes_view(s.push(n)) == nodes_view(s).push(node_view(n)),
{
    assert(s.push(n).subrange(0, s.len() as int) =~= s);
}

/// An optional parameter list, as plain values.
pub open spec fn params_view(p: Option<Vec<Node>>) -> Option<Seq<NodeV>> {
    match p {
        Some(v) => Some(nodes_view(v@)),
        None => None,
    }
}

impl View for Node {
    type V = NodeV;

    open spec fn view(&self) -> NodeV {
        node_view(*self)
    }
}

impl View for ParseType {
    type V = TypeV;

    open spec fn view(&self) -> TypeV {
        type_view(*self)
    }
}

} // verus!
