//! The syntax tree and the parser that builds it from tokens.
//!
//! Nodes live in an append-only arena and refer to their children by index;
//! every child stands before its parent.

use crate::interner::Symbol;
use crate::token::{self, Token};
use vstd::prelude::*;

verus! {

/// Index of a node in the arena.
pub type AstIdx = usize;

/// Index of a token in the token sequence.
pub type TokenIdx = usize;

/// What a node is; children are arena indices.
#[derive(Clone, Debug, PartialEq, Eq)]
pub enum Kind {
    Number { value: Symbol },
    Identifier { name: Symbol },
    BinaryOp { lhs: AstIdx, rhs: AstIdx, op: token::Kind },
    If { cond: AstIdx, if_branch: AstIdx, else_branch: Option<AstIdx> },
    Loop { body: AstIdx },
    UnaryOp { expr: AstIdx, op: token::Kind },
    Call { callee: AstIdx, args: Vec<AstIdx> },
    Function { params: Vec<AstIdx>, result: AstIdx, body: AstIdx },
    Block { statements: Vec<AstIdx> },
    Import,
    Return { expr: AstIdx },
    Error,
}

/// A node and the range of token positions recorded for it.
pub struct Node {
    pub kind: Kind,
    pub span: (TokenIdx, TokenIdx),
}

/// The mathematical value of a node kind.
pub enum KindV {
    Number(Symbol),
    Identifier(Symbol),
    BinaryOp(AstIdx, AstIdx, token::Kind),
    If(AstIdx, AstIdx, Option<AstIdx>),
    Loop(AstIdx),
    UnaryOp(AstIdx, token::Kind),
    Call(AstIdx, Seq<AstIdx>),
    Function(Seq<AstIdx>, AstIdx, AstIdx),
    Block(Seq<AstIdx>),
    Import,
    Return(AstIdx),
    Error,
}

/// The mathematical value of a node.
pub struct NodeV {
    pub kind: KindV,
    pub span: (TokenIdx, TokenIdx),
}

impl View for Kind {
    type V = KindV;

    open spec fn view(&self) -> KindV {
        match self {
            Kind::Number { value } => KindV::Number(*value),
            Kind::Identifier { name } => KindV::Identifier(*name),
            Kind::BinaryOp { lhs, rhs, op } => KindV::BinaryOp(*lhs, *rhs, *op),
            Kind::If { cond, if_branch, else_branch } => KindV::If(*cond, *if_branch, *else_branch),
            Kind::Loop { body } => KindV::Loop(*body),
            Kind::UnaryOp { expr, op } => KindV::UnaryOp(*expr, *op),
            Kind::Call { callee, args } => KindV::Call(*callee, args@),
            Kind::Function { params, result, body } => KindV::Function(params@, *result, *body),
            Kind::Block { statements } => KindV::Block(statements@),
            Kind::Import => KindV::Import,
            Kind::Return { expr } => KindV::Return(*expr),
            Kind::Error => KindV::Error,
        }
    }
}

impl View for Node {
    type V = NodeV;

    open spec fn view(&self) -> NodeV {
        NodeV { kind: self.kind@, span: self.span }
    }
}

/// The values of the nodes of an arena.
pub open spec fn arena_view(v: Seq<Node>) -> Seq<NodeV> {
    Seq::new(v.len(), |k: int| v[k]@)
}

/// Every index of `ss` is below `i`.
pub open spec fn all_below(ss: Seq<AstIdx>, i: int) -> bool {
    forall|j: int| 0 <= j < ss.len() ==> ss[j] < i
}

/// Every child index of `k` is below `i`.
pub open spec fn refs_below(k: KindV, i: int) -> bool {
    match k {
        KindV::BinaryOp(l, r, _) => l < i && r < i,
        KindV::If(c, t, e) => c < i && t < i && (e matches Some(x) ==> x < i),
        KindV::Loop(b) => b < i,
        KindV::UnaryOp(e, _) => e < i,
        KindV::Call(c, args) => c < i && all_below(args, i),
        KindV::Function(ps, r, b) => r < i && b < i && all_below(ps, i),
        KindV::Block(ss) => all_below(ss, i),
        KindV::Return(e) => e < i,
        _ => true,
    }
}

/// Every node refers only to nodes that stand before it.
pub open spec fn forward_only(a: Seq<NodeV>) -> bool {
    forall|i: int| 0 <= i < a.len() ==> refs_below(#[trigger] a[i].kind, i)
}

/// Binding power of a binary operator token; `None` for any other token.
pub open spec fn prec_of(k: token::Kind) -> Option<usize> {
    match k {
        token::Kind::ColonEqual | token::Kind::Equal => Some(1),
        token::Kind::Plus | token::Kind::Minus => Some(10),
        token::Kind::Multiply | token::Kind::Divide => Some(20),
        token::Kind::LessThan | token::Kind::GreaterThan | token::Kind::LessThanOrEqual
        | token::Kind::GreaterThanOrEqual => Some(30),
        token::Kind::EqualEqual | token::Kind::NotEqual => Some(40),
        token::Kind::Dot | token::Kind::Arrow => Some(50),
        token::Kind::ColonColon => Some(60),
        _ => None,
    }
}

/// `k` is an operator that binds at least as tightly as `min`.
pub open spec fn binds(k: token::Kind, min: usize) -> bool {
    match prec_of(k) {
        Some(pr) => pr >= min,
        None => false,
    }
}

/// `x` when it lies between `lo` and `hi`, else `lo`. Positions that the
/// parse functions return always lie there; this keeps their recursion
/// visibly well-founded.
pub open spec fn within(lo: int, x: int, hi: int) -> int {
    if lo <= x <= hi {
        x
    } else {
        lo
    }
}

/// The span recorded for a node made when the cursor is at `p`.
pub open spec fn atom_span(p: int) -> (TokenIdx, TokenIdx) {
    (p as usize, (p + 1) as usize)
}

/// A node of kind `k` made when the cursor is at `p`.
pub open spec fn leaf(k: KindV, p: int) -> NodeV {
    NodeV { kind: k, span: atom_span(p) }
}

/// One atom read from position `pos`: the arena after it, the atom's
/// index, and the position after it.
pub open spec fn p_atom(toks: Seq<Token>, pos: int, a: Seq<NodeV>) -> (Seq<NodeV>, int, int)
    decreases toks.len() - pos, 0int,
{
    if pos < 0 || pos >= toks.len() {
        (a.push(leaf(KindV::Error, pos)), a.len() as int, pos)
    } else {
        let p = pos + 1;
        match toks[pos].kind {
            token::Kind::Number(v) => (a.push(leaf(KindV::Number(v), p)), a.len() as int, p),
            token::Kind::Identifier(n) => (a.push(leaf(KindV::Identifier(n), p)), a.len() as int, p),
            token::Kind::If => {
                let (a1, cond, p1) = p_expr(toks, p, a, 0);
                let (a2, then, p2) = p_expr(toks, within(p, p1, toks.len() as int), a1, 0);
                let q = within(p, p2, toks.len() as int);
                if q < toks.len() && toks[q].kind == token::Kind::Else {
                    let (a3, other, p3) = p_expr(toks, q + 1, a2, 0);
                    let r = within(q + 1, p3, toks.len() as int);
                    (
                        a3.push(leaf(KindV::If(cond as usize, then as usize, Some(other as usize)), r)),
                        a3.len() as int,
                        r,
                    )
                } else {
                    (a2.push(leaf(KindV::If(cond as usize, then as usize, None), q)), a2.len() as int, q)
                }
            },
            token::Kind::LBrace => {
                let (a1, stmts, p1) = p_block(toks, p, a, Seq::empty());
                let r = within(p, p1, toks.len() as int);
                (a1.push(leaf(KindV::Block(stmts), r)), a1.len() as int, r)
            },
            token::Kind::Return => {
                let (a1, e, p1) = p_expr(toks, p, a, 0);
                let r = within(p, p1, toks.len() as int);
                (a1.push(leaf(KindV::Return(e as usize), r)), a1.len() as int, r)
            },
            _ => (a.push(leaf(KindV::Error, p)), a.len() as int, p),
        }
    }
}

/// Operators of binding power at least `min` folded onto `lhs`, each with a
/// single atom as its right operand.
pub open spec fn p_binop(toks: Seq<Token>, pos: int, a: Seq<NodeV>, lhs: int, min: usize) -> (
    Seq<NodeV>,
    int,
    int,
)
    decreases toks.len() - pos, 1int,
{
    if 0 <= pos < toks.len() && binds(toks[pos].kind, min) {
        let (a1, rhs, p1) = p_atom(toks, pos + 1, a);
        let node = NodeV {
            kind: KindV::BinaryOp(lhs as usize, rhs as usize, toks[pos].kind),
            span: (a1[lhs].span.0, a1[rhs].span.1),
        };
        p_binop(toks, within(pos + 1, p1, toks.len() as int), a1.push(node), a1.len() as int, min)
    } else {
        (a, lhs, pos)
    }
}

/// An expression from position `pos`: an atom, then the operators folded onto it.
pub open spec fn p_expr(toks: Seq<Token>, pos: int, a: Seq<NodeV>, min: usize) -> (
    Seq<NodeV>,
    int,
    int,
)
    decreases toks.len() - pos, 2int,
{
    let (a1, lhs, p1) = p_atom(toks, pos, a);
    p_binop(toks, within(pos, p1, toks.len() as int), a1, lhs, min)
}

/// The statements of a block from `pos` up to its closing brace, which is
/// consumed when present.
pub open spec fn p_block(toks: Seq<Token>, pos: int, a: Seq<NodeV>, stmts: Seq<AstIdx>) -> (
    Seq<NodeV>,
    Seq<AstIdx>,
    int,
)
    decreases toks.len() - pos, 3int,
{
    if 0 <= pos < toks.len() {
        if toks[pos].kind == token::Kind::RBrace {
            (a, stmts, pos + 1)
        } else {
            let (a1, e, p1) = p_expr(toks, pos, a, 0);
            p_block(toks, within(pos + 1, p1, toks.len() as int), a1, stmts.push(e as usize))
        }
    } else {
        (a, stmts, pos)
    }
}

/// Top-level expressions from `pos` to the end of the tokens.
pub open spec fn p_program(toks: Seq<Token>, pos: int, a: Seq<NodeV>, defs: Seq<AstIdx>) -> (
    Seq<AstIdx>,
    Seq<NodeV>,
)
    decreases toks.len() - pos,
{
    if 0 <= pos < toks.len() {
        let (a1, e, p1) = p_expr(toks, pos, a, 0);
        p_program(toks, within(pos + 1, p1, toks.len() as int), a1, defs.push(e as usize))
    } else {
        (defs, a)
    }
}

/// The definitions and arena that parsing `toks` gives.
pub open spec fn parse_spec(toks: Seq<Token>) -> (Seq<AstIdx>, Seq<NodeV>) {
    p_program(toks, 0, Seq::empty(), Seq::empty())
}

/// `new` holds the nodes of `old` at the same indices: the arena only grows
/// at its end.
pub open spec fn extends(new: Seq<Node>, old: Seq<Node>) -> bool {
    &&& old.len() <= new.len()
    &&& forall|k: int| 0 <= k < old.len() ==> new[k] == old[k]
}

/// The exec result `r` of parsing from `pos` over arena `old`, now `new`,
/// is the spec result `sr`.
pub open spec fn parsed(
    toks: Seq<Token>,
    pos: int,
    old: Seq<Node>,
    new: Seq<Node>,
    r: (AstIdx, usize),
    sr: (Seq<NodeV>, int, int),
) -> bool {
    &&& arena_view(new) == sr.0
    &&& r.0 as int == sr.1
    &&& r.1 as int == sr.2
    &&& forward_only(arena_view(new))
    &&& old.len() <= new.len()
    &&& extends(new, old)
    &&& r.0 < new.len()
    &&& pos <= r.1 <= toks.len()
    &&& (pos < toks.len() ==> pos < r.1)
}

/// Appends `node` to the arena and returns its index.
fn save_ast(nodes: &mut Vec<Node>, node: Node) -> (r: AstIdx)
    requires
        forward_only(arena_view(old(nodes)@)),
        refs_below(node@.kind, old(nodes)@.len() as int),
    ensures
        final(nodes)@ == old(nodes)@.push(node),
        arena_view(final(nodes)@) == arena_view(old(nodes)@).push(node@),
        forward_only(arena_view(final(nodes)@)),
        r == old(nodes)@.len(),
{
    nodes.push(node);
    proof {
        assert(arena_view(nodes@) =~= arena_view(old(nodes)@).push(node@));
    }
    nodes.len() - 1
}

fn precedence(k: &token::Kind) -> (r: Option<usize>)
    ensures
        r == prec_of(*k),
{
    match k {
        token::Kind::ColonEqual | token::Kind::Equal => Some(1),
        token::Kind::Plus | token::Kind::Minus => Some(10),
        token::Kind::Multiply | token::Kind::Divide => Some(20),
        token::Kind::LessThan | token::Kind::GreaterThan | token::Kind::LessThanOrEqual
        | token::Kind::GreaterThanOrEqual => Some(30),
        token::Kind::EqualEqual | token::Kind::NotEqual => Some(40),
        token::Kind::Dot | token::Kind::Arrow => Some(50),
        token::Kind::ColonColon => Some(60),
        _ => None,
    }
}

fn binds_at(k: &token::Kind, min: usize) -> (r: bool)
    ensures
        r == binds(*k, min),
{
    match precedence(k) {
        Some(pr) => pr >= min,
        None => false,
    }
}

/// Parses one atom at `pos`; at the end of the tokens, or on a token that
/// starts no atom, it records an error node.
fn parse_atom(tokens: &Vec<Token>, pos: usize, nodes: &mut Vec<Node>) -> (r: (AstIdx, usize))
    requires
        pos <= tokens@.len() < usize::MAX,
        forward_only(arena_view(old(nodes)@)),
    ensures
        parsed(
            tokens@,
            pos as int,
            old(nodes)@,
            final(nodes)@,
            r,
            p_atom(tokens@, pos as int, arena_view(old(nodes)@)),
        ),
    decreases tokens@.len() - pos, 0int,
{
    if pos >= tokens.len() {
        let idx = save_ast(nodes, Node { kind: Kind::Error, span: (pos, pos + 1) });
        return (idx, pos);
    }
    let p = pos + 1;
    match tokens[pos].kind {
        token::Kind::Number(value) => {
            let idx = save_ast(nodes, Node { kind: Kind::Number { value }, span: (p, p + 1) });
            (idx, p)
        },
        token::Kind::Identifier(name) => {
            let idx = save_ast(nodes, Node { kind: Kind::Identifier { name }, span: (p, p + 1) });
            (idx, p)
        },
        token::Kind::If => {
            let (cond, p1) = parse_expression(tokens, p, nodes, 0);
            let (if_branch, p2) = parse_expression(tokens, p1, nodes, 0);
            if p2 < tokens.len() && matches!(tokens[p2].kind, token::Kind::Else) {
                let (other, p3) = parse_expression(tokens, p2 + 1, nodes, 0);
                let idx = save_ast(
                    nodes,
                    Node {
                        kind: Kind::If { cond, if_branch, else_branch: Some(other) },
                        span: (p3, p3 + 1),
                    },
                );
                (idx, p3)
            } else {
                let idx = save_ast(
                    nodes,
                    Node { kind: Kind::If { cond, if_branch, else_branch: None }, span: (p2, p2 + 1) },
                );
                (idx, p2)
            }
        },
        token::Kind::LBrace => {
            let (statements, p1) = parse_block(tokens, p, nodes);
            let idx = save_ast(nodes, Node { kind: Kind::Block { statements }, span: (p1, p1 + 1) });
            (idx, p1)
        },
        token::Kind::Return => {
            let (expr, p1) = parse_expression(tokens, p, nodes, 0);
            let idx = save_ast(nodes, Node { kind: Kind::Return { expr }, span: (p1, p1 + 1) });
            (idx, p1)
        },
        _ => {
            let idx = save_ast(nodes, Node { kind: Kind::Error, span: (p, p + 1) });
            (idx, p)
        },
    }
}

/// Parses the statements of a block whose opening brace stands just before
/// `pos`, and consumes the closing brace when there is one.
fn parse_block(tokens: &Vec<Token>, pos: usize, nodes: &mut Vec<Node>) -> (r: (Vec<AstIdx>, usize))
    requires
        pos <= tokens@.len() < usize::MAX,
        forward_only(arena_view(old(nodes)@)),
    ensures
        ({
            let sr = p_block(tokens@, pos as int, arena_view(old(nodes)@), Seq::empty());
            &&& arena_view(final(nodes)@) == sr.0
            &&& r.0@ == sr.1
            &&& r.1 as int == sr.2
        }),
        forward_only(arena_view(final(nodes)@)),
        old(nodes)@.len() <= final(nodes)@.len(),
        extends(final(nodes)@, old(nodes)@),
        all_below(r.0@, final(nodes)@.len() as int),
        pos <= r.1 <= tokens@.len(),
    decreases tokens@.len() - pos, 3int,
{
    let ghost a0 = arena_view(nodes@);
    let mut statements: Vec<AstIdx> = Vec::new();
    let mut cur = pos;
    while cur < tokens.len() && !matches!(tokens[cur].kind, token::Kind::RBrace)
        invariant
            pos <= cur <= tokens@.len() < usize::MAX,
            p_block(tokens@, cur as int, arena_view(nodes@), statements@) == p_block(
                tokens@,
                pos as int,
                a0,
                Seq::empty(),
            ),
            forward_only(arena_view(nodes@)),
            old(nodes)@.len() <= nodes@.len(),
            extends(nodes@, old(nodes)@),
            all_below(statements@, nodes@.len() as int),
        decreases tokens@.len() - cur,
    {
        let (e, p1) = parse_expression(tokens, cur, nodes, 0);
        statements.push(e);
        cur = p1;
    }
    if cur < tokens.len() {
        cur = cur + 1;
    }
    (statements, cur)
}

/// Folds onto `lhs` every following operator that binds at least as tightly
/// as `min`, each with the single atom after it as right operand.
fn parse_binary_op(tokens: &Vec<Token>, pos: usize, nodes: &mut Vec<Node>, lhs: AstIdx, min: usize) -> (r: (AstIdx, usize))
    requires
        pos <= tokens@.len() < usize::MAX,
        forward_only(arena_view(old(nodes)@)),
        lhs < old(nodes)@.len(),
    ensures
        ({
            let sr = p_binop(tokens@, pos as int, arena_view(old(nodes)@), lhs as int, min);
            &&& arena_view(final(nodes)@) == sr.0
            &&& r.0 as int == sr.1
            &&& r.1 as int == sr.2
        }),
        forward_only(arena_view(final(nodes)@)),
        old(nodes)@.len() <= final(nodes)@.len(),
        extends(final(nodes)@, old(nodes)@),
        r.0 < final(nodes)@.len(),
        pos <= r.1 <= tokens@.len(),
    decreases tokens@.len() - pos, 1int,
{
    let ghost a0 = arena_view(nodes@);
    let ghost lhs0 = lhs as int;
    let mut lhs = lhs;
    let mut cur = pos;
    while cur < tokens.len() && binds_at(&tokens[cur].kind, min)
        invariant
            pos <= cur <= tokens@.len() < usize::MAX,
            p_binop(tokens@, cur as int, arena_view(nodes@), lhs as int, min) == p_binop(
                tokens@,
                pos as int,
                a0,
                lhs0,
                min,
            ),
            forward_only(arena_view(nodes@)),
            old(nodes)@.len() <= nodes@.len(),
            extends(nodes@, old(nodes)@),
            lhs < nodes@.len(),
        decreases tokens@.len() - cur,
    {
        let op = tokens[cur].kind;
        let (rhs, p1) = parse_atom(tokens, cur + 1, nodes);
        let span = (nodes[lhs].span.0, nodes[rhs].span.1);
        lhs = save_ast(nodes, Node { kind: Kind::BinaryOp { lhs, rhs, op }, span });
        cur = p1;
    }
    (lhs, cur)
}

/// Parses an atom and the operators that follow it.
fn parse_expression(tokens: &Vec<Token>, pos: usize, nodes: &mut Vec<Node>, min: usize) -> (r: (AstIdx, usize))
    requires
        pos <= tokens@.len() < usize::MAX,
        forward_only(arena_view(old(nodes)@)),
    ensures
        parsed(
            tokens@,
            pos as int,
            old(nodes)@,
            final(nodes)@,
            r,
            p_expr(tokens@, pos as int, arena_view(old(nodes)@), min),
        ),
    decreases tokens@.len() - pos, 2int,
{
    let (lhs, p1) = parse_atom(tokens, pos, nodes);
    parse_binary_op(tokens, p1, nodes, lhs, min)
}

/// A parsed program: its top-level expressions and the arena of all nodes.
pub struct Module {
    pub definitions: Vec<AstIdx>,
    pub(crate) ast: Vec<Node>,
}

impl Module {
    /// The values of the arena's nodes.
    pub closed spec fn nodes(&self) -> Seq<NodeV> {
        arena_view(self.ast@)
    }

    /// The indices of the top-level expressions.
    pub closed spec fn defs(&self) -> Seq<AstIdx> {
        self.definitions@
    }

    /// Every definition is a node.
    pub open spec fn wf(&self) -> bool {
        forall|j: int| 0 <= j < self.defs().len() ==> self.defs()[j] < self.nodes().len()
    }

    /// The number of top-level expressions.
    pub fn num_definitions(&self) -> (r: usize)
        ensures
            r == self.defs().len(),
    {
        self.definitions.len()
    }

    /// The index of the `k`-th top-level expression.
    pub fn definition(&self, k: usize) -> (r: AstIdx)
        requires
            (k as int) < self.defs().len(),
        ensures
            r == self.defs()[k as int],
    {
        self.definitions[k]
    }

    /// The number of nodes in the arena.
    pub fn len(&self) -> (r: usize)
        ensures
            r == self.nodes().len(),
    {
        self.ast.len()
    }

    /// The node at `idx`.
    pub fn get(&self, idx: AstIdx) -> (r: &Node)
        requires
            (idx as int) < self.nodes().len(),
        ensures
            r@ == self.nodes()[idx as int],
    {
        &self.ast[idx]
    }
}

/// Parses top-level expressions until the tokens run out.
fn parse_program(tokens: &Vec<Token>) -> (r: Module)
    requires
        tokens@.len() < usize::MAX,
    ensures
        r.wf(),
        forward_only(r.nodes()),
        (r.defs(), r.nodes()) == parse_spec(tokens@),
{
    let mut definitions: Vec<AstIdx> = Vec::new();
    let mut nodes: Vec<Node> = Vec::new();
    let mut cur: usize = 0;
    proof {
        assert(arena_view(nodes@) =~= Seq::<NodeV>::empty());
    }
    while cur < tokens.len()
        invariant
            cur <= tokens@.len() < usize::MAX,
            p_program(tokens@, cur as int, arena_view(nodes@), definitions@) == parse_spec(tokens@),
            forward_only(arena_view(nodes@)),
            forall|j: int| 0 <= j < definitions@.len() ==> definitions@[j] < nodes@.len(),
        decreases tokens@.len() - cur,
    {
        let (e, p1) = parse_expression(tokens, cur, &mut nodes, 0);
        definitions.push(e);
        cur = p1;
    }
    Module { definitions, ast: nodes }
}

/// Parses `tokens` into a module.
pub fn parse(tokens: Vec<Token>) -> (r: Module)
    requires
        tokens@.len() < usize::MAX,
    ensures
        r.wf(),
        forward_only(r.nodes()),
        (r.defs(), r.nodes()) == parse_spec(tokens@),
{
    parse_program(&tokens)
}

} // verus!
