//! Renders a parsed module back to source-like text.

use crate::ast::{all_below, forward_only, refs_below, AstIdx, Kind, KindV, Module, NodeV};
use crate::interner::{resolve_spec, Interner, Symbol};
use crate::token;
use vstd::prelude::*;
use vstd::string::StringExecFns;

verus! {

/// `n` spaces.
pub open spec fn spaces(n: nat) -> Seq<char> {
    Seq::new(n, |i: int| ' ')
}

/// The spelling of an operator.
pub open spec fn op_text(k: token::Kind) -> Seq<char> {
    match k {
        token::Kind::Plus => "+"@,
        token::Kind::Minus => "-"@,
        token::Kind::Multiply => "*"@,
        token::Kind::Divide => "/"@,
        token::Kind::Equal => "="@,
        token::Kind::ColonEqual => ":="@,
        token::Kind::EqualEqual => "=="@,
        token::Kind::NotEqual => "!="@,
        token::Kind::LessThan => "<"@,
        token::Kind::GreaterThan => ">"@,
        token::Kind::LessThanOrEqual => "<="@,
        token::Kind::GreaterThanOrEqual => ">="@,
        token::Kind::Dot => "."@,
        token::Kind::Arrow => "->"@,
        token::Kind::ColonColon => "::"@,
        token::Kind::Not => "not "@,
        _ => "<Unknown operator>"@,
    }
}

/// The string of `sym` in table `t`, or `missing` when it has none.
pub open spec fn name_text(t: Seq<Seq<char>>, sym: Symbol, missing: Seq<char>) -> Seq<char> {
    match resolve_spec(t, sym as int) {
        Some(w) => w,
        None => missing,
    }
}

/// The text of node `idx` of arena `a`, indented by `ind` where it breaks lines.
pub open spec fn show(a: Seq<NodeV>, t: Seq<Seq<char>>, idx: int, ind: nat) -> Seq<char>
    decreases idx, 1int, 0int,
    when 0 <= idx < a.len() && forward_only(a)
{
    match a[idx].kind {
        KindV::BinaryOp(l, r, op) => show(a, t, l as int, ind) + " "@ + op_text(op) + " "@ + show(
            a,
            t,
            r as int,
            ind + 2,
        ),
        KindV::UnaryOp(e, op) => op_text(op) + show(a, t, e as int, ind),
        KindV::Call(c, args) => show(a, t, c as int, ind) + "("@ + show_list(
            a,
            t,
            idx,
            args,
            ind,
            true,
        ) + ")"@,
        KindV::Function(ps, r, b) => "("@ + show_list(a, t, idx, ps, ind, true) + ") -> "@ + show(
            a,
            t,
            r as int,
            ind,
        ) + " "@ + show(a, t, b as int, ind),
        KindV::Block(ss) => "{\n"@ + spaces(ind + 2) + show_list(a, t, idx, ss, ind + 2, false)
            + spaces(ind) + "}"@,
        KindV::If(c, th, e) => "if "@ + show(a, t, c as int, ind) + " "@ + show(a, t, th as int, ind)
            + match e {
            Some(x) => " else "@ + show(a, t, x as int, ind),
            None => Seq::empty(),
        },
        KindV::Loop(b) => "loop "@ + show(a, t, b as int, ind),
        KindV::Import => "import"@,
        KindV::Error => "<Error>"@,
        KindV::Identifier(n) => name_text(t, n, "<Unknown identifier>"@),
        KindV::Number(v) => name_text(t, v, "<Unknown number>"@),
        KindV::Return(e) => "return "@ + show(a, t, e as int, ind),
    }
}

/// The text of the children `ss` of node `idx`: each followed by a newline,
/// or, for `comma`, each but the first followed by a comma.
pub open spec fn show_list(
    a: Seq<NodeV>,
    t: Seq<Seq<char>>,
    idx: int,
    ss: Seq<AstIdx>,
    ind: nat,
    comma: bool,
) -> Seq<char>
    decreases idx, 0int, ss.len(),
    when 0 <= idx < a.len() && forward_only(a) && all_below(ss, idx)
{
    if ss.len() == 0 {
        Seq::empty()
    } else {
        let k = ss.len() - 1;
        show_list(a, t, idx, ss.drop_last(), ind, comma) + show(a, t, ss[k] as int, ind) + if comma {
            if k > 0 {
                ", "@
            } else {
                Seq::empty()
            }
        } else {
            "\n"@
        }
    }
}

/// The text of a module: each definition followed by a newline.
pub open spec fn show_program(a: Seq<NodeV>, t: Seq<Seq<char>>, defs: Seq<AstIdx>) -> Seq<char>
    decreases defs.len(),
{
    if defs.len() == 0 {
        Seq::empty()
    } else {
        show_program(a, t, defs.drop_last()) + show(a, t, defs.last() as int, 0) + "\n"@
    }
}

fn indent(buffer: &mut String, n: usize)
    ensures
        final(buffer)@ == old(buffer)@ + spaces(n as nat),
{
    let mut k: usize = 0;
    while k < n
        invariant
            k <= n,
            buffer@ == old(buffer)@ + spaces(k as nat),
        decreases n - k,
    {
        buffer.append(" ");
        k = k + 1;
        proof {
            reveal_strlit(" ");
        }
        assert(buffer@ =~= old(buffer)@ + spaces(k as nat));
    }
}

fn print_op(buffer: &mut String, op: &token::Kind)
    ensures
        final(buffer)@ == old(buffer)@ + op_text(*op),
{
    match op {
        token::Kind::Plus => buffer.append("+"),
        token::Kind::Minus => buffer.append("-"),
        token::Kind::Multiply => buffer.append("*"),
        token::Kind::Divide => buffer.append("/"),
        token::Kind::Equal => buffer.append("="),
        token::Kind::ColonEqual => buffer.append(":="),
        token::Kind::EqualEqual => buffer.append("=="),
        token::Kind::NotEqual => buffer.append("!="),
        token::Kind::LessThan => buffer.append("<"),
        token::Kind::GreaterThan => buffer.append(">"),
        token::Kind::LessThanOrEqual => buffer.append("<="),
        token::Kind::GreaterThanOrEqual => buffer.append(">="),
        token::Kind::Dot => buffer.append("."),
        token::Kind::Arrow => buffer.append("->"),
        token::Kind::ColonColon => buffer.append("::"),
        token::Kind::Not => buffer.append("not "),
        _ => buffer.append("<Unknown operator>"),
    }
}

fn print_name(buffer: &mut String, interner: &Interner, sym: Symbol, missing: &str)
    requires
        interner.wf(),
    ensures
        final(buffer)@ == old(buffer)@ + name_text(interner@, sym, missing@),
{
    match interner.resolve(sym) {
        Some(w) => buffer.append(w),
        None => buffer.append(missing),
    }
}

/// Appends the children `ss` of node `idx`, as `show_list` lays them out.
fn print_list(
    buffer: &mut String,
    module: &Module,
    interner: &Interner,
    idx: AstIdx,
    ss: &Vec<AstIdx>,
    ind: usize,
    comma: bool,
)
    requires
        interner.wf(),
        forward_only(module.nodes()),
        (idx as int) < module.nodes().len(),
        all_below(ss@, idx as int),
        ind as int + 2 * idx as int <= 2 * module.nodes().len() <= usize::MAX,
    ensures
        final(buffer)@ == old(buffer)@ + show_list(module.nodes(), interner@, idx as int, ss@, ind as nat, comma),
    decreases idx, 0int, ss@.len(),
{
    let ghost a = module.nodes();
    let mut k: usize = 0;
    while k < ss.len()
        invariant
            k <= ss@.len(),
            a == module.nodes(),
            interner.wf(),
            forward_only(a),
            (idx as int) < a.len(),
            ind as int + 2 * idx as int <= 2 * a.len() <= usize::MAX,
            all_below(ss@, idx as int),
            buffer@ == old(buffer)@ + show_list(a, interner@, idx as int, ss@.take(k as int), ind as nat, comma),
        decreases ss@.len() - k,
    {
        let ghost before = buffer@;
        print_node(buffer, module, interner, ss[k], ind);
        if comma {
            if k > 0 {
                buffer.append(", ");
            }
        } else {
            buffer.append("\n");
        }
        proof {
            let pre = ss@.take(k as int + 1);
            assert(pre.drop_last() =~= ss@.take(k as int));
            assert(pre[k as int] == ss@[k as int]);
        }
        k = k + 1;
    }
    assert(ss@.take(k as int) =~= ss@);
}

/// Appends the text of node `idx`.
fn print_node(buffer: &mut String, module: &Module, interner: &Interner, idx: AstIdx, ind: usize)
    requires
        interner.wf(),
        forward_only(module.nodes()),
        (idx as int) < module.nodes().len(),
        ind as int + 2 * (idx as int + 1) <= 2 * module.nodes().len() <= usize::MAX,
    ensures
        final(buffer)@ == old(buffer)@ + show(module.nodes(), interner@, idx as int, ind as nat),
    decreases idx, 1int, 0int,
{
    let ghost a = module.nodes();
    let node = module.get(idx);
    assert(node.kind@ == a[idx as int].kind);
    assert(refs_below(node.kind@, idx as int));
    match &node.kind {
        Kind::BinaryOp { lhs, rhs, op } => {
            print_node(buffer, module, interner, *lhs, ind);
            buffer.append(" ");
            print_op(buffer, op);
            buffer.append(" ");
            print_node(buffer, module, interner, *rhs, ind + 2);
        },
        Kind::UnaryOp { expr, op } => {
            print_op(buffer, op);
            print_node(buffer, module, interner, *expr, ind);
        },
        Kind::Call { callee, args } => {
            print_node(buffer, module, interner, *callee, ind);
            buffer.append("(");
            print_list(buffer, module, interner, idx, args, ind, true);
            buffer.append(")");
        },
        Kind::Function { params, result, body } => {
            buffer.append("(");
            print_list(buffer, module, interner, idx, params, ind, true);
            buffer.append(") -> ");
            print_node(buffer, module, interner, *result, ind);
            buffer.append(" ");
            print_node(buffer, module, interner, *body, ind);
        },
        Kind::Block { statements } => {
            buffer.append("{\n");
            indent(buffer, ind + 2);
            print_list(buffer, module, interner, idx, statements, ind + 2, false);
            indent(buffer, ind);
            buffer.append("}");
        },
        Kind::If { cond, if_branch, else_branch } => {
            buffer.append("if ");
            print_node(buffer, module, interner, *cond, ind);
            buffer.append(" ");
            print_node(buffer, module, interner, *if_branch, ind);
            match else_branch {
                Some(x) => {
                    buffer.append(" else ");
                    print_node(buffer, module, interner, *x, ind);
                },
                None => {},
            }
        },
        Kind::Loop { body } => {
            buffer.append("loop ");
            print_node(buffer, module, interner, *body, ind);
        },
        Kind::Import => buffer.append("import"),
        Kind::Error => buffer.append("<Error>"),
        Kind::Identifier { name } => print_name(buffer, interner, *name, "<Unknown identifier>"),
        Kind::Number { value } => print_name(buffer, interner, *value, "<Unknown number>"),
        Kind::Return { expr } => {
            buffer.append("return ");
            print_node(buffer, module, interner, *expr, ind);
        },
    }
}

/// Renders every definition of `module`, each followed by a newline.
pub fn print(module: &Module, interner: &Interner) -> (r: String)
    requires
        interner.wf(),
        module.wf(),
        forward_only(module.nodes()),
        2 * module.nodes().len() <= usize::MAX,
    ensures
        r@ == show_program(module.nodes(), interner@, module.defs()),
{
    let mut buffer = String::new();
    let mut k: usize = 0;
    while k < module.num_definitions()
        invariant
            k <= module.defs().len(),
            interner.wf(),
            module.wf(),
            forward_only(module.nodes()),
            2 * module.nodes().len() <= usize::MAX,
            buffer@ == show_program(module.nodes(), interner@, module.defs().take(k as int)),
        decreases module.defs().len() - k,
    {
        print_node(&mut buffer, module, interner, module.definition(k), 0);
        buffer.append("\n");
        proof {
            let pre = module.defs().take(k as int + 1);
            assert(pre.drop_last() =~= module.defs().take(k as int));
        }
        k = k + 1;
    }
    assert(module.defs().take(k as int) =~= module.defs());
    buffer
}

} // verus!
