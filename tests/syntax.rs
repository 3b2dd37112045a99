use blossom::ast::{self, AstIdx, Kind as Ast, Module};
use blossom::interner::Interner;
use blossom::token::{self, Kind as Tok};

fn compile(src: &str) -> (Module, Interner) {
    let (tokens, interner) = token::parse(src);
    (ast::parse(tokens), interner)
}

fn name(interner: &Interner, sym: u32) -> String {
    interner.resolve(sym).expect("symbol has a string").to_string()
}

fn number(m: &Module, i: &Interner, idx: AstIdx) -> String {
    match &m.get(idx).kind {
        Ast::Number { value } => name(i, *value),
        other => panic!("expected a number, got {:?}", other),
    }
}

fn ident(m: &Module, i: &Interner, idx: AstIdx) -> String {
    match &m.get(idx).kind {
        Ast::Identifier { name: n } => name(i, *n),
        other => panic!("expected an identifier, got {:?}", other),
    }
}

#[test]
fn parse_one_plus_two() {
    let (m, i) = compile("1+2");
    assert_eq!(m.definitions.len(), 1);
    match &m.get(m.definitions[0]).kind {
        Ast::BinaryOp { lhs, rhs, op } => {
            assert_eq!(*op, Tok::Plus);
            assert_eq!(number(&m, &i, *lhs), "1");
            assert_eq!(number(&m, &i, *rhs), "2");
        }
        other => panic!("unexpected node {:?}", other),
    }
    assert_eq!(m.len(), 3);
}

#[test]
fn parse_spans() {
    let (m, _) = compile("1+2");
    let root = m.definitions[0];
    assert_eq!(m.get(0).span, (1, 2));
    assert_eq!(m.get(1).span, (3, 4));
    assert_eq!(m.get(root).span, (1, 4));
}

#[test]
fn parse_if_else() {
    let (m, i) = compile("if x > 1 { return x } else { return 0 }");
    assert_eq!(m.definitions.len(), 1);
    match &m.get(m.definitions[0]).kind {
        Ast::If { cond, if_branch, else_branch } => {
            match &m.get(*cond).kind {
                Ast::BinaryOp { lhs, rhs, op } => {
                    assert_eq!(*op, Tok::GreaterThan);
                    assert_eq!(ident(&m, &i, *lhs), "x");
                    assert_eq!(number(&m, &i, *rhs), "1");
                }
                other => panic!("unexpected condition {:?}", other),
            }
            match &m.get(*if_branch).kind {
                Ast::Block { statements } => {
                    assert_eq!(statements.len(), 1);
                    match &m.get(statements[0]).kind {
                        Ast::Return { expr } => assert_eq!(ident(&m, &i, *expr), "x"),
                        other => panic!("unexpected statement {:?}", other),
                    }
                }
                other => panic!("unexpected branch {:?}", other),
            }
            let other_branch = else_branch.expect("else branch");
            match &m.get(other_branch).kind {
                Ast::Block { statements } => {
                    assert_eq!(statements.len(), 1);
                    match &m.get(statements[0]).kind {
                        Ast::Return { expr } => assert_eq!(number(&m, &i, *expr), "0"),
                        other => panic!("unexpected statement {:?}", other),
                    }
                }
                other => panic!("unexpected branch {:?}", other),
            }
        }
        other => panic!("unexpected node {:?}", other),
    }
}

#[test]
fn parse_if_without_else() {
    let (m, i) = compile("if c 1");
    match &m.get(m.definitions[0]).kind {
        Ast::If { cond, if_branch, else_branch } => {
            assert_eq!(ident(&m, &i, *cond), "c");
            assert_eq!(number(&m, &i, *if_branch), "1");
            assert_eq!(*else_branch, None);
        }
        other => panic!("unexpected node {:?}", other),
    }
}

#[test]
fn parse_empty_block() {
    let (m, _) = compile("{}");
    assert_eq!(m.definitions.len(), 1);
    assert_eq!(m.get(m.definitions[0]).kind, Ast::Block { statements: vec![] });
}

#[test]
fn parse_unknown_is_error_node() {
    let (tokens, _) = token::parse("@");
    assert_eq!(tokens.len(), 1);
    let m = ast::parse(tokens);
    assert_eq!(m.definitions.len(), 1);
    assert_eq!(m.len(), 1);
    assert_eq!(m.get(m.definitions[0]).kind, Ast::Error);
}

#[test]
fn parse_several_errors_continue() {
    let (m, i) = compile(") 1 ]");
    assert_eq!(m.definitions.len(), 3);
    assert_eq!(m.get(m.definitions[0]).kind, Ast::Error);
    assert_eq!(number(&m, &i, m.definitions[1]), "1");
    assert_eq!(m.get(m.definitions[2]).kind, Ast::Error);
}

#[test]
fn parse_missing_operand_is_error() {
    let (m, i) = compile("1 +");
    match &m.get(m.definitions[0]).kind {
        Ast::BinaryOp { lhs, rhs, op } => {
            assert_eq!(*op, Tok::Plus);
            assert_eq!(number(&m, &i, *lhs), "1");
            assert_eq!(m.get(*rhs).kind, Ast::Error);
        }
        other => panic!("unexpected node {:?}", other),
    }
}

#[test]
fn parse_unclosed_block_ends_at_input_end() {
    let (m, i) = compile("{ 1");
    assert_eq!(m.definitions.len(), 1);
    match &m.get(m.definitions[0]).kind {
        Ast::Block { statements } => {
            assert_eq!(statements.len(), 1);
            assert_eq!(number(&m, &i, statements[0]), "1");
        }
        other => panic!("unexpected node {:?}", other),
    }
}

#[test]
fn parse_operators_fold_left_at_atom_granularity() {
    let (m, i) = compile("1 + 2 * 3");
    match &m.get(m.definitions[0]).kind {
        Ast::BinaryOp { lhs, rhs, op } => {
            assert_eq!(*op, Tok::Multiply);
            assert_eq!(number(&m, &i, *rhs), "3");
            match &m.get(*lhs).kind {
                Ast::BinaryOp { lhs: l2, rhs: r2, op: op2 } => {
                    assert_eq!(*op2, Tok::Plus);
                    assert_eq!(number(&m, &i, *l2), "1");
                    assert_eq!(number(&m, &i, *r2), "2");
                }
                other => panic!("unexpected node {:?}", other),
            }
        }
        other => panic!("unexpected node {:?}", other),
    }
}

#[test]
fn parse_non_operator_ends_expression() {
    let (m, i) = compile("a b");
    assert_eq!(m.definitions.len(), 2);
    assert_eq!(ident(&m, &i, m.definitions[0]), "a");
    assert_eq!(ident(&m, &i, m.definitions[1]), "b");
}

#[test]
fn parse_children_precede_parents() {
    let (m, _) = compile("res := 3*if x >10 { return x} else { return 0 } + 2 ( ) a.b::c -> d");
    for idx in 0..m.len() {
        let below = |c: AstIdx| assert!(c < idx);
        match &m.get(idx).kind {
            Ast::BinaryOp { lhs, rhs, .. } => {
                below(*lhs);
                below(*rhs);
            }
            Ast::If { cond, if_branch, else_branch } => {
                below(*cond);
                below(*if_branch);
                if let Some(e) = else_branch {
                    below(*e);
                }
            }
            Ast::Block { statements } => statements.iter().for_each(|s| below(*s)),
            Ast::Return { expr } => below(*expr),
            _ => {}
        }
    }
    for d in &m.definitions {
        assert!(*d < m.len());
    }
}
