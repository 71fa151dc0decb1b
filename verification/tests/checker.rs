use tycheck::ast::{Ast, BinaryOperator, Expr, Literal, PrefixOperator, Statement};
use tycheck::error::{Error, TypecheckError};
use tycheck::span::{Span, Spanned};
use tycheck::typecheck::typecheck;
use tycheck::typed_ast::{self, Type};

fn sp(start: usize, end: usize) -> Span {
    Span { start, end }
}

fn var(name: &str, s: Span) -> Spanned<Expr> {
    (Expr::Var((name.to_string(), s)), s)
}

fn num(n: i64, s: Span) -> Spanned<Expr> {
    (Expr::Literal((Literal::Num(n), s)), s)
}

fn let_stmt(name: &str, name_span: Span, value: Spanned<Expr>, s: Span) -> Spanned<Statement> {
    (Statement::Let { name: (name.to_string(), name_span), value: Box::new(value) }, s)
}

fn print_stmt(e: Spanned<Expr>, s: Span) -> Spanned<Statement> {
    (Statement::Print(e), s)
}

fn program(stmts: Vec<Spanned<Statement>>, s: Span) -> Spanned<Ast> {
    (Ast { statements: (stmts, s) }, s)
}

fn expect_undefined(r: Result<Spanned<typed_ast::TypedAst>, Error>, name: &str, span: Span) {
    match r {
        Err(Error::Typecheck(TypecheckError::UndefinedVariable { name: n, span: s })) => {
            assert_eq!(n, name);
            assert_eq!(s, span);
        }
        Err(_) => panic!("wrong diagnostic kind"),
        Ok(_) => panic!("expected a diagnostic"),
    }
}

#[test]
fn well_typed_program_checks_and_resolves_numeric() {
    // let x = 1  print x + -2
    let body = (
        Expr::Binary {
            op: (BinaryOperator::Add, sp(17, 18)),
            lhs: Box::new(var("x", sp(15, 16))),
            rhs: Box::new((
                Expr::Prefix {
                    op: (PrefixOperator::Negate, sp(19, 20)),
                    expr: Box::new(num(2, sp(20, 21))),
                },
                sp(19, 21),
            )),
        },
        sp(15, 21),
    );
    let prog = program(
        vec![
            let_stmt("x", sp(4, 5), num(1, sp(8, 9)), sp(0, 9)),
            print_stmt(body, sp(10, 21)),
        ],
        sp(0, 21),
    );
    let t = typecheck(prog).unwrap();
    assert_eq!(t.1, sp(0, 21));
    assert_eq!(t.0.statements.1, sp(0, 21));
    assert_eq!(t.0.statements.0.len(), 2);
    match &t.0.statements.0[1].0 {
        typed_ast::Statement::Print(e) => {
            assert_eq!(e.0.ty, Type::Num);
            assert_eq!(e.1, sp(15, 21));
            match &e.0.expr {
                typed_ast::ExprKind::Binary { op, lhs, rhs } => {
                    assert_eq!(op.0, typed_ast::BinaryOperator::Add);
                    assert_eq!(op.1, sp(17, 18));
                    assert_eq!(lhs.0.ty, Type::Num);
                    assert_eq!(lhs.1, sp(15, 16));
                    assert_eq!(rhs.0.ty, Type::Num);
                    assert_eq!(rhs.1, sp(19, 21));
                }
                _ => panic!("wrong expression form"),
            }
        }
        _ => panic!("wrong statement form"),
    }
}

#[test]
fn undefined_variable_reports_use_site() {
    let prog = program(vec![print_stmt(var("y", sp(6, 7)), sp(0, 7))], sp(0, 7));
    expect_undefined(typecheck(prog), "y", sp(6, 7));
}

#[test]
fn let_rhs_cannot_reference_its_own_name() {
    // let x = x
    let prog = program(vec![let_stmt("x", sp(4, 5), var("x", sp(8, 9)), sp(0, 9))], sp(0, 9));
    expect_undefined(typecheck(prog), "x", sp(8, 9));
}

#[test]
fn block_bindings_do_not_leak() {
    // { let x = 1 }  print x
    let block = (
        Statement::Block((vec![let_stmt("x", sp(6, 7), num(1, sp(10, 11)), sp(2, 11))], sp(0, 13))),
        sp(0, 13),
    );
    let prog = program(
        vec![block, print_stmt(var("x", sp(20, 21)), sp(14, 21))],
        sp(0, 21),
    );
    expect_undefined(typecheck(prog), "x", sp(20, 21));
}

#[test]
fn shadowing_in_same_scope_is_overwrite() {
    // let x = 1  let x = 2  print x
    let prog = program(
        vec![
            let_stmt("x", sp(4, 5), num(1, sp(8, 9)), sp(0, 9)),
            let_stmt("x", sp(14, 15), num(2, sp(18, 19)), sp(10, 19)),
            print_stmt(var("x", sp(26, 27)), sp(20, 27)),
        ],
        sp(0, 27),
    );
    let t = typecheck(prog).unwrap();
    match &t.0.statements.0[2].0 {
        typed_ast::Statement::Print(e) => assert_eq!(e.0.ty, Type::Num),
        _ => panic!("wrong statement form"),
    }
}

#[test]
fn inner_block_sees_outer_binding() {
    // let x = 1  { print x }
    let block = (
        Statement::Block((vec![print_stmt(var("x", sp(19, 20)), sp(13, 20))], sp(11, 22))),
        sp(11, 22),
    );
    let prog = program(
        vec![let_stmt("x", sp(4, 5), num(1, sp(8, 9)), sp(0, 9)), block],
        sp(0, 22),
    );
    assert!(typecheck(prog).is_ok());
}

#[test]
fn binary_reports_left_operand_first() {
    // print a / b, both unbound: the left use is reported
    let body = (
        Expr::Binary {
            op: (BinaryOperator::Divide, sp(8, 9)),
            lhs: Box::new(var("a", sp(6, 7))),
            rhs: Box::new(var("b", sp(10, 11))),
        },
        sp(6, 11),
    );
    let prog = program(vec![print_stmt(body, sp(0, 11))], sp(0, 11));
    expect_undefined(typecheck(prog), "a", sp(6, 7));
}

#[test]
fn binary_reports_right_operand_when_left_checks() {
    let body = (
        Expr::Binary {
            op: (BinaryOperator::Multiply, sp(8, 9)),
            lhs: Box::new(num(3, sp(6, 7))),
            rhs: Box::new(var("b", sp(10, 11))),
        },
        sp(6, 11),
    );
    let prog = program(vec![print_stmt(body, sp(0, 11))], sp(0, 11));
    expect_undefined(typecheck(prog), "b", sp(10, 11));
}

#[test]
fn typed_tree_keeps_every_span_and_name() {
    // x spans differ from statement spans on purpose
    let prog = program(
        vec![
            let_stmt("long_name", sp(4, 13), num(7, sp(16, 17)), sp(0, 17)),
            (
                Statement::Expr(var("long_name", sp(18, 27))),
                sp(18, 27),
            ),
        ],
        sp(0, 27),
    );
    let t = typecheck(prog).unwrap();
    match &t.0.statements.0[0].0 {
        typed_ast::Statement::Let { name, value } => {
            assert_eq!(name.0, "long_name");
            assert_eq!(name.1, sp(4, 13));
            assert_eq!(value.1, sp(16, 17));
            assert_eq!(value.0.ty, Type::Num);
            match &value.0.expr {
                typed_ast::ExprKind::Literal(l) => {
                    assert_eq!(l.0, typed_ast::Literal::Num(7));
                    assert_eq!(l.1, sp(16, 17));
                }
                _ => panic!("wrong expression form"),
            }
        }
        _ => panic!("wrong statement form"),
    }
    match &t.0.statements.0[1].0 {
        typed_ast::Statement::Expr(e) => match &e.0.expr {
            typed_ast::ExprKind::Var(n) => {
                assert_eq!(n.0, "long_name");
                assert_eq!(n.1, sp(18, 27));
            }
            _ => panic!("wrong expression form"),
        },
        _ => panic!("wrong statement form"),
    }
}

#[test]
fn empty_program_checks() {
    let prog = program(vec![], sp(0, 0));
    let t = typecheck(prog).unwrap();
    assert_eq!(t.0.statements.0.len(), 0);
}
