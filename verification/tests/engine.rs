use tycheck::engine::{Engine, TypeInfo, type_to_typeinfo};
use tycheck::error::TypecheckError;
use tycheck::span::Span;
use tycheck::typed_ast::Type;

fn sp(start: usize, end: usize) -> Span {
    Span { start, end }
}

#[test]
fn insert_returns_fresh_monotonic_ids() {
    let mut e = Engine::new();
    let a = e.insert((TypeInfo::Num, sp(0, 1)));
    let b = e.insert((TypeInfo::Unknown, sp(1, 2)));
    let c = e.insert((TypeInfo::Ref(a), sp(2, 3)));
    assert_eq!(a, 0);
    assert_eq!(b, 1);
    assert_eq!(c, 2);
}

#[test]
fn reconstruct_concrete_slot() {
    let mut e = Engine::new();
    let a = e.insert((TypeInfo::Num, sp(3, 9)));
    assert_eq!(e.reconstruct(a), Ok((Type::Num, sp(3, 9))));
}

#[test]
fn reconstruct_unresolved_reports_cannot_infer() {
    let mut e = Engine::new();
    let a = e.insert((TypeInfo::Unknown, sp(4, 8)));
    assert_eq!(e.reconstruct(a), Err(TypecheckError::CannotInferType { span: sp(4, 8) }));
}

#[test]
fn reconstruct_follows_reference_chain() {
    let mut e = Engine::new();
    let a = e.insert((TypeInfo::Num, sp(0, 1)));
    let b = e.insert((TypeInfo::Ref(a), sp(1, 2)));
    let c = e.insert((TypeInfo::Ref(b), sp(2, 3)));
    // the span handed back is the queried slot's own span
    assert_eq!(e.reconstruct(c), Ok((Type::Num, sp(2, 3))));
}

#[test]
fn reconstruct_chain_ending_unresolved_reports_end_span() {
    let mut e = Engine::new();
    let a = e.insert((TypeInfo::Unknown, sp(0, 1)));
    let b = e.insert((TypeInfo::Ref(a), sp(1, 2)));
    assert_eq!(e.reconstruct(b), Err(TypecheckError::CannotInferType { span: sp(0, 1) }));
}

#[test]
fn unify_binds_unresolved_side_to_concrete_side() {
    let mut e = Engine::new();
    let value = e.insert((TypeInfo::Num, sp(0, 1)));
    let var = e.insert((TypeInfo::Unknown, sp(4, 5)));
    assert_eq!(e.unify(value, var), Ok(()));
    // the variable slot now resolves to the concrete type
    assert_eq!(e.reconstruct(var), Ok((Type::Num, sp(0, 1))));
    assert_eq!(e.reconstruct(value), Ok((Type::Num, sp(0, 1))));
}

#[test]
fn unify_two_equal_concrete_types_changes_nothing() {
    let mut e = Engine::new();
    let a = e.insert((TypeInfo::Num, sp(0, 1)));
    let b = e.insert((TypeInfo::Num, sp(5, 6)));
    assert_eq!(e.unify(a, b), Ok(()));
    assert_eq!(e.reconstruct(a), Ok((Type::Num, sp(0, 1))));
    assert_eq!(e.reconstruct(b), Ok((Type::Num, sp(5, 6))));
}

#[test]
fn unify_twice_then_resolve() {
    let mut e = Engine::new();
    let x = e.insert((TypeInfo::Unknown, sp(0, 1)));
    let y = e.insert((TypeInfo::Unknown, sp(1, 2)));
    assert_eq!(e.unify(x, y), Ok(()));
    assert_eq!(e.unify(x, y), Ok(()));
    let z = e.insert((TypeInfo::Num, sp(2, 3)));
    assert_eq!(e.unify(x, z), Ok(()));
    // redirecting a chain end rewrites that slot's span to the target's span
    assert_eq!(e.reconstruct(x), Ok((Type::Num, sp(1, 2))));
    assert_eq!(e.reconstruct(y), Ok((Type::Num, sp(2, 3))));
}

#[test]
fn type_to_typeinfo_keeps_span() {
    assert_eq!(type_to_typeinfo((Type::Num, sp(7, 9))), (TypeInfo::Num, sp(7, 9)));
}
