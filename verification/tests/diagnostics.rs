use tycheck::engine::TypeInfo;
use tycheck::error::{Error, LabelColor, TypecheckError};
use tycheck::span::Span;
use tycheck::typed_ast::{BinaryOperator, PrefixOperator, Type};

fn sp(start: usize, end: usize) -> Span {
    Span { start, end }
}

#[test]
fn code_per_variant() {
    assert_eq!(Error::Custom(sp(0, 1), "m".to_string()).code(), 0);
    assert_eq!(
        Error::ExpectedFound { span: sp(0, 1), expected: vec![], found: None }.code(),
        1
    );
    assert_eq!(
        Error::Typecheck(TypecheckError::UndefinedVariable {
            name: "x".to_string(),
            span: sp(0, 1)
        })
        .code(),
        2
    );
    assert_eq!(Error::Typecheck(TypecheckError::CannotInferType { span: sp(0, 1) }).code(), 3);
    assert_eq!(
        Error::Typecheck(TypecheckError::TypeMismatch {
            span1: sp(0, 1),
            span2: sp(2, 3),
            ty1: TypeInfo::Num,
            ty2: TypeInfo::Unknown
        })
        .code(),
        4
    );
    assert_eq!(
        Error::Typecheck(TypecheckError::CannotApplyUnaryOperator {
            span: sp(0, 1),
            op: PrefixOperator::Negate,
            ty: Type::Num
        })
        .code(),
        5
    );
    assert_eq!(
        Error::Typecheck(TypecheckError::CannotApplyBinaryOperator {
            span: sp(0, 1),
            op: BinaryOperator::Add,
            ty1: Type::Num,
            ty2: Type::Num
        })
        .code(),
        6
    );
}

#[test]
fn aggregate_code_is_max_of_members() {
    let e = Error::Many(vec![
        Error::Custom(sp(0, 1), "m".to_string()),
        Error::Many(vec![
            Error::Typecheck(TypecheckError::TypeMismatch {
                span1: sp(0, 1),
                span2: sp(2, 3),
                ty1: TypeInfo::Num,
                ty2: TypeInfo::Num,
            }),
        ]),
        Error::ExpectedFound { span: sp(4, 5), expected: vec![], found: None },
    ]);
    assert_eq!(e.code(), 4);
}

#[test]
fn empty_aggregate_code_is_lowest() {
    assert_eq!(Error::Many(vec![]).code(), 0);
}

#[test]
fn aggregate_report_flattens_depth_first() {
    let e = Error::Many(vec![
        Error::Custom(sp(0, 1), "first".to_string()),
        Error::Many(vec![
            Error::Custom(sp(1, 2), "second".to_string()),
            Error::Custom(sp(2, 3), "third".to_string()),
        ]),
        Error::Custom(sp(3, 4), "fourth".to_string()),
    ]);
    let reports = e.make_report();
    let headlines: Vec<String> = reports.iter().map(|r| r.0.clone()).collect();
    assert_eq!(headlines, vec!["first", "second", "third", "fourth"]);
}

#[test]
fn undefined_variable_report() {
    let e = TypecheckError::UndefinedVariable { name: "count".to_string(), span: sp(10, 15) };
    let (msg, labels, notes) = e.make_report();
    assert_eq!(msg, "Undefined variable 'count'");
    assert_eq!(labels.len(), 1);
    assert_eq!(labels[0].0 .0, "not found in this scope");
    assert_eq!(labels[0].0 .1, LabelColor::Yellow);
    assert_eq!(labels[0].1, sp(10, 15));
    assert!(notes.is_empty());
}

#[test]
fn cannot_infer_report_carries_help_note() {
    let e = TypecheckError::CannotInferType { span: sp(3, 4) };
    let (msg, labels, notes) = e.make_report();
    assert_eq!(msg, "Cannot infer type");
    assert_eq!(labels[0].0 .0, "Cannot infer the type of this expression");
    assert_eq!(labels[0].1, sp(3, 4));
    assert_eq!(notes, vec!["help: try adding a type annotation".to_string()]);
}

#[test]
fn type_mismatch_report_carries_both_spans() {
    let e = TypecheckError::TypeMismatch {
        span1: sp(1, 2),
        span2: sp(8, 9),
        ty1: TypeInfo::Num,
        ty2: TypeInfo::Ref(12),
    };
    let (msg, labels, notes) = e.make_report();
    assert_eq!(msg, "Type mismatch");
    assert_eq!(labels.len(), 2);
    assert_eq!(labels[0].0 .0, "Type 'Num' here");
    assert_eq!(labels[0].1, sp(1, 2));
    assert_eq!(labels[1].0 .0, "Type 'Ref(12)' here");
    assert_eq!(labels[1].1, sp(8, 9));
    assert!(notes.is_empty());
}

#[test]
fn unary_operator_report() {
    let e = TypecheckError::CannotApplyUnaryOperator {
        span: sp(0, 3),
        op: PrefixOperator::Negate,
        ty: Type::Num,
    };
    let (msg, labels, _) = e.make_report();
    assert_eq!(msg, "Cannot apply operator '-' to type 'Num'");
    assert_eq!(labels[0].0 .0, "Cannot apply this operator to type 'Num'");
    assert_eq!(labels[0].1, sp(0, 3));
}

#[test]
fn binary_operator_report() {
    let e = TypecheckError::CannotApplyBinaryOperator {
        span: sp(2, 7),
        op: BinaryOperator::Multiply,
        ty1: Type::Num,
        ty2: Type::Num,
    };
    let (msg, labels, _) = e.make_report();
    assert_eq!(msg, "Cannot apply binary operator '*' to types 'Num' and 'Num'");
    assert_eq!(labels[0].0 .0, "Cannot apply this operator to types 'Num' and 'Num'");
    assert_eq!(labels[0].1, sp(2, 7));
}

#[test]
fn expected_found_report_with_tokens() {
    let e = Error::ExpectedFound {
        span: sp(5, 6),
        expected: vec!["a".to_string(), "b".to_string(), "c".to_string()],
        found: Some("x".to_string()),
    };
    let reports = e.make_report();
    assert_eq!(reports.len(), 1);
    let (msg, labels, notes) = &reports[0];
    assert_eq!(msg, "Unexpected token in input, expected a, b, c");
    assert_eq!(labels[0].0 .0, "Unexpected token 'x'");
    assert_eq!(labels[0].1, sp(5, 6));
    assert!(notes.is_empty());
}

#[test]
fn expected_found_report_at_end_of_input() {
    let e = Error::ExpectedFound { span: sp(9, 9), expected: vec![], found: None };
    let reports = e.make_report();
    let (msg, labels, _) = &reports[0];
    assert_eq!(msg, "Unexpected end of input, expected something else");
    assert_eq!(labels[0].0 .0, "Unexpected token 'eof'");
}

#[test]
fn custom_report_keeps_message() {
    let e = Error::Custom(sp(1, 4), "something odd".to_string());
    let reports = e.make_report();
    let (msg, labels, notes) = &reports[0];
    assert_eq!(msg, "something odd");
    assert_eq!(labels[0].0 .0, "");
    assert_eq!(labels[0].0 .1, LabelColor::Yellow);
    assert_eq!(labels[0].1, sp(1, 4));
    assert!(notes.is_empty());
}

#[test]
fn typecheck_error_converts_into_error() {
    let te = TypecheckError::CannotInferType { span: sp(0, 1) };
    let e: Error = Error::from(te);
    assert_eq!(e.code(), 3);
    match e {
        Error::Typecheck(inner) => {
            assert_eq!(inner, TypecheckError::CannotInferType { span: sp(0, 1) });
        }
        _ => panic!("wrong variant"),
    }
}
