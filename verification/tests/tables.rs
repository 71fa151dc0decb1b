use tycheck::typed_ast::{Literal, PrefixOperator, Type};

#[test]
fn prefix_table_accepts_negate_on_numeric() {
    assert_eq!(Type::Num.get_prefix_type(PrefixOperator::Negate), Ok(Type::Num));
}

#[test]
fn binary_table_accepts_numeric_operands() {
    assert_eq!(Type::Num.get_binary_type(&Type::Num), Ok(Type::Num));
}

#[test]
fn literal_intrinsic_type_is_numeric() {
    assert_eq!(Literal::Num(42).ty(), Type::Num);
}
