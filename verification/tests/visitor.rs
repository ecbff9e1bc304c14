use deltakernel::expressions::{BinaryOperator, Expression, Scalar};
use deltakernel::visitor::{
    builds_and_node, builds_binary_node,
    unwrap_kernel_expression, visit_expression_and, visit_expression_binary,
    visit_expression_column, visit_expression_eq, visit_expression_ge, visit_expression_gt,
    visit_expression_le, visit_expression_literal_long, visit_expression_literal_string,
    visit_expression_lt, wrap_expression, KernelExpressionVisitorState,
};

fn col(name: &str) -> Expression {
    Expression::Column(name.to_string())
}

fn bin(op: BinaryOperator, left: Expression, right: Expression) -> Expression {
    Expression::BinaryOperation { op, left: Box::new(left), right: Box::new(right) }
}

#[test]
fn wrap_then_unwrap_gives_expression_back() {
    let mut st = KernelExpressionVisitorState::new();
    let id = wrap_expression(&mut st, col("a"));
    assert_eq!(id, 1);
    assert_eq!(unwrap_kernel_expression(&mut st, id), Some(Box::new(col("a"))));
    assert_eq!(unwrap_kernel_expression(&mut st, id), None);
}

#[test]
fn default_state_starts_at_one() {
    let mut st: KernelExpressionVisitorState = Default::default();
    assert_eq!(visit_expression_literal_long(&mut st, 5), 1);
}

#[test]
fn column_and_literals() {
    let mut st = KernelExpressionVisitorState::new();
    let c = visit_expression_column(&mut st, "x".to_string());
    let s = visit_expression_literal_string(&mut st, "hello".to_string());
    let l = visit_expression_literal_long(&mut st, -3);
    assert_eq!((c, s, l), (1, 2, 3));
    assert_eq!(unwrap_kernel_expression(&mut st, c), Some(Box::new(col("x"))));
    assert_eq!(
        unwrap_kernel_expression(&mut st, s),
        Some(Box::new(Expression::Literal(Scalar::String("hello".to_string()))))
    );
    assert_eq!(
        unwrap_kernel_expression(&mut st, l),
        Some(Box::new(Expression::Literal(Scalar::Long(-3))))
    );
}

#[test]
fn binary_of_two_valid_children() {
    let mut st = KernelExpressionVisitorState::new();
    let a = visit_expression_column(&mut st, "a".to_string());
    let b = visit_expression_literal_long(&mut st, 10);
    let n = visit_expression_lt(&mut st, a, b);
    assert_eq!(n, 3);
    assert_eq!(unwrap_kernel_expression(&mut st, a), None);
    assert_eq!(unwrap_kernel_expression(&mut st, b), None);
    assert_eq!(
        unwrap_kernel_expression(&mut st, n),
        Some(Box::new(bin(
            BinaryOperator::LessThan,
            col("a"),
            Expression::Literal(Scalar::Long(10))
        )))
    );
}

#[test]
fn each_comparison_uses_its_operator() {
    let cases: Vec<(fn(&mut KernelExpressionVisitorState, usize, usize) -> usize, BinaryOperator)> = vec![
        (visit_expression_lt, BinaryOperator::LessThan),
        (visit_expression_le, BinaryOperator::LessThanOrEqual),
        (visit_expression_gt, BinaryOperator::GreaterThan),
        (visit_expression_ge, BinaryOperator::GreaterThanOrEqual),
        (visit_expression_eq, BinaryOperator::Equal),
    ];
    for (visit, op) in cases {
        let mut st = KernelExpressionVisitorState::new();
        let a = visit_expression_column(&mut st, "l".to_string());
        let b = visit_expression_column(&mut st, "r".to_string());
        let n = visit(&mut st, a, b);
        assert_eq!(n, 3);
        assert_eq!(unwrap_kernel_expression(&mut st, n), Some(Box::new(bin(op, col("l"), col("r")))));
    }
}

#[test]
fn invalid_child_gives_invalid_node_and_consumes_the_valid_one() {
    let mut st = KernelExpressionVisitorState::new();
    let a = visit_expression_column(&mut st, "a".to_string());
    let n = visit_expression_binary(&mut st, BinaryOperator::Equal, a, 99);
    assert_eq!(n, 0);
    assert_eq!(unwrap_kernel_expression(&mut st, a), None);

    let b = visit_expression_column(&mut st, "b".to_string());
    let n = visit_expression_eq(&mut st, 0, b);
    assert_eq!(n, 0);
    assert_eq!(unwrap_kernel_expression(&mut st, b), None);
}

#[test]
fn binary_with_the_same_child_twice_is_invalid() {
    let mut st = KernelExpressionVisitorState::new();
    let a = visit_expression_column(&mut st, "a".to_string());
    assert_eq!(visit_expression_gt(&mut st, a, a), 0);
    assert_eq!(unwrap_kernel_expression(&mut st, a), None);
}

#[test]
fn and_of_no_valid_child_is_invalid() {
    let mut st = KernelExpressionVisitorState::new();
    assert_eq!(visit_expression_and(&mut st, &vec![]), 0);
    assert_eq!(visit_expression_and(&mut st, &vec![0, 7, 8]), 0);
}

#[test]
fn and_of_one_valid_child_is_that_child_under_a_new_id() {
    let mut st = KernelExpressionVisitorState::new();
    let a = visit_expression_column(&mut st, "a".to_string());
    let n = visit_expression_and(&mut st, &vec![0, a, 12]);
    assert_eq!(n, 2);
    assert_eq!(unwrap_kernel_expression(&mut st, a), None);
    assert_eq!(unwrap_kernel_expression(&mut st, n), Some(Box::new(col("a"))));
}

#[test]
fn and_nests_to_the_left_and_skips_invalid_children() {
    let mut st = KernelExpressionVisitorState::new();
    let a = visit_expression_column(&mut st, "a".to_string());
    let b = visit_expression_column(&mut st, "b".to_string());
    let c = visit_expression_column(&mut st, "c".to_string());
    let n = visit_expression_and(&mut st, &vec![a, 0, b, 42, c]);
    assert_eq!(n, 4);
    for id in [a, b, c] {
        assert_eq!(unwrap_kernel_expression(&mut st, id), None);
    }
    let expected = bin(
        BinaryOperator::And,
        bin(BinaryOperator::And, col("a"), col("b")),
        col("c"),
    );
    assert_eq!(unwrap_kernel_expression(&mut st, n), Some(Box::new(expected)));
}

#[test]
fn and_uses_a_repeated_child_once() {
    let mut st = KernelExpressionVisitorState::new();
    let a = visit_expression_column(&mut st, "a".to_string());
    let b = visit_expression_column(&mut st, "b".to_string());
    let n = visit_expression_and(&mut st, &vec![a, a, b]);
    assert_eq!(
        unwrap_kernel_expression(&mut st, n),
        Some(Box::new(bin(BinaryOperator::And, col("a"), col("b"))))
    );
}

#[test]
fn nested_predicate_built_bottom_up() {
    // (x < 5) AND (name = 'bob')
    let mut st = KernelExpressionVisitorState::new();
    let x = visit_expression_column(&mut st, "x".to_string());
    let five = visit_expression_literal_long(&mut st, 5);
    let lt = visit_expression_lt(&mut st, x, five);
    let name = visit_expression_column(&mut st, "name".to_string());
    let bob = visit_expression_literal_string(&mut st, "bob".to_string());
    let eq = visit_expression_eq(&mut st, name, bob);
    let and = visit_expression_and(&mut st, &vec![lt, eq]);
    let expected = bin(
        BinaryOperator::And,
        bin(BinaryOperator::LessThan, col("x"), Expression::Literal(Scalar::Long(5))),
        bin(
            BinaryOperator::Equal,
            col("name"),
            Expression::Literal(Scalar::String("bob".to_string())),
        ),
    );
    assert_eq!(unwrap_kernel_expression(&mut st, and), Some(Box::new(expected)));
    for id in 1..and {
        assert_eq!(unwrap_kernel_expression(&mut st, id), None);
    }
}

#[test]
fn unwrap_after_wrap_then_nothing() {
    let mut st = KernelExpressionVisitorState::new();
    let first = visit_expression_column(&mut st, "keep".to_string());
    let id = wrap_expression(&mut st, col("e"));
    assert_eq!(unwrap_kernel_expression(&mut st, id), Some(Box::new(col("e"))));
    assert_eq!(unwrap_kernel_expression(&mut st, id), None);
    assert_eq!(unwrap_kernel_expression(&mut st, first), Some(Box::new(col("keep"))));
}

#[test]
fn node_building_tests_match_outcomes() {
    let mut st = KernelExpressionVisitorState::new();
    let a = visit_expression_column(&mut st, "a".to_string());
    let b = visit_expression_column(&mut st, "b".to_string());
    assert!(builds_binary_node(&st, a, b));
    assert!(!builds_binary_node(&st, a, a));
    assert!(!builds_binary_node(&st, a, 0));
    assert!(builds_and_node(&st, &vec![0, 9, b]));
    assert!(!builds_and_node(&st, &vec![0, 9]));
    assert!(!builds_and_node(&st, &vec![]));
    assert!(st.has_room());
}
