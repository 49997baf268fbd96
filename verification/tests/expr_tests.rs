use guardgen::expr::reconstruct;
use guardgen::model::{ExprElement, GenError, Number, Op, OpUnary, ReadValue};
use guardgen::render::{render_constraint, render_expr, render_hex};

fn lit(n: u64) -> ExprElement {
    ExprElement::Value(ReadValue::Integer(Number::Positive(n)))
}

#[test]
fn binary_stack_order() {
    // Postfix for `5 - 3`: the left operand must be the node from 5.
    let elems = vec![lit(5), lit(3), ExprElement::Op(Op::Sub)];
    let text = render_constraint(&elems).unwrap();
    assert_eq!(text, "(0x5) - (0x3)");
}

#[test]
fn negative_literal_rendering() {
    let elems = vec![ExprElement::Value(ReadValue::Integer(Number::Negative(10)))];
    let text = render_constraint(&elems).unwrap();
    assert_eq!(text, "-0xa");
}

#[test]
fn unary_composition() {
    let elems = vec![lit(7), ExprElement::OpUnary(OpUnary::Negative)];
    let text = render_constraint(&elems).unwrap();
    assert_eq!(text, "~(0x7)");
}

#[test]
fn unary_negation_symbol() {
    let elems = vec![lit(2), ExprElement::OpUnary(OpUnary::Negation)];
    let text = render_constraint(&elems).unwrap();
    assert_eq!(text, "-(0x2)");
}

#[test]
fn empty_sequence_is_malformed() {
    let elems: Vec<ExprElement> = vec![];
    assert_eq!(render_constraint(&elems), Err(GenError::MalformedExpression));
    assert!(reconstruct(&elems).is_err());
}

#[test]
fn two_residual_nodes_are_malformed() {
    let elems = vec![lit(1), lit(2)];
    assert_eq!(render_constraint(&elems), Err(GenError::MalformedExpression));
}

#[test]
fn operator_underflow_is_malformed() {
    let elems = vec![lit(1), ExprElement::Op(Op::Add)];
    assert_eq!(render_constraint(&elems), Err(GenError::MalformedExpression));
    let elems = vec![ExprElement::OpUnary(OpUnary::Negative)];
    assert_eq!(render_constraint(&elems), Err(GenError::MalformedExpression));
}

#[test]
fn well_formed_sequence_reconstructs() {
    // Three values and two operators satisfying the stack invariant.
    let elems = vec![lit(1), lit(2), ExprElement::Op(Op::Add), lit(3), ExprElement::Op(Op::Mul)];
    let text = render_constraint(&elems).unwrap();
    assert_eq!(text, "((0x1) + (0x2)) * (0x3)");
}

#[test]
fn unsupported_value_kinds_fail() {
    for v in [
        ReadValue::Context,
        ReadValue::TokenField,
        ReadValue::InstStart,
        ReadValue::InstNext,
        ReadValue::Local,
    ] {
        let elems = vec![ExprElement::Value(v)];
        assert_eq!(render_constraint(&elems), Err(GenError::UnsupportedValueKind));
    }
}

#[test]
fn unsupported_leaf_under_operator_fails() {
    let elems = vec![lit(1), ExprElement::Value(ReadValue::Context), ExprElement::Op(Op::Add)];
    assert_eq!(render_constraint(&elems), Err(GenError::UnsupportedValueKind));
}

#[test]
fn malformed_wins_over_unsupported() {
    // Reconstruction fails before rendering ever sees the leaves.
    let elems = vec![ExprElement::Value(ReadValue::Context), ExprElement::Value(ReadValue::Local)];
    assert_eq!(render_constraint(&elems), Err(GenError::MalformedExpression));
}

#[test]
fn operator_symbols() {
    let cases: [(Op, &str); 9] = [
        (Op::Add, "(0x1) + (0x2)"),
        (Op::Sub, "(0x1) - (0x2)"),
        (Op::Mul, "(0x1) * (0x2)"),
        (Op::Div, "(0x1) / (0x2)"),
        (Op::And, "(0x1) && (0x2)"),
        (Op::Or, "(0x1) || (0x2)"),
        (Op::Xor, "(0x1) ^ (0x2)"),
        (Op::Asr, "(0x1) >>> (0x2)"),
        (Op::Lsl, "(0x1) << (0x2)"),
    ];
    for (op, expected) in cases {
        let elems = vec![lit(1), lit(2), ExprElement::Op(op)];
        assert_eq!(render_constraint(&elems).unwrap(), expected);
    }
}

#[test]
fn hex_rendering() {
    assert_eq!(render_hex(0), "0");
    assert_eq!(render_hex(9), "9");
    assert_eq!(render_hex(10), "a");
    assert_eq!(render_hex(255), "ff");
    assert_eq!(render_hex(0x1234_abcd), "1234abcd");
    assert_eq!(render_hex(u64::MAX), "ffffffffffffffff");
}

#[test]
fn render_expr_on_reconstructed_tree() {
    let elems = vec![lit(16), ExprElement::OpUnary(OpUnary::Negative)];
    let tree = reconstruct(&elems).unwrap();
    assert_eq!(render_expr(&tree).unwrap(), "~(0x10)");
}
