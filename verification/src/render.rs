//! Rendering of reconstructed expression trees to parenthesized infix
//! text.
//!
//! Only literal-integer leaves are renderable.  Every other value kind
//! is a deliberate incompleteness and makes rendering fail, rather than
//! emit incorrect text.  The operator symbol table is fixed and used
//! verbatim in the emitted text; note that bitwise and/or intentionally
//! reuse the logical-operator tokens of the target code.

use vstd::prelude::*;

use crate::expr::{postfix_tree, reconstruct, wf_postfix, Expr};
use crate::model::{CmpOp, ExprElement, GenError, Number, Op, OpUnary, ReadValue};

verus! {

/// The symbol a binary operator renders to.
pub open spec fn op_symbol(op: Op) -> Seq<char> {
    match op {
        Op::Add => "+"@,
        Op::Sub => "-"@,
        Op::Mul => "*"@,
        Op::Div => "/"@,
        Op::And => "&&"@,
        Op::Or => "||"@,
        Op::Xor => "^"@,
        Op::Asr => ">>>"@,
        Op::Lsl => "<<"@,
    }
}

/// The symbol a unary operator renders to.
pub open spec fn op_unary_symbol(op: OpUnary) -> Seq<char> {
    match op {
        OpUnary::Negation => "-"@,
        OpUnary::Negative => "~"@,
    }
}

/// The symbol a comparison operator renders to.
pub open spec fn cmp_symbol(op: CmpOp) -> Seq<char> {
    match op {
        CmpOp::Eq => "=="@,
        CmpOp::Ne => "!="@,
        CmpOp::Lt => "<"@,
        CmpOp::Gt => ">"@,
        CmpOp::Le => "<="@,
        CmpOp::Ge => ">="@,
    }
}

/// The symbol of a binary operator, as emitted text.
pub fn op_symbol_str(op: Op) -> (r: &'static str)
    ensures
        r@ == op_symbol(op),
{
    match op {
        Op::Add => "+",
        Op::Sub => "-",
        Op::Mul => "*",
        Op::Div => "/",
        Op::And => "&&",
        Op::Or => "||",
        Op::Xor => "^",
        Op::Asr => ">>>",
        Op::Lsl => "<<",
    }
}

/// The symbol of a unary operator, as emitted text.
pub fn op_unary_symbol_str(op: OpUnary) -> (r: &'static str)
    ensures
        r@ == op_unary_symbol(op),
{
    match op {
        OpUnary::Negation => "-",
        OpUnary::Negative => "~",
    }
}

/// The symbol of a comparison operator, as emitted text.
pub fn cmp_symbol_str(op: CmpOp) -> (r: &'static str)
    ensures
        r@ == cmp_symbol(op),
{
    match op {
        CmpOp::Eq => "==",
        CmpOp::Ne => "!=",
        CmpOp::Lt => "<",
        CmpOp::Gt => ">",
        CmpOp::Le => "<=",
        CmpOp::Ge => ">=",
    }
}

/// The lower-case hexadecimal digit of a value below 16.
pub open spec fn hex_digit(d: nat) -> char
    recommends
        d < 16,
{
    if d == 0 { '0' }
    else if d == 1 { '1' }
    else if d == 2 { '2' }
    else if d == 3 { '3' }
    else if d == 4 { '4' }
    else if d == 5 { '5' }
    else if d == 6 { '6' }
    else if d == 7 { '7' }
    else if d == 8 { '8' }
    else if d == 9 { '9' }
    else if d == 10 { 'a' }
    else if d == 11 { 'b' }
    else if d == 12 { 'c' }
    else if d == 13 { 'd' }
    else if d == 14 { 'e' }
    else { 'f' }
}

/// The unsigned hexadecimal digit sequence of `n`, most significant
/// digit first, without leading zeros (`0` itself is one digit).
pub open spec fn hex_seq(n: nat) -> Seq<char>
    decreases n,
{
    if n < 16 {
        seq![hex_digit(n)]
    } else {
        hex_seq(n / 16).push(hex_digit(n % 16))
    }
}

/// The single hexadecimal digit of `d`, as emitted text.
fn hex_digit_str(d: u64) -> (r: &'static str)
    requires
        d < 16,
    ensures
        r@ == seq![hex_digit(d as nat)],
{
    proof {
        reveal_strlit("0");
        reveal_strlit("1");
        reveal_strlit("2");
        reveal_strlit("3");
        reveal_strlit("4");
        reveal_strlit("5");
        reveal_strlit("6");
        reveal_strlit("7");
        reveal_strlit("8");
        reveal_strlit("9");
        reveal_strlit("a");
        reveal_strlit("b");
        reveal_strlit("c");
        reveal_strlit("d");
        reveal_strlit("e");
        reveal_strlit("f");
    }
    let r: &'static str = match d {
        0 => "0",
        1 => "1",
        2 => "2",
        3 => "3",
        4 => "4",
        5 => "5",
        6 => "6",
        7 => "7",
        8 => "8",
        9 => "9",
        10 => "a",
        11 => "b",
        12 => "c",
        13 => "d",
        14 => "e",
        _ => "f",
    };
    proof {
        assert(r@ =~= seq![hex_digit(d as nat)]);
    }
    r
}

/// Renders `n` as its hexadecimal digit sequence.
pub fn render_hex(n: u64) -> (s: String)
    ensures
        s@ == hex_seq(n as nat),
    decreases n,
{
    if n < 16 {
        hex_digit_str(n).to_owned()
    } else {
        let mut s = render_hex(n / 16);
        s.append(hex_digit_str(n % 16));
        proof {
            assert(s@ =~= hex_seq(n as nat));
        }
        s
    }
}

/// Whether a value has a rendering rule: only integer literals do.
pub open spec fn renderable_value(v: ReadValue) -> bool {
    v is Integer
}

/// The text of an integer literal: a `0x` hexadecimal literal, with a
/// leading minus for a negative value's magnitude.
pub open spec fn value_text(v: ReadValue) -> Seq<char>
    recommends
        renderable_value(v),
{
    match v {
        ReadValue::Integer(Number::Positive(p)) => "0x"@ + hex_seq(p as nat),
        ReadValue::Integer(Number::Negative(m)) => "-0x"@ + hex_seq(m as nat),
        _ => Seq::empty(),
    }
}

/// Whether every leaf of a tree is renderable.
pub open spec fn renderable(e: Expr) -> bool
    decreases e,
{
    match e {
        Expr::Binary(_, left, right) => renderable(*left) && renderable(*right),
        Expr::Unary(_, inner) => renderable(*inner),
        Expr::Value(v) => renderable_value(v),
    }
}

/// The infix text of a tree: `(left) op (right)` for a binary node,
/// `op(inner)` for a unary node, a literal for a leaf.
pub open spec fn expr_text(e: Expr) -> Seq<char>
    recommends
        renderable(e),
    decreases e,
{
    match e {
        Expr::Binary(op, left, right) => "("@ + expr_text(*left) + ") "@ + op_symbol(op)
            + " ("@ + expr_text(*right) + ")"@,
        Expr::Unary(op, inner) => op_unary_symbol(op) + "("@ + expr_text(*inner) + ")"@,
        Expr::Value(v) => value_text(v),
    }
}

/// Renders one tree to parenthesized infix text.
///
/// Exactly the trees whose leaves are all integer literals render;
/// any other leaf kind is an unsupported value kind.
pub fn render_expr(e: &Expr) -> (r: Result<String, GenError>)
    ensures
        r is Ok <==> renderable(*e),
        r matches Ok(s) ==> s@ == expr_text(*e),
        r matches Err(err) ==> err == GenError::UnsupportedValueKind,
    decreases *e,
{
    match e {
        Expr::Binary(op, left, right) => {
            let lt = render_expr(left)?;
            let rt = render_expr(right)?;
            let mut s = "(".to_owned();
            s.append(lt.as_str());
            s.append(") ");
            s.append(op_symbol_str(*op));
            s.append(" (");
            s.append(rt.as_str());
            s.append(")");
            proof {
                assert(s@ =~= expr_text(*e));
            }
            Ok(s)
        },
        Expr::Unary(op, inner) => {
            let it = render_expr(inner)?;
            let mut s = op_unary_symbol_str(*op).to_owned();
            s.append("(");
            s.append(it.as_str());
            s.append(")");
            proof {
                assert(s@ =~= expr_text(*e));
            }
            Ok(s)
        },
        Expr::Value(v) => {
            match v {
                ReadValue::Integer(Number::Positive(p)) => {
                    let mut s = "0x".to_owned();
                    s.append(render_hex(*p).as_str());
                    proof {
                        assert(s@ =~= expr_text(*e));
                    }
                    Ok(s)
                },
                ReadValue::Integer(Number::Negative(m)) => {
                    let mut s = "-0x".to_owned();
                    s.append(render_hex(*m).as_str());
                    proof {
                        assert(s@ =~= expr_text(*e));
                    }
                    Ok(s)
                },
                _ => Err(GenError::UnsupportedValueKind),
            }
        },
    }
}

/// Whether a postfix value expression both reconstructs and renders.
pub open spec fn constraint_ok(elems: Seq<ExprElement>) -> bool {
    wf_postfix(elems) && renderable(postfix_tree(elems))
}

/// The rendered text of a postfix value expression.
pub open spec fn constraint_text(elems: Seq<ExprElement>) -> Seq<char>
    recommends
        constraint_ok(elems),
{
    expr_text(postfix_tree(elems))
}

/// The error a postfix value expression fails with: malformed if the
/// stack invariant breaks, otherwise an unsupported value kind.
pub open spec fn constraint_err(elems: Seq<ExprElement>) -> GenError
    recommends
        !constraint_ok(elems),
{
    if !wf_postfix(elems) {
        GenError::MalformedExpression
    } else {
        GenError::UnsupportedValueKind
    }
}

/// Reconstructs a postfix value expression and renders it to infix
/// text, failing on a malformed sequence or an unsupported value kind.
pub fn render_constraint(elems: &Vec<ExprElement>) -> (r: Result<String, GenError>)
    ensures
        r is Ok <==> constraint_ok(elems@),
        r matches Ok(s) ==> s@ == constraint_text(elems@),
        r matches Err(err) ==> err == constraint_err(elems@),
{
    match reconstruct(elems) {
        Ok(e) => render_expr(&e),
        Err(err) => Err(err),
    }
}

} // verus!
