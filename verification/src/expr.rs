//! Expression reconstruction: from a flat postfix element sequence to a
//! binary expression tree.
//!
//! The postfix semantics are strict: a value pushes a leaf, a unary
//! operator pops one node, a binary operator pops the right operand
//! first and the left operand second.  A well-formed sequence leaves
//! exactly one residual node; anything else is malformed.

use vstd::prelude::*;

use crate::model::{ExprElement, GenError, Op, OpUnary, ReadValue};

verus! {

/// A reconstructed disassembly expression.
#[derive(Debug)]
pub enum Expr {
    Binary(Op, Box<Expr>, Box<Expr>),
    Unary(OpUnary, Box<Expr>),
    Value(ReadValue),
}

/// One step of the postfix stack machine: what pushing `e` does to the
/// stack of partially built nodes, or `None` on an underflow.
///
/// For a binary operator the topmost node is the right operand and the
/// node under it the left operand.
pub open spec fn push_elem(stack: Seq<Expr>, e: ExprElement) -> Option<Seq<Expr>> {
    match e {
        ExprElement::Value(v) => Some(stack.push(Expr::Value(v))),
        ExprElement::Op(op) => if stack.len() >= 2 {
            let left = stack[stack.len() - 2];
            let right = stack[stack.len() - 1];
            Some(
                stack.take(stack.len() - 2).push(
                    Expr::Binary(op, Box::new(left), Box::new(right)),
                ),
            )
        } else {
            None
        },
        ExprElement::OpUnary(op) => if stack.len() >= 1 {
            let inner = stack[stack.len() - 1];
            Some(stack.take(stack.len() - 1).push(Expr::Unary(op, Box::new(inner))))
        } else {
            None
        },
    }
}

/// The stack left by running the whole postfix sequence, or `None` if
/// some operator underflows the stack.
pub open spec fn run_postfix(elems: Seq<ExprElement>) -> Option<Seq<Expr>>
    decreases elems.len(),
{
    if elems.len() == 0 {
        Some(Seq::empty())
    } else {
        match run_postfix(elems.drop_last()) {
            Some(stack) => push_elem(stack, elems.last()),
            None => None,
        }
    }
}

/// A postfix sequence is well formed when running it leaves exactly one
/// residual node.  The empty sequence is not well formed.
pub open spec fn wf_postfix(elems: Seq<ExprElement>) -> bool {
    run_postfix(elems) matches Some(stack) && stack.len() == 1
}

/// The unique tree a well-formed postfix sequence reconstructs to.
pub open spec fn postfix_tree(elems: Seq<ExprElement>) -> Expr
    recommends
        wf_postfix(elems),
{
    run_postfix(elems)->Some_0[0]
}

/// The number of leaves of a tree.
pub open spec fn leaf_count(e: Expr) -> nat
    decreases e,
{
    match e {
        Expr::Binary(_, left, right) => leaf_count(*left) + leaf_count(*right),
        Expr::Unary(_, inner) => leaf_count(*inner),
        Expr::Value(_) => 1,
    }
}

/// The total number of leaves of every node on a stack.
pub open spec fn stack_leaves(stack: Seq<Expr>) -> nat
    decreases stack.len(),
{
    if stack.len() == 0 {
        0
    } else {
        stack_leaves(stack.drop_last()) + leaf_count(stack.last())
    }
}

/// The number of value elements of a postfix sequence.
pub open spec fn count_values(elems: Seq<ExprElement>) -> nat
    decreases elems.len(),
{
    if elems.len() == 0 {
        0
    } else {
        count_values(elems.drop_last()) + if elems.last() is Value {
            1nat
        } else {
            0nat
        }
    }
}

/// Once the stack machine fails, running any longer prefix fails too.
proof fn lemma_run_extends_failure(elems: Seq<ExprElement>, i: int)
    requires
        0 <= i <= elems.len(),
        run_postfix(elems.take(i)) is None,
    ensures
        run_postfix(elems) is None,
    decreases elems.len() - i,
{
    if i < elems.len() {
        assert(elems.take(i + 1).drop_last() =~= elems.take(i));
        lemma_run_extends_failure(elems, i + 1);
    } else {
        assert(elems.take(i) =~= elems);
    }
}

/// Running a postfix sequence preserves the total leaf count: the nodes
/// on the stack together hold one leaf per value element consumed.
proof fn lemma_stack_leaves(elems: Seq<ExprElement>)
    requires
        run_postfix(elems) is Some,
    ensures
        stack_leaves(run_postfix(elems)->Some_0) == count_values(elems),
    decreases elems.len(),
{
    if elems.len() > 0 {
        lemma_stack_leaves(elems.drop_last());
        let stack = run_postfix(elems.drop_last())->Some_0;
        let stack1 = run_postfix(elems)->Some_0;
        match elems.last() {
            ExprElement::Value(v) => {
                assert(stack1.drop_last() =~= stack);
            },
            ExprElement::Op(op) => {
                assert(stack.len() >= 2);
                let base = stack.take(stack.len() - 2);
                let x = stack[stack.len() - 2];
                assert(stack1.drop_last() =~= base);
                assert(stack.drop_last() =~= base.push(x));
                assert(base.push(x).drop_last() =~= base);
                assert(stack_leaves(base.push(x)) == stack_leaves(base) + leaf_count(x));
                assert(stack_leaves(stack) == stack_leaves(stack.drop_last())
                    + leaf_count(stack.last()));
                assert(stack_leaves(stack1) == stack_leaves(base)
                    + leaf_count(stack1.last()));
                assert(leaf_count(stack1.last()) == leaf_count(x) + leaf_count(stack.last()));
            },
            ExprElement::OpUnary(op) => {
                let base = stack.take(stack.len() - 1);
                assert(stack1.drop_last() =~= base);
                assert(stack.drop_last() =~= base);
            },
        }
    }
}

/// Round-trip arity: a well-formed postfix sequence with `k` value
/// elements reconstructs to exactly one tree, and that tree has exactly
/// `k` leaves.
pub proof fn lemma_round_trip_arity(elems: Seq<ExprElement>)
    requires
        wf_postfix(elems),
    ensures
        leaf_count(postfix_tree(elems)) == count_values(elems),
{
    lemma_stack_leaves(elems);
    let stack = run_postfix(elems)->Some_0;
    assert(stack.drop_last() =~= Seq::<Expr>::empty());
    assert(stack_leaves(stack) == stack_leaves(stack.drop_last()) + leaf_count(stack.last()));
    assert(stack_leaves(stack.drop_last()) == 0);
    assert(stack.last() == postfix_tree(elems));
}

/// Rebuilds the expression tree of a postfix element sequence.
///
/// Exactly the well-formed sequences reconstruct; every other input
/// (an underflowing operator, zero or several residual nodes) is
/// rejected as a malformed expression.
pub fn reconstruct(elems: &Vec<ExprElement>) -> (r: Result<Expr, GenError>)
    ensures
        r is Ok <==> wf_postfix(elems@),
        r matches Ok(e) ==> e == postfix_tree(elems@),
        r matches Err(err) ==> err == GenError::MalformedExpression,
{
    let ghost all = elems@;
    let mut stack: Vec<Expr> = Vec::new();
    let mut i: usize = 0;
    while i < elems.len()
        invariant
            i <= elems.len(),
            all == elems@,
            run_postfix(all.take(i as int)) == Some(stack@),
        decreases elems.len() - i,
    {
        proof {
            assert(all.take(i + 1).drop_last() =~= all.take(i as int));
        }
        match elems[i] {
            ExprElement::Value(v) => {
                stack.push(Expr::Value(v));
            },
            ExprElement::Op(op) => {
                if stack.len() < 2 {
                    proof {
                        lemma_run_extends_failure(all, i + 1);
                    }
                    return Err(GenError::MalformedExpression);
                }
                let ghost before = stack@;
                let right = match stack.pop() {
                    Some(e) => e,
                    None => {
                        return Err(GenError::MalformedExpression);
                    },
                };
                let left = match stack.pop() {
                    Some(e) => e,
                    None => {
                        return Err(GenError::MalformedExpression);
                    },
                };
                stack.push(Expr::Binary(op, Box::new(left), Box::new(right)));
                proof {
                    assert(stack@ =~= before.take(before.len() - 2).push(
                        Expr::Binary(op, Box::new(before[before.len() - 2]),
                            Box::new(before[before.len() - 1])),
                    ));
                }
            },
            ExprElement::OpUnary(op) => {
                if stack.len() < 1 {
                    proof {
                        lemma_run_extends_failure(all, i + 1);
                    }
                    return Err(GenError::MalformedExpression);
                }
                let ghost before = stack@;
                let inner = match stack.pop() {
                    Some(e) => e,
                    None => {
                        return Err(GenError::MalformedExpression);
                    },
                };
                stack.push(Expr::Unary(op, Box::new(inner)));
                proof {
                    assert(stack@ =~= before.take(before.len() - 1).push(
                        Expr::Unary(op, Box::new(before[before.len() - 1])),
                    ));
                }
            },
        }
        i = i + 1;
    }
    proof {
        assert(all.take(i as int) =~= all);
    }
    if stack.len() == 1 {
        match stack.pop() {
            Some(e) => Ok(e),
            None => Err(GenError::MalformedExpression),
        }
    } else {
        Err(GenError::MalformedExpression)
    }
}

} // verus!
