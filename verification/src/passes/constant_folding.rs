//! Constant folding: every operation whose operands are literals is carried
//! out ahead of time and replaced by its result.

use vstd::prelude::*;
use crate::arith::{negate, negated, op_value};
use crate::types::{Expr, Operator};

verus! {

/// The folded form of a tree, from the leaves up.
///
/// A literal or a variable stays. A negated literal becomes the literal of
/// the negated value; any other unary node keeps its operator around the
/// folded operand. A binary node whose operands both fold to literals
/// becomes the literal of the operator's value, unless it is a division by
/// zero, which is kept as it is so that it fails when the program runs.
pub open spec fn fold(e: Expr) -> Expr
    decreases e,
{
    match e {
        Expr::Num(_) => e,
        Expr::Var(_) => e,
        Expr::UnaryOp(op, operand) => fold_unary(op, fold(*operand)),
        Expr::BinaryOp(left, op, right) => fold_binary(fold(*left), op, fold(*right)),
    }
}

/// A unary node over an operand that is already folded.
pub open spec fn fold_unary(op: Operator, operand: Expr) -> Expr {
    match operand {
        Expr::Num(n) => if op == Operator::Sub {
            Expr::Num(negated(n))
        } else {
            Expr::UnaryOp(op, Box::new(operand))
        },
        _ => Expr::UnaryOp(op, Box::new(operand)),
    }
}

/// A binary node over operands that are already folded.
pub open spec fn fold_binary(left: Expr, op: Operator, right: Expr) -> Expr {
    match (left, right) {
        (Expr::Num(a), Expr::Num(b)) => if op == Operator::Div && b == 0 {
            Expr::BinaryOp(Box::new(left), op, Box::new(right))
        } else {
            Expr::Num(op_value(op, a, b))
        },
        _ => Expr::BinaryOp(Box::new(left), op, Box::new(right)),
    }
}

/// Whether the tree holds a literal divided by the literal zero. Folding
/// leaves exactly these nodes unfolded, so on a folded tree this tells
/// whether folding had to refuse a division.
pub open spec fn has_zero_division(e: Expr) -> bool
    decreases e,
{
    match e {
        Expr::Num(_) => false,
        Expr::Var(_) => false,
        Expr::UnaryOp(_, operand) => has_zero_division(*operand),
        Expr::BinaryOp(left, op, right) => {
            ||| (op == Operator::Div && *left is Num && *right == Expr::Num(0))
            ||| has_zero_division(*left)
            ||| has_zero_division(*right)
        },
    }
}

/// Whether folding the tree comes upon a division of a literal by the
/// literal zero, which it refuses to carry out.
pub open spec fn refuses(e: Expr) -> bool
    decreases e,
{
    match e {
        Expr::Num(_) => false,
        Expr::Var(_) => false,
        Expr::UnaryOp(_, operand) => refuses(*operand),
        Expr::BinaryOp(left, op, right) => {
            ||| refuses(*left)
            ||| refuses(*right)
            ||| (op == Operator::Div && fold(*left) is Num && fold(*right) == Expr::Num(0))
        },
    }
}

/// Trees that can be constant-folded.
pub trait ConstantFold: Sized {
    /// What folding makes of the value.
    spec fn folded(self) -> Self;

    /// Folds every operation on literals into its result.
    fn run_constant_fold(self) -> (out: Self)
        ensures
            out == self.folded(),
    ;
}

impl ConstantFold for Expr {
    open spec fn folded(self) -> Expr {
        fold(self)
    }

    fn run_constant_fold(self) -> (out: Expr) {
        fold_tree(self)
    }
}

/// Folds a tree from the leaves up.
pub fn fold_tree(e: Expr) -> (out: Expr)
    ensures
        out == fold(e),
    decreases e,
{
    match e {
        Expr::Num(n) => Expr::Num(n),
        Expr::Var(name) => Expr::Var(name),
        Expr::UnaryOp(op, operand) => {
            let inner = fold_tree(*operand);
            match inner {
                Expr::Num(n) => {
                    if op == Operator::Sub {
                        Expr::Num(negate(n))
                    } else {
                        Expr::UnaryOp(op, Box::new(Expr::Num(n)))
                    }
                },
                other => Expr::UnaryOp(op, Box::new(other)),
            }
        },
        Expr::BinaryOp(left, op, right) => {
            let l = fold_tree(*left);
            let r = fold_tree(*right);
            match (l, r) {
                (Expr::Num(a), Expr::Num(b)) => {
                    match op.apply(a, b) {
                        Some(value) => Expr::Num(value),
                        None => Expr::BinaryOp(
                            Box::new(Expr::Num(a)),
                            op,
                            Box::new(Expr::Num(b)),
                        ),
                    }
                },
                (l, r) => Expr::BinaryOp(Box::new(l), op, Box::new(r)),
            }
        },
    }
}

impl Expr {
    /// Whether the tree holds a literal divided by the literal zero: the
    /// warning that goes with a folded tree.
    pub fn has_unfolded_division(&self) -> (found: bool)
        ensures
            found == has_zero_division(*self),
        decreases *self,
    {
        match self {
            Expr::Num(_) => false,
            Expr::Var(_) => false,
            Expr::UnaryOp(_, operand) => operand.has_unfolded_division(),
            Expr::BinaryOp(left, op, right) => {
                let here = match (&**left, op, &**right) {
                    (Expr::Num(_), Operator::Div, Expr::Num(b)) => *b == 0,
                    _ => false,
                };
                here || left.has_unfolded_division() || right.has_unfolded_division()
            },
        }
    }
}

/// Folding a folded tree changes nothing.
pub proof fn lemma_fold_idempotent(e: Expr)
    ensures
        fold(fold(e)) == fold(e),
    decreases e,
{
    match e {
        Expr::Num(_) => {},
        Expr::Var(_) => {},
        Expr::UnaryOp(op, operand) => {
            lemma_fold_idempotent(*operand);
        },
        Expr::BinaryOp(left, op, right) => {
            lemma_fold_idempotent(*left);
            lemma_fold_idempotent(*right);
        },
    }
}

/// A division whose divisor folds to the literal zero is never folded: the
/// node stays a division of the folded dividend by that zero. Where the
/// dividend folds to a literal too, what is left is a division of two
/// literals.
pub proof fn lemma_fold_keeps_zero_division(left: Expr, right: Expr)
    requires
        fold(right) == Expr::Num(0),
    ensures
        fold(Expr::BinaryOp(Box::new(left), Operator::Div, Box::new(right)))
            == Expr::BinaryOp(Box::new(fold(left)), Operator::Div, Box::new(Expr::Num(0))),
        fold(left) is Num ==> has_zero_division(
            fold(Expr::BinaryOp(Box::new(left), Operator::Div, Box::new(right))),
        ),
{
}

/// Folding refuses a division exactly when the folded tree holds a
/// literal divided by the literal zero: the refusal can be read off the
/// result.
pub proof fn lemma_refusal_shows(e: Expr)
    ensures
        refuses(e) == has_zero_division(fold(e)),
    decreases e,
{
    match e {
        Expr::Num(_) => {},
        Expr::Var(_) => {},
        Expr::UnaryOp(op, operand) => {
            lemma_refusal_shows(*operand);
        },
        Expr::BinaryOp(left, op, right) => {
            lemma_refusal_shows(*left);
            lemma_refusal_shows(*right);
        },
    }
}

/// A folded tree holds no operation on two literals other than divisions
/// by zero, and no negated literal.
pub open spec fn is_folded(e: Expr) -> bool
    decreases e,
{
    match e {
        Expr::Num(_) => true,
        Expr::Var(_) => true,
        Expr::UnaryOp(op, operand) => {
            &&& is_folded(*operand)
            &&& !(op == Operator::Sub && *operand is Num)
        },
        Expr::BinaryOp(left, op, right) => {
            &&& is_folded(*left)
            &&& is_folded(*right)
            &&& (*left is Num && *right is Num ==> op == Operator::Div && *right == Expr::Num(0))
        },
    }
}

/// Folding leaves nothing that it could still fold, and a tree with
/// nothing to fold is returned as it is.
pub proof fn lemma_fold_is_complete(e: Expr)
    ensures
        is_folded(fold(e)),
        is_folded(e) ==> fold(e) == e,
    decreases e,
{
    match e {
        Expr::Num(_) => {},
        Expr::Var(_) => {},
        Expr::UnaryOp(op, operand) => {
            lemma_fold_is_complete(*operand);
        },
        Expr::BinaryOp(left, op, right) => {
            lemma_fold_is_complete(*left);
            lemma_fold_is_complete(*right);
        },
    }
}

} // verus!
