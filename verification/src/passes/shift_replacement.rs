//! Strength reduction: a multiplication or division by a literal power of
//! two becomes a shift by its exponent.

use vstd::prelude::*;
use vstd::arithmetic::power2::is_pow2;
use crate::arith::{exponent, is_power_of_two, log2};
use crate::types::{Expr, Operator};

verus! {

/// The exponent `k` when the expression is the literal `2^k`.
pub open spec fn power_literal(e: Expr) -> Option<i32> {
    match e {
        Expr::Num(n) => if is_pow2(n as int) {
            Some(exponent(n))
        } else {
            None
        },
        _ => None,
    }
}

/// The shift that stands for an operator: left for a multiplication,
/// right for a division.
pub open spec fn shift_for(op: Operator) -> Operator {
    if op == Operator::Mul {
        Operator::Shl
    } else {
        Operator::Shr
    }
}

/// The reduced form of a tree.
///
/// Leaves stay, a unary node is reduced in its operand, and a binary node
/// other than a multiplication or division is reduced in both operands. Of
/// a multiplication or division:
/// - a multiplication whose left operand is the literal `2^k` becomes the
///   right operand, as it stands, shifted left by `k`;
/// - otherwise, where the right operand is the literal `2^k`, it becomes
///   the reduced left operand shifted by `k`, left for a multiplication and
///   right for a division;
/// - otherwise it is reduced in both operands.
///
/// Zero and negative literals are no powers of two.
pub open spec fn reduce(e: Expr) -> Expr
    decreases e,
{
    match e {
        Expr::Num(_) => e,
        Expr::Var(_) => e,
        Expr::UnaryOp(op, operand) => Expr::UnaryOp(op, Box::new(reduce(*operand))),
        Expr::BinaryOp(left, op, right) => {
            if op == Operator::Mul && power_literal(*left) is Some {
                Expr::BinaryOp(
                    right,
                    Operator::Shl,
                    Box::new(Expr::Num(power_literal(*left).unwrap())),
                )
            } else if (op == Operator::Mul || op == Operator::Div) && power_literal(*right) is Some {
                Expr::BinaryOp(
                    Box::new(reduce(*left)),
                    shift_for(op),
                    Box::new(Expr::Num(power_literal(*right).unwrap())),
                )
            } else {
                Expr::BinaryOp(Box::new(reduce(*left)), op, Box::new(reduce(*right)))
            }
        },
    }
}

/// Trees in which multiplications and divisions by powers of two can be
/// replaced by shifts.
pub trait ShiftReplacement: Sized {
    /// What the replacement makes of the value.
    spec fn shifted(self) -> Self;

    /// Replaces multiplications and divisions by literal powers of two by
    /// shifts.
    fn replace_multiplications_with_bitshifts(self) -> (out: Self)
        ensures
            out == self.shifted(),
    ;
}

impl ShiftReplacement for Expr {
    open spec fn shifted(self) -> Expr {
        reduce(self)
    }

    fn replace_multiplications_with_bitshifts(self) -> (out: Expr) {
        reduce_tree(self)
    }
}

/// The exponent of a literal power of two, `None` for anything else.
pub fn literal_exponent(e: &Expr) -> (k: Option<i32>)
    ensures
        k == power_literal(*e),
{
    match e {
        Expr::Num(n) => {
            if is_power_of_two(*n) {
                proof {
                    reveal(is_pow2);
                }
                Some(log2(*n))
            } else {
                None
            }
        },
        _ => None,
    }
}

/// Reduces a tree from the root down.
pub fn reduce_tree(e: Expr) -> (out: Expr)
    ensures
        out == reduce(e),
    decreases e,
{
    match e {
        Expr::Num(n) => Expr::Num(n),
        Expr::Var(name) => Expr::Var(name),
        Expr::UnaryOp(op, operand) => Expr::UnaryOp(op, Box::new(reduce_tree(*operand))),
        Expr::BinaryOp(left, op, right) => {
            let scales = op == Operator::Mul || op == Operator::Div;
            let by_left = if op == Operator::Mul {
                literal_exponent(&left)
            } else {
                None
            };
            let by_right = if scales {
                literal_exponent(&right)
            } else {
                None
            };
            match (by_left, by_right) {
                (Some(k), _) => Expr::BinaryOp(right, Operator::Shl, Box::new(Expr::Num(k))),
                (None, Some(k)) => {
                    let shift = if op == Operator::Mul {
                        Operator::Shl
                    } else {
                        Operator::Shr
                    };
                    Expr::BinaryOp(Box::new(reduce_tree(*left)), shift, Box::new(Expr::Num(k)))
                },
                (None, None) => Expr::BinaryOp(
                    Box::new(reduce_tree(*left)),
                    op,
                    Box::new(reduce_tree(*right)),
                ),
            }
        },
    }
}

} // verus!
