//! The value of an expression, which is what a program compiled from it
//! computes for given inputs, and the names of its variables. The rewrite
//! passes are held to both.

use vstd::prelude::*;
use vstd::arithmetic::power2::{lemma2_to64, pow2};
use crate::arith::{
    bits, lemma_power_of_exponent, modulus, negate, negated, op_value, quotient, shift_left,
    shift_right, wrap,
};
use crate::passes::constant_folding::fold;
use crate::passes::shift_replacement::{power_literal, reduce};
use crate::text::{parse_i32, parse_number};
use crate::types::{Expr, Operator};
use crate::variables::Variables;

verus! {

/// The value of an expression for given inputs.
///
/// A literal is its own value, a variable the number that its input text
/// stands for. Negation negates; any other operator in unary position
/// passes its operand's value on. A binary node applies its operator to
/// the values of its operands. There is no value where a variable has no
/// input or one that is no number, where a divisor is zero, or where an
/// operand has no value.
pub open spec fn value(e: Expr, inputs: Map<Seq<char>, String>) -> Option<i32>
    decreases e,
{
    match e {
        Expr::Num(n) => Some(n),
        Expr::Var(name) => if inputs.contains_key(name@) {
            parse_i32(inputs[name@]@)
        } else {
            None
        },
        Expr::UnaryOp(op, operand) => match value(*operand, inputs) {
            Some(v) => Some(
                if op == Operator::Sub {
                    negated(v)
                } else {
                    v
                },
            ),
            None => None,
        },
        Expr::BinaryOp(left, op, right) => binary_value(
            value(*left, inputs),
            op,
            value(*right, inputs),
        ),
    }
}

/// The value of a binary node whose operands have the given values.
pub open spec fn binary_value(left: Option<i32>, op: Operator, right: Option<i32>) -> Option<i32> {
    match (left, right) {
        (Some(a), Some(b)) => if op == Operator::Div && b == 0 {
            None
        } else {
            Some(op_value(op, a, b))
        },
        _ => None,
    }
}

impl Expr {
    /// Computes the value of the expression for given inputs.
    pub fn evaluate(&self, inputs: &Variables) -> (v: Option<i32>)
        ensures
            v == value(*self, inputs@),
        decreases *self,
    {
        match self {
            Expr::Num(n) => Some(*n),
            Expr::Var(name) => match inputs.get(name) {
                Some(text) => parse_number(text.as_str()),
                None => None,
            },
            Expr::UnaryOp(op, operand) => match operand.evaluate(inputs) {
                Some(v) => {
                    if *op == Operator::Sub {
                        Some(negate(v))
                    } else {
                        Some(v)
                    }
                },
                None => None,
            },
            Expr::BinaryOp(left, op, right) => {
                match (left.evaluate(inputs), right.evaluate(inputs)) {
                    (Some(a), Some(b)) => op.apply(a, b),
                    _ => None,
                }
            },
        }
    }
}

/// Constant folding does not change the value of an expression, whatever
/// the inputs.
pub proof fn lemma_fold_preserves_value(e: Expr, inputs: Map<Seq<char>, String>)
    ensures
        value(fold(e), inputs) == value(e, inputs),
    decreases e,
{
    match e {
        Expr::Num(_) => {},
        Expr::Var(_) => {},
        Expr::UnaryOp(op, operand) => {
            lemma_fold_preserves_value(*operand, inputs);
        },
        Expr::BinaryOp(left, op, right) => {
            lemma_fold_preserves_value(*left, inputs);
            lemma_fold_preserves_value(*right, inputs);
        },
    }
}

/// Whether every division that strength reduction turns into a shift has,
/// for the given inputs, a dividend that is not negative, or is a division
/// by one.
///
/// A right shift moves zeros in at the top, so it agrees with the division
/// on these dividends only.
pub open spec fn divides_only_nonnegative(e: Expr, inputs: Map<Seq<char>, String>) -> bool
    decreases e,
{
    match e {
        Expr::Num(_) => true,
        Expr::Var(_) => true,
        Expr::UnaryOp(_, operand) => divides_only_nonnegative(*operand, inputs),
        Expr::BinaryOp(left, op, right) => {
            if op == Operator::Mul && power_literal(*left) is Some {
                true
            } else if (op == Operator::Mul || op == Operator::Div) && power_literal(*right) is Some {
                &&& divides_only_nonnegative(*left, inputs)
                &&& op == Operator::Div ==> match value(*left, inputs) {
                    Some(dividend) => dividend >= 0 || power_literal(*right) == Some(0i32),
                    None => true,
                }
            } else {
                &&& divides_only_nonnegative(*left, inputs)
                &&& divides_only_nonnegative(*right, inputs)
            }
        },
    }
}

/// Multiplying by a power of two is shifting left by its exponent.
pub proof fn lemma_multiply_is_shift(a: i32, k: i32)
    requires
        0 <= k <= 30,
    ensures
        wrap(a * pow2(k as nat)) == shift_left(a, k),
        wrap(pow2(k as nat) * a) == shift_left(a, k),
{
    assert(pow2(k as nat) * a == a * pow2(k as nat)) by (nonlinear_arith);
}

/// Dividing a number that is not negative by a power of two is shifting
/// right by its exponent, and so is dividing any number by one.
pub proof fn lemma_divide_is_shift(a: i32, k: i32)
    requires
        0 <= k <= 30,
        a >= 0 || k == 0,
    ensures
        wrap(quotient(a as int, pow2(k as nat) as int)) == shift_right(a, k),
        pow2(k as nat) > 0,
{
    lemma2_to64();
    vstd::arithmetic::power2::lemma_pow2_pos(k as nat);
    if k == 0 {
        assert(pow2(0) == 1);
        assert(wrap(bits(a)) == a);
    } else {
        assert(bits(a) == a as int);
    }
}

/// Dividing a negative number by a power of two other than one is not
/// shifting it right: the quotient is at most zero, the shifted number is
/// positive.
pub proof fn lemma_divide_is_no_shift(a: i32, k: i32)
    requires
        1 <= k <= 30,
        a < 0,
    ensures
        wrap(quotient(a as int, pow2(k as nat) as int)) <= 0,
        shift_right(a, k) > 0,
{
    lemma2_to64();
    let power = pow2(k as nat) as int;
    vstd::arithmetic::power2::lemma_pow2_strictly_increases(0, k as nat);
    if k < 30 {
        vstd::arithmetic::power2::lemma_pow2_strictly_increases(k as nat, 30);
    }
    let size = -(a as int);
    let raw = bits(a);
    assert(raw == a + modulus());
    assert(0 <= size / power <= size) by (nonlinear_arith)
        requires
            size > 0,
            power >= 2,
    ;
    assert(2 <= raw / power < 0x8000_0000) by (nonlinear_arith)
        requires
            0x8000_0000 <= raw < 0x1_0000_0000,
            2 <= power <= 0x4000_0000,
    ;
}

/// Strength reduction does not change the value of an expression for
/// inputs under which no negative number is divided by a shift.
pub proof fn lemma_reduce_preserves_value(e: Expr, inputs: Map<Seq<char>, String>)
    requires
        divides_only_nonnegative(e, inputs),
    ensures
        value(reduce(e), inputs) == value(e, inputs),
    decreases e,
{
    match e {
        Expr::Num(_) => {},
        Expr::Var(_) => {},
        Expr::UnaryOp(op, operand) => {
            lemma_reduce_preserves_value(*operand, inputs);
        },
        Expr::BinaryOp(left, op, right) => {
            if op == Operator::Mul && power_literal(*left) is Some {
                let n = left->Num_0;
                let k = power_literal(*left).unwrap();
                lemma_power_of_exponent(n);
                assert(value(Expr::Num(k), inputs) == Some(k));
                match value(*right, inputs) {
                    Some(b) => {
                        lemma_multiply_is_shift(b, k);
                    },
                    None => {},
                }
            } else if (op == Operator::Mul || op == Operator::Div) && power_literal(*right) is Some {
                let n = right->Num_0;
                let k = power_literal(*right).unwrap();
                lemma_power_of_exponent(n);
                lemma_reduce_preserves_value(*left, inputs);
                assert(value(Expr::Num(k), inputs) == Some(k));
                match value(*left, inputs) {
                    Some(a) => {
                        if op == Operator::Mul {
                            lemma_multiply_is_shift(a, k);
                        } else {
                            lemma_divide_is_shift(a, k);
                        }
                    },
                    None => {},
                }
            } else {
                lemma_reduce_preserves_value(*left, inputs);
                lemma_reduce_preserves_value(*right, inputs);
            }
        },
    }
}

/// Folding and then reducing does not change the value of an expression
/// for inputs under which, once the tree is folded, no negative number is
/// divided by a shift.
pub proof fn lemma_passes_preserve_value(e: Expr, inputs: Map<Seq<char>, String>)
    requires
        divides_only_nonnegative(fold(e), inputs),
    ensures
        value(reduce(fold(e)), inputs) == value(e, inputs),
{
    lemma_fold_preserves_value(e, inputs);
    lemma_reduce_preserves_value(fold(e), inputs);
}

/// The names of the variables of an expression.
pub open spec fn variables(e: Expr) -> Set<Seq<char>>
    decreases e,
{
    match e {
        Expr::Num(_) => Set::empty(),
        Expr::Var(name) => set![name@],
        Expr::UnaryOp(_, operand) => variables(*operand),
        Expr::BinaryOp(left, _, right) => variables(*left).union(variables(*right)),
    }
}

impl Expr {
    /// Whether the expression has a variable of the given name.
    pub fn mentions(&self, name: &String) -> (found: bool)
        ensures
            found == variables(*self).contains(name@),
        decreases *self,
    {
        match self {
            Expr::Num(_) => false,
            Expr::Var(own) => *own == *name,
            Expr::UnaryOp(_, operand) => operand.mentions(name),
            Expr::BinaryOp(left, _, right) => left.mentions(name) || right.mentions(name),
        }
    }
}

/// Constant folding neither loses nor invents a variable.
pub proof fn lemma_fold_keeps_variables(e: Expr)
    ensures
        variables(fold(e)) == variables(e),
    decreases e,
{
    match e {
        Expr::Num(_) => {},
        Expr::Var(_) => {},
        Expr::UnaryOp(op, operand) => {
            lemma_fold_keeps_variables(*operand);
        },
        Expr::BinaryOp(left, op, right) => {
            lemma_fold_keeps_variables(*left);
            lemma_fold_keeps_variables(*right);
        },
    }
}

/// Strength reduction neither loses nor invents a variable.
pub proof fn lemma_reduce_keeps_variables(e: Expr)
    ensures
        variables(reduce(e)) == variables(e),
    decreases e,
{
    match e {
        Expr::Num(_) => {},
        Expr::Var(_) => {},
        Expr::UnaryOp(op, operand) => {
            lemma_reduce_keeps_variables(*operand);
        },
        Expr::BinaryOp(left, op, right) => {
            lemma_reduce_keeps_variables(*left);
            lemma_reduce_keeps_variables(*right);
            if op == Operator::Mul && power_literal(*left) is Some {
                assert(variables(Expr::Num(power_literal(*left).unwrap())) == Set::<
                    Seq<char>,
                >::empty());
            } else if (op == Operator::Mul || op == Operator::Div) && power_literal(*right) is Some {
                assert(variables(Expr::Num(power_literal(*right).unwrap())) == Set::<
                    Seq<char>,
                >::empty());
            }
        },
    }
}

/// An expression has no value where one of its variables lacks an input.
pub proof fn lemma_value_needs_inputs(e: Expr, inputs: Map<Seq<char>, String>, name: Seq<char>)
    requires
        variables(e).contains(name),
        !inputs.contains_key(name),
    ensures
        value(e, inputs) is None,
    decreases e,
{
    match e {
        Expr::Num(_) => {},
        Expr::Var(_) => {},
        Expr::UnaryOp(op, operand) => {
            lemma_value_needs_inputs(*operand, inputs, name);
        },
        Expr::BinaryOp(left, op, right) => {
            if variables(*left).contains(name) {
                lemma_value_needs_inputs(*left, inputs, name);
            } else {
                lemma_value_needs_inputs(*right, inputs, name);
            }
        },
    }
}

} // verus!
