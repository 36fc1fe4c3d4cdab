//! The order of numbers: first by variant (`PositiveInt`, then `NegativeInt`, then `Float`),
//! then by the value held, floats as `f64`, so that a NaN is unordered.
use super::{
    bits_is_nan, bits_rank, float_rank, is_nan_bits, law_float_eq, number_eq, rank_in_variant,
    Number,
};
use core::cmp::Ordering;
use vstd::prelude::*;
use vstd::std_specs::cmp::PartialOrdSpecImpl;

verus! {

/// The place of a variant in the order of numbers.
pub open spec fn variant_place(n: Number) -> int {
    match n {
        Number::PositiveInt(_) => 0,
        Number::NegativeInt(_) => 1,
        Number::Float(_) => 2,
    }
}

/// How two integers compare.
pub open spec fn order_of(a: int, b: int) -> Ordering {
    if a < b {
        Ordering::Less
    } else if a == b {
        Ordering::Equal
    } else {
        Ordering::Greater
    }
}

/// How two numbers compare: `None` when either is a NaN float and both are floats.
pub open spec fn number_order(a: Number, b: Number) -> Option<Ordering> {
    match (a, b) {
        (Number::PositiveInt(_), Number::PositiveInt(_)) | (
            Number::NegativeInt(_),
            Number::NegativeInt(_),
        ) => Some(order_of(rank_in_variant(a), rank_in_variant(b))),
        (Number::Float(x), Number::Float(y)) => if is_nan_bits(x) || is_nan_bits(y) {
            None
        } else {
            Some(order_of(rank_in_variant(a), rank_in_variant(b)))
        },
        _ => Some(order_of(variant_place(a), variant_place(b))),
    }
}

/// The opposite of an ordering.
pub open spec fn reversed(o: Ordering) -> Ordering {
    match o {
        Ordering::Less => Ordering::Greater,
        Ordering::Equal => Ordering::Equal,
        Ordering::Greater => Ordering::Less,
    }
}

/// Whether a number is a float holding a NaN.
pub open spec fn is_nan_number(n: Number) -> bool {
    n matches Number::Float(x) && is_nan_bits(x)
}

/// The order of numbers is antisymmetric (swapping the operands reverses the answer), puts
/// every `PositiveInt` below every other number and every `NegativeInt` below every float,
/// leaves two floats unordered exactly when one of them is a NaN, says `Equal` exactly of equal
/// numbers, and is transitive.
pub proof fn law_number_order(a: Number, b: Number, c: Number)
    ensures
        number_order(a, b) matches Some(o) ==> number_order(b, a) == Some(reversed(o)),
        number_order(a, b) is None ==> number_order(b, a) is None,
        a is PositiveInt && !(b is PositiveInt) ==> number_order(a, b) == Some(Ordering::Less),
        a is NegativeInt && b is Float ==> number_order(a, b) == Some(Ordering::Less),
        number_order(a, b) is None <==> (a is Float && b is Float && (is_nan_number(a)
            || is_nan_number(b))),
        number_order(a, b) == Some(Ordering::Equal) <==> number_eq(a, b),
        number_order(a, b) == Some(Ordering::Less) && number_order(b, c) == Some(Ordering::Less)
            ==> number_order(a, c) == Some(Ordering::Less),
        number_order(a, b) == Some(Ordering::Equal) && number_order(b, c) == Some(Ordering::Equal)
            ==> number_order(a, c) == Some(Ordering::Equal),
{
    match (a, b) {
        (Number::Float(x), Number::Float(y)) => {
            law_float_eq(x, y);
        },
        _ => {},
    }
}

/// Integers of one variant are ordered by the values they hold; two floats that are not NaNs
/// by their ranks, which order them as `f64` does (see `law_float_rank_order`).
pub proof fn law_number_order_values(x: u64, y: u64, i: i64, j: i64)
    ensures
        number_order(Number::PositiveInt(x), Number::PositiveInt(y)) == Some(Ordering::Less) <==> x
            < y,
        number_order(Number::NegativeInt(i), Number::NegativeInt(j)) == Some(Ordering::Less) <==> i
            < j,
        number_order(Number::Float(x), Number::Float(y)) == Some(Ordering::Less) <==> !is_nan_bits(x)
            && !is_nan_bits(y) && float_rank(x) < float_rank(y),
{
}

impl PartialOrd for Number {
    fn partial_cmp(&self, other: &Self) -> (r: Option<Ordering>) {
        match (self, other) {
            (Number::PositiveInt(x), Number::PositiveInt(y)) => if *x < *y {
                Some(Ordering::Less)
            } else if *x == *y {
                Some(Ordering::Equal)
            } else {
                Some(Ordering::Greater)
            },
            (Number::NegativeInt(x), Number::NegativeInt(y)) => if *x < *y {
                Some(Ordering::Less)
            } else if *x == *y {
                Some(Ordering::Equal)
            } else {
                Some(Ordering::Greater)
            },
            (Number::Float(x), Number::Float(y)) => if bits_is_nan(*x) || bits_is_nan(*y) {
                None
            } else {
                let a = bits_rank(*x);
                let b = bits_rank(*y);
                if a < b {
                    Some(Ordering::Less)
                } else if a == b {
                    Some(Ordering::Equal)
                } else {
                    Some(Ordering::Greater)
                }
            },
            (Number::PositiveInt(_), _) => Some(Ordering::Less),
            (Number::Float(_), _) => Some(Ordering::Greater),
            (Number::NegativeInt(_), Number::PositiveInt(_)) => Some(Ordering::Greater),
            (Number::NegativeInt(_), _) => Some(Ordering::Less),
        }
    }
}

impl PartialOrdSpecImpl for Number {
    open spec fn obeys_partial_cmp_spec() -> bool {
        true
    }

    open spec fn partial_cmp_spec(&self, other: &Number) -> Option<Ordering> {
        number_order(*self, *other)
    }
}

} // verus!
