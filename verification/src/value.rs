//! Untyped MessagePack values: a number, a string, a byte string, an extension, or an array
//! or map of values. A float is held by the bit pattern of its `f64`.
use vstd::prelude::*;
use vstd::std_specs::cmp::PartialEqSpecImpl;
use vstd::std_specs::convert::FromSpecImpl;

pub mod order;

verus! {

/// Represents any number, it could be int or float.
#[derive(Debug, Clone, Copy)]
pub enum Number {
    /// Always positive
    PositiveInt(u64),
    /// Always negative
    NegativeInt(i64),
    /// Represents `float 32` and `float 64`, by the bit pattern of the `f64`
    Float(u64),
}

/// Whether the bit pattern of an `f64` is a NaN: all exponent bits set, a non-zero fraction.
pub open spec fn is_nan_bits(b: u64) -> bool {
    &&& b & 0x7ff0_0000_0000_0000 == 0x7ff0_0000_0000_0000
    &&& b & 0x000f_ffff_ffff_ffff != 0
}

/// Where an `f64` that is not a NaN, given by its bit pattern, stands among the others: its
/// magnitude bits, negated when the sign bit is set. Both zeros stand at 0, and the order of
/// these ranks is the order of the floats.
pub open spec fn float_rank(b: u64) -> int {
    if b & 0x8000_0000_0000_0000 == 0 {
        (b & 0x7fff_ffff_ffff_ffff) as int
    } else {
        -((b & 0x7fff_ffff_ffff_ffff) as int)
    }
}

/// `f64` equality on bit patterns: no NaN equals anything, the two zeros are equal, and other
/// floats are equal when their bits are.
pub open spec fn float_bits_eq(a: u64, b: u64) -> bool {
    !is_nan_bits(a) && !is_nan_bits(b) && float_rank(a) == float_rank(b)
}

/// Whether the bit pattern of an `f64` is a NaN.
pub fn bits_is_nan(b: u64) -> (r: bool)
    ensures
        r == is_nan_bits(b),
{
    b & 0x7ff0_0000_0000_0000 == 0x7ff0_0000_0000_0000 && b & 0x000f_ffff_ffff_ffff != 0
}

/// The rank of the bit pattern of an `f64`, as in [`float_rank`].
pub fn bits_rank(b: u64) -> (r: i64)
    ensures
        r == float_rank(b),
{
    let mag = b & 0x7fff_ffff_ffff_ffff;
    assert(mag <= 0x7fff_ffff_ffff_ffff) by (bit_vector)
        requires
            mag == b & 0x7fff_ffff_ffff_ffff,
    ;
    if b & 0x8000_0000_0000_0000 == 0 {
        mag as i64
    } else {
        -(mag as i64)
    }
}

/// A bit pattern with the sign bit clear is its own magnitude; with it set, the magnitude is
/// what remains once the sign bit is taken away.
proof fn lemma_sign_magnitude(b: u64)
    ensures
        (b & 0x8000_0000_0000_0000 == 0) == (b < 0x8000_0000_0000_0000),
        b < 0x8000_0000_0000_0000 ==> b & 0x7fff_ffff_ffff_ffff == b,
        b >= 0x8000_0000_0000_0000 ==> b & 0x7fff_ffff_ffff_ffff == b - 0x8000_0000_0000_0000,
{
    assert((b & 0x8000_0000_0000_0000 == 0) == (b < 0x8000_0000_0000_0000)) by (bit_vector);
    assert(b < 0x8000_0000_0000_0000 ==> b & 0x7fff_ffff_ffff_ffff == b) by (bit_vector);
    assert(b >= 0x8000_0000_0000_0000 ==> b & 0x7fff_ffff_ffff_ffff == b - 0x8000_0000_0000_0000)
        by (bit_vector);
}

/// The NaNs are the bit patterns from `0x7ff0_0000_0000_0001` to `0x7fff_ffff_ffff_ffff`, and
/// the same with the sign bit set.
pub proof fn law_nan_bits(b: u64)
    ensures
        is_nan_bits(b) <==> (0x7ff0_0000_0000_0001 <= b <= 0x7fff_ffff_ffff_ffff || 0xfff0_0000_0000_0001
            <= b),
{
    assert(is_nan_bits(b) <==> (0x7ff0_0000_0000_0001 <= b <= 0x7fff_ffff_ffff_ffff
        || 0xfff0_0000_0000_0001 <= b)) by (bit_vector);
}

/// The rank orders floats as `f64` does: those with the sign bit clear by their bits, those
/// with it set by their bits reversed, every negative below every positive, and the two zeros
/// level.
pub proof fn law_float_rank_order(a: u64, b: u64)
    ensures
        a < 0x8000_0000_0000_0000 && b < 0x8000_0000_0000_0000 ==> (float_rank(a) < float_rank(b)
            <==> a < b),
        a >= 0x8000_0000_0000_0000 && b >= 0x8000_0000_0000_0000 ==> (float_rank(a) < float_rank(
            b,
        ) <==> a > b),
        a >= 0x8000_0000_0000_0000 && b < 0x8000_0000_0000_0000 ==> float_rank(a) <= float_rank(b)
            && (float_rank(a) == float_rank(b) <==> a == 0x8000_0000_0000_0000 && b == 0),
{
    lemma_sign_magnitude(a);
    lemma_sign_magnitude(b);
}

/// Floats compare equal as `f64` does: never when either is a NaN, and otherwise exactly when
/// their bits are equal or both are zeros.
pub proof fn law_float_eq(a: u64, b: u64)
    ensures
        float_bits_eq(a, b) <==> !is_nan_bits(a) && !is_nan_bits(b) && (a == b || ((a == 0 || a
            == 0x8000_0000_0000_0000) && (b == 0 || b == 0x8000_0000_0000_0000))),
{
    lemma_sign_magnitude(a);
    lemma_sign_magnitude(b);
}

/// Equality of numbers is symmetric, holds of every number but a NaN float, never holds
/// across variants, and on floats is `f64` equality.
pub proof fn law_number_eq(a: Number, b: Number)
    ensures
        number_eq(a, b) == number_eq(b, a),
        number_eq(a, a) <==> !(a matches Number::Float(x) && is_nan_bits(x)),
        (a is PositiveInt && !(b is PositiveInt)) || (a is NegativeInt && !(b is NegativeInt)) || (
        a is Float && !(b is Float)) ==> !number_eq(a, b),
{
    match (a, b) {
        (Number::Float(x), Number::Float(y)) => {
            law_float_eq(x, y);
            law_float_eq(y, x);
        },
        _ => {},
    }
    if let Number::Float(x) = a {
        law_float_eq(x, x);
    }
}

/// Two floats are equal numbers exactly when they are equal as `f64`: neither is a NaN, and
/// their bits are equal or both are zeros.
pub proof fn law_float_number_eq(x: u64, y: u64)
    ensures
        number_eq(Number::Float(x), Number::Float(y)) <==> !is_nan_bits(x) && !is_nan_bits(y) && (x
            == y || ((x == 0 || x == 0x8000_0000_0000_0000) && (y == 0 || y
            == 0x8000_0000_0000_0000))),
{
    law_float_eq(x, y);
}

/// Where a number stands among those of its variant: the integer held, or the rank of the
/// float.
pub open spec fn rank_in_variant(n: Number) -> int {
    match n {
        Number::PositiveInt(x) => x as int,
        Number::NegativeInt(x) => x as int,
        Number::Float(b) => float_rank(b),
    }
}

/// Equality of numbers: the same variant holding equal values, floats compared as `f64`.
pub open spec fn number_eq(a: Number, b: Number) -> bool {
    match (a, b) {
        (Number::PositiveInt(x), Number::PositiveInt(y)) => x == y,
        (Number::NegativeInt(x), Number::NegativeInt(y)) => x == y,
        (Number::Float(x), Number::Float(y)) => float_bits_eq(x, y),
        _ => false,
    }
}

impl PartialEq for Number {
    fn eq(&self, other: &Self) -> (r: bool) {
        match (self, other) {
            (Number::PositiveInt(x), Number::PositiveInt(y)) => *x == *y,
            (Number::NegativeInt(x), Number::NegativeInt(y)) => *x == *y,
            (Number::Float(x), Number::Float(y)) => !bits_is_nan(*x) && !bits_is_nan(*y)
                && bits_rank(*x) == bits_rank(*y),
            _ => false,
        }
    }
}

impl PartialEqSpecImpl for Number {
    open spec fn obeys_eq_spec() -> bool {
        true
    }

    open spec fn eq_spec(&self, other: &Number) -> bool {
        number_eq(*self, *other)
    }
}

/// The number an integer is: non-negative integers are `PositiveInt`, negative ones
/// `NegativeInt`.
pub open spec fn number_of_int(v: int) -> Number {
    if v >= 0 {
        Number::PositiveInt(v as u64)
    } else {
        Number::NegativeInt(v as i64)
    }
}

impl Number {
    /// The number a `usize` is, when it fits `u64`.
    pub fn from_usize(v: usize) -> (r: Option<Number>)
        ensures
            r is Some <==> v <= u64::MAX,
            r matches Some(n) ==> n == Number::PositiveInt(v as u64),
    {
        if v as u128 <= u64::MAX as u128 {
            Some(Number::PositiveInt(v as u64))
        } else {
            None
        }
    }

    /// The number an `isize` is: `PositiveInt` when non-negative, else `NegativeInt`.
    pub fn from_isize(v: isize) -> (r: Number)
        ensures
            r == number_of_int(v as int),
    {
        if v >= 0 {
            Number::PositiveInt(v as u64)
        } else {
            Number::NegativeInt(v as i64)
        }
    }

    /// If the `Number` is an integer that fits `u64`, returns it.
    pub fn as_unsigned_int(&self) -> (r: Option<u64>)
        ensures
            r == match *self {
                Number::PositiveInt(v) => Some(v),
                Number::NegativeInt(v) => if v >= 0 {
                    Some(v as u64)
                } else {
                    None::<u64>
                },
                Number::Float(_) => None,
            },
    {
        match self {
            Number::PositiveInt(v) => Some(*v),
            Number::NegativeInt(v) => if *v >= 0 {
                Some(*v as u64)
            } else {
                None
            },
            Number::Float(_) => None,
        }
    }

    /// If the `Number` is an integer that fits `i64`, returns it.
    pub fn as_signed_int(&self) -> (r: Option<i64>)
        ensures
            r == match *self {
                Number::PositiveInt(v) => if v <= i64::MAX {
                    Some(v as i64)
                } else {
                    None::<i64>
                },
                Number::NegativeInt(v) => Some(v),
                Number::Float(_) => None,
            },
    {
        match self {
            Number::PositiveInt(v) => if *v <= i64::MAX as u64 {
                Some(*v as i64)
            } else {
                None
            },
            Number::NegativeInt(v) => Some(*v),
            Number::Float(_) => None,
        }
    }

    /// If the `Number` is a float, returns the bit pattern of its `f64`.
    pub fn as_float_bits(&self) -> (r: Option<u64>)
        ensures
            r == match *self {
                Number::Float(b) => Some(b),
                _ => None::<u64>,
            },
    {
        match self {
            Number::Float(b) => Some(*b),
            _ => None,
        }
    }
}

impl From<u64> for Number {
    fn from(value: u64) -> (r: Self) {
        Number::PositiveInt(value)
    }
}

impl FromSpecImpl<u64> for Number {
    open spec fn obeys_from_spec() -> bool {
        true
    }

    open spec fn from_spec(v: u64) -> Number {
        number_of_int(v as int)
    }
}

impl From<i64> for Number {
    fn from(value: i64) -> (r: Self) {
        if value >= 0 {
            Number::PositiveInt(value as u64)
        } else {
            Number::NegativeInt(value)
        }
    }
}

impl FromSpecImpl<i64> for Number {
    open spec fn obeys_from_spec() -> bool {
        true
    }

    open spec fn from_spec(v: i64) -> Number {
        number_of_int(v as int)
    }
}

impl From<u8> for Number {
    fn from(value: u8) -> (r: Self) {
        Number::PositiveInt(value as u64)
    }
}

impl FromSpecImpl<u8> for Number {
    open spec fn obeys_from_spec() -> bool {
        true
    }

    open spec fn from_spec(v: u8) -> Number {
        number_of_int(v as int)
    }
}

impl From<u16> for Number {
    fn from(value: u16) -> (r: Self) {
        Number::PositiveInt(value as u64)
    }
}

impl FromSpecImpl<u16> for Number {
    open spec fn obeys_from_spec() -> bool {
        true
    }

    open spec fn from_spec(v: u16) -> Number {
        number_of_int(v as int)
    }
}

impl From<u32> for Number {
    fn from(value: u32) -> (r: Self) {
        Number::PositiveInt(value as u64)
    }
}

impl FromSpecImpl<u32> for Number {
    open spec fn obeys_from_spec() -> bool {
        true
    }

    open spec fn from_spec(v: u32) -> Number {
        number_of_int(v as int)
    }
}

impl From<i8> for Number {
    fn from(value: i8) -> (r: Self) {
        Number::from(value as i64)
    }
}

impl FromSpecImpl<i8> for Number {
    open spec fn obeys_from_spec() -> bool {
        true
    }

    open spec fn from_spec(v: i8) -> Number {
        number_of_int(v as int)
    }
}

impl From<i16> for Number {
    fn from(value: i16) -> (r: Self) {
        Number::from(value as i64)
    }
}

impl FromSpecImpl<i16> for Number {
    open spec fn obeys_from_spec() -> bool {
        true
    }

    open spec fn from_spec(v: i16) -> Number {
        number_of_int(v as int)
    }
}

impl From<i32> for Number {
    fn from(value: i32) -> (r: Self) {
        Number::from(value as i64)
    }
}

impl FromSpecImpl<i32> for Number {
    open spec fn obeys_from_spec() -> bool {
        true
    }

    open spec fn from_spec(v: i32) -> Number {
        number_of_int(v as int)
    }
}

/// Owned representation of any MessagePack value.
#[derive(Debug, PartialEq)]
pub enum Value {
    /// Represents nil format.
    Nil,
    /// Represents bool format family.
    Bool(bool),
    /// Represents `bin 8`, `bin 16` and `bin 32`.
    Bin(Vec<u8>),
    /// Represents ext format family as owned bytes.
    Extension {
        /// Application-defined extension type code.
        kind: i8,
        /// Owned payload bytes.
        data: Vec<u8>,
    },
    /// Represents int format family and float format family.
    Number(Number),
    /// Represents str format family.
    String(String),
    /// Represents array format family.
    Array(Vec<Value>),
    /// Represents map format family.
    Mapping(Vec<(Value, Value)>),
}

impl Value {
    /// Returns true if the `Value` is nil.
    pub fn is_nil(&self) -> (r: bool)
        ensures
            r == (*self is Nil),
    {
        match self {
            Value::Nil => true,
            _ => false,
        }
    }

    /// If the `Value` is boolean, returns contained value.
    pub fn as_bool(&self) -> (r: Option<bool>)
        ensures
            r == match *self {
                Value::Bool(b) => Some(b),
                _ => None::<bool>,
            },
    {
        match self {
            Value::Bool(v) => Some(*v),
            _ => None,
        }
    }

    /// If the `Value` is bin, returns contained slice.
    pub fn as_bin(&self) -> (r: Option<&[u8]>)
        ensures
            match *self {
                Value::Bin(b) => r matches Some(s) && s@ == b@,
                _ => r is None,
            },
    {
        match self {
            Value::Bin(v) => Some(v.as_slice()),
            _ => None,
        }
    }

    /// If the `Value` is ext, returns `(type, data)` as tuple.
    pub fn as_extension(&self) -> (r: Option<(i8, &[u8])>)
        ensures
            match *self {
                Value::Extension { kind, data } => r matches Some((k, d)) && k == kind && d@
                    == data@,
                _ => r is None,
            },
    {
        match self {
            Value::Extension { kind, data } => Some((*kind, data.as_slice())),
            _ => None,
        }
    }

    /// If the `Value` is number, returns contained value.
    pub fn as_number(&self) -> (r: Option<Number>)
        ensures
            r == match *self {
                Value::Number(n) => Some(n),
                _ => None::<Number>,
            },
    {
        match self {
            Value::Number(v) => Some(*v),
            _ => None,
        }
    }

    /// If the `Value` is str, returns contained slice.
    pub fn as_string(&self) -> (r: Option<&str>)
        ensures
            match *self {
                Value::String(s) => r matches Some(x) && x@ == s@,
                _ => r is None,
            },
    {
        match self {
            Value::String(v) => Some(v.as_str()),
            _ => None,
        }
    }

    /// If the `Value` is array, returns contained slice.
    pub fn as_array(&self) -> (r: Option<&[Value]>)
        ensures
            match *self {
                Value::Array(vs) => r matches Some(s) && s@ == vs@,
                _ => r is None,
            },
    {
        match self {
            Value::Array(v) => Some(v.as_slice()),
            _ => None,
        }
    }

    /// If the `Value` is map, returns contained slice of pairs.
    pub fn as_map(&self) -> (r: Option<&[(Value, Value)]>)
        ensures
            match *self {
                Value::Mapping(ps) => r matches Some(s) && s@ == ps@,
                _ => r is None,
            },
    {
        match self {
            Value::Mapping(v) => Some(v.as_slice()),
            _ => None,
        }
    }
}

/// Represents any MessagePack value, borrowing strings, byte strings and extension data.
#[derive(Debug, PartialEq)]
pub enum ValueRef<'a> {
    /// Represents nil format
    Nil,
    /// Represents bool format family
    Bool(bool),
    /// Represents `bin 8`, `bin 16` and `bin 32`
    Bin(&'a [u8]),
    /// Represents ext format family: its type and data
    Extension(i8, &'a [u8]),
    /// Represents int format family and float format family
    Number(Number),
    /// Represents str format family
    String(&'a str),
    /// Represents array format family
    Array(Vec<ValueRef<'a>>),
    /// Represents map format family
    Mapping(Vec<(ValueRef<'a>, ValueRef<'a>)>),
}

impl<'a> ValueRef<'a> {
    /// Returns true if the `ValueRef` is nil
    pub fn is_nil(&self) -> (r: bool)
        ensures
            r == (*self is Nil),
    {
        match self {
            ValueRef::Nil => true,
            _ => false,
        }
    }

    /// If the `ValueRef` is boolean, returns contained value.
    pub fn as_bool(&self) -> (r: Option<bool>)
        ensures
            r == match *self {
                ValueRef::Bool(b) => Some(b),
                _ => None::<bool>,
            },
    {
        match self {
            ValueRef::Bool(v) => Some(*v),
            _ => None,
        }
    }

    /// If the `ValueRef` is bin, returns contained slice.
    pub fn as_bin(&self) -> (r: Option<&'a [u8]>)
        ensures
            match *self {
                ValueRef::Bin(b) => r == Some(b),
                _ => r is None,
            },
    {
        match self {
            ValueRef::Bin(v) => Some(*v),
            _ => None,
        }
    }

    /// If the `ValueRef` is ext, returns `(type, data)` as tuple.
    pub fn as_extension(&self) -> (r: Option<(i8, &'a [u8])>)
        ensures
            match *self {
                ValueRef::Extension(k, d) => r == Some((k, d)),
                _ => r is None,
            },
    {
        match self {
            ValueRef::Extension(k, d) => Some((*k, *d)),
            _ => None,
        }
    }

    /// If the `ValueRef` is number, returns contained value.
    pub fn as_number(&self) -> (r: Option<Number>)
        ensures
            r == match *self {
                ValueRef::Number(n) => Some(n),
                _ => None::<Number>,
            },
    {
        match self {
            ValueRef::Number(v) => Some(*v),
            _ => None,
        }
    }

    /// If the `ValueRef` is str, returns contained slice.
    pub fn as_string(&self) -> (r: Option<&'a str>)
        ensures
            match *self {
                ValueRef::String(s) => r == Some(s),
                _ => r is None,
            },
    {
        match self {
            ValueRef::String(v) => Some(*v),
            _ => None,
        }
    }

    /// If the `ValueRef` is array, returns contained slice.
    pub fn as_array(&self) -> (r: Option<&[ValueRef<'a>]>)
        ensures
            match *self {
                ValueRef::Array(vs) => r matches Some(s) && s@ == vs@,
                _ => r is None,
            },
    {
        match self {
            ValueRef::Array(v) => Some(v.as_slice()),
            _ => None,
        }
    }

    /// If the `ValueRef` is map, returns contained slice of pairs.
    pub fn as_map(&self) -> (r: Option<&[(ValueRef<'a>, ValueRef<'a>)]>)
        ensures
            match *self {
                ValueRef::Mapping(ps) => r matches Some(s) && s@ == ps@,
                _ => r is None,
            },
    {
        match self {
            ValueRef::Mapping(v) => Some(v.as_slice()),
            _ => None,
        }
    }
}

} // verus!
