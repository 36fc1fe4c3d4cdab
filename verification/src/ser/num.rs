//! How integers are written: in the format of their own width, or in the smallest format
//! that holds them.
use crate::bytes::{be_bytes, be_value, lemma_be_value_be_bytes, lemma_pow256_values, pow256, twos};
use crate::encode::integer::{i8_bytes, int_bytes, int_fits, twos64, uint_bytes, write_uint};
use crate::encode::{encode_result, push_marked, Encode, Error};
use crate::formats::{INT16, INT32, INT64, UINT16, UINT32, UINT64};
use vstd::prelude::*;

verus! {

/// The marker of the integer format of `width` bytes (2, 4 or 8).
pub open spec fn width_marker(width: nat, signed: bool) -> u8 {
    if signed {
        if width == 2 {
            INT16
        } else if width == 4 {
            INT32
        } else {
            INT64
        }
    } else {
        if width == 2 {
            UINT16
        } else if width == 4 {
            UINT32
        } else {
            UINT64
        }
    }
}

/// The encoding of `v`, a value of the integer type of `width` bytes, in that type's own
/// format: a one-byte integer takes a fixint when it fits one, a wider one always takes the
/// format of its width.
pub open spec fn exact_bytes(v: int, width: nat, signed: bool) -> Seq<u8> {
    if width == 1 {
        if signed {
            i8_bytes(v)
        } else {
            uint_bytes(v as nat)
        }
    } else {
        seq![width_marker(width, signed)] + be_bytes(twos(v, width), width)
    }
}

/// Whether a value `v` of a 128-bit integer type can be written: it fits the 64-bit type of
/// the same signedness.
pub open spec fn fits64(v: int, signed: bool) -> bool {
    if signed {
        i64::MIN <= v <= i64::MAX
    } else {
        0 <= v <= u64::MAX
    }
}

/// Decides how integers are encoded.
///
/// Each method appends the encoding of its argument, an integer of the type it names; the
/// type is described by its `width` in bytes (16 for the 128-bit types) and its signedness.
pub trait NumEncoder {
    /// The bytes written for `v`; for a value that cannot be written, none.
    spec fn int_encoded(v: int, width: nat, signed: bool) -> Seq<u8>;

    /// Whether `v` can be written at all.
    spec fn int_encodable(v: int, width: nat, signed: bool) -> bool;

    /// decide encode i8
    fn encode_i8(v: i8, buf: &mut Vec<u8>) -> (r: Result<usize, Error>)
        ensures
            final(buf)@ == old(buf)@ + Self::int_encoded(v as int, 1, true),
            r == encode_result(
                Self::int_encodable(v as int, 1, true),
                Self::int_encoded(v as int, 1, true),
                Error::InvalidFormat,
            ),
    ;

    /// decide encode i16
    fn encode_i16(v: i16, buf: &mut Vec<u8>) -> (r: Result<usize, Error>)
        ensures
            final(buf)@ == old(buf)@ + Self::int_encoded(v as int, 2, true),
            r == encode_result(
                Self::int_encodable(v as int, 2, true),
                Self::int_encoded(v as int, 2, true),
                Error::InvalidFormat,
            ),
    ;

    /// decide encode i32
    fn encode_i32(v: i32, buf: &mut Vec<u8>) -> (r: Result<usize, Error>)
        ensures
            final(buf)@ == old(buf)@ + Self::int_encoded(v as int, 4, true),
            r == encode_result(
                Self::int_encodable(v as int, 4, true),
                Self::int_encoded(v as int, 4, true),
                Error::InvalidFormat,
            ),
    ;

    /// decide encode i64
    fn encode_i64(v: i64, buf: &mut Vec<u8>) -> (r: Result<usize, Error>)
        ensures
            final(buf)@ == old(buf)@ + Self::int_encoded(v as int, 8, true),
            r == encode_result(
                Self::int_encodable(v as int, 8, true),
                Self::int_encoded(v as int, 8, true),
                Error::InvalidFormat,
            ),
    ;

    /// decide encode i128
    fn encode_i128(v: i128, buf: &mut Vec<u8>) -> (r: Result<usize, Error>)
        ensures
            final(buf)@ == old(buf)@ + Self::int_encoded(v as int, 16, true),
            r == encode_result(
                Self::int_encodable(v as int, 16, true),
                Self::int_encoded(v as int, 16, true),
                Error::InvalidFormat,
            ),
    ;

    /// decide encode u8
    fn encode_u8(v: u8, buf: &mut Vec<u8>) -> (r: Result<usize, Error>)
        ensures
            final(buf)@ == old(buf)@ + Self::int_encoded(v as int, 1, false),
            r == encode_result(
                Self::int_encodable(v as int, 1, false),
                Self::int_encoded(v as int, 1, false),
                Error::InvalidFormat,
            ),
    ;

    /// decide encode u16
    fn encode_u16(v: u16, buf: &mut Vec<u8>) -> (r: Result<usize, Error>)
        ensures
            final(buf)@ == old(buf)@ + Self::int_encoded(v as int, 2, false),
            r == encode_result(
                Self::int_encodable(v as int, 2, false),
                Self::int_encoded(v as int, 2, false),
                Error::InvalidFormat,
            ),
    ;

    /// decide encode u32
    fn encode_u32(v: u32, buf: &mut Vec<u8>) -> (r: Result<usize, Error>)
        ensures
            final(buf)@ == old(buf)@ + Self::int_encoded(v as int, 4, false),
            r == encode_result(
                Self::int_encodable(v as int, 4, false),
                Self::int_encoded(v as int, 4, false),
                Error::InvalidFormat,
            ),
    ;

    /// decide encode u64
    fn encode_u64(v: u64, buf: &mut Vec<u8>) -> (r: Result<usize, Error>)
        ensures
            final(buf)@ == old(buf)@ + Self::int_encoded(v as int, 8, false),
            r == encode_result(
                Self::int_encodable(v as int, 8, false),
                Self::int_encoded(v as int, 8, false),
                Error::InvalidFormat,
            ),
    ;

    /// decide encode u128
    fn encode_u128(v: u128, buf: &mut Vec<u8>) -> (r: Result<usize, Error>)
        ensures
            final(buf)@ == old(buf)@ + Self::int_encoded(v as int, 16, false),
            r == encode_result(
                Self::int_encodable(v as int, 16, false),
                Self::int_encoded(v as int, 16, false),
                Error::InvalidFormat,
            ),
    ;
}

/// Encode a given numeric value exactly using its native format.
///
/// `u8` is encoded to `positive fixint` or `uint 8`, `i8` to a fixint or `int 8`; wider
/// integers always take the format of their width, so `1_u16` is written `uint 16`. A
/// 128-bit integer is written as the 64-bit integer of its signedness, when it is one.
pub struct Exact;

impl NumEncoder for Exact {
    open spec fn int_encoded(v: int, width: nat, signed: bool) -> Seq<u8> {
        if width == 16 {
            if fits64(v, signed) {
                exact_bytes(v, 8, signed)
            } else {
                seq![]
            }
        } else {
            exact_bytes(v, width, signed)
        }
    }

    open spec fn int_encodable(v: int, width: nat, signed: bool) -> bool {
        width == 16 ==> fits64(v, signed)
    }

    fn encode_i8(v: i8, buf: &mut Vec<u8>) -> (r: Result<usize, Error>) {
        v.encode(buf)
    }

    fn encode_i16(v: i16, buf: &mut Vec<u8>) -> (r: Result<usize, Error>) {
        proof {
            lemma_pow256_values();
        }
        let u: u64 = if v >= 0 {
            v as u64
        } else {
            (v as i32 + 0x1_0000) as u64
        };
        Ok(push_marked(buf, INT16, u, 2))
    }

    fn encode_i32(v: i32, buf: &mut Vec<u8>) -> (r: Result<usize, Error>) {
        proof {
            lemma_pow256_values();
        }
        let u: u64 = if v >= 0 {
            v as u64
        } else {
            (v as i64 + 0x1_0000_0000) as u64
        };
        Ok(push_marked(buf, INT32, u, 4))
    }

    fn encode_i64(v: i64, buf: &mut Vec<u8>) -> (r: Result<usize, Error>) {
        proof {
            lemma_pow256_values();
        }
        let u: u64 = if v >= 0 {
            v as u64
        } else {
            twos64(v)
        };
        Ok(push_marked(buf, INT64, u, 8))
    }

    fn encode_i128(v: i128, buf: &mut Vec<u8>) -> (r: Result<usize, Error>) {
        if i64::MIN as i128 <= v && v <= i64::MAX as i128 {
            Self::encode_i64(v as i64, buf)
        } else {
            assert(buf@ =~= old(buf)@ + Self::int_encoded(v as int, 16, true));
            Err(Error::InvalidFormat)
        }
    }

    fn encode_u8(v: u8, buf: &mut Vec<u8>) -> (r: Result<usize, Error>) {
        Ok(write_uint(buf, v as u64))
    }

    fn encode_u16(v: u16, buf: &mut Vec<u8>) -> (r: Result<usize, Error>) {
        Ok(push_marked(buf, UINT16, v as u64, 2))
    }

    fn encode_u32(v: u32, buf: &mut Vec<u8>) -> (r: Result<usize, Error>) {
        Ok(push_marked(buf, UINT32, v as u64, 4))
    }

    fn encode_u64(v: u64, buf: &mut Vec<u8>) -> (r: Result<usize, Error>) {
        Ok(push_marked(buf, UINT64, v, 8))
    }

    fn encode_u128(v: u128, buf: &mut Vec<u8>) -> (r: Result<usize, Error>) {
        if v <= u64::MAX as u128 {
            Self::encode_u64(v as u64, buf)
        } else {
            assert(buf@ =~= old(buf)@ + Self::int_encoded(v as int, 16, false));
            Err(Error::InvalidFormat)
        }
    }
}

/// The smallest encoding of an integer: non-negative values in the uint formats, negative
/// ones in the int formats; an integer outside `[-2^63, 2^64)` has none.
pub open spec fn minimal_encoded(v: int) -> Seq<u8> {
    if int_fits(v) {
        int_bytes(v)
    } else {
        seq![]
    }
}

/// Appends the smallest encoding of an `i128`.
fn write_minimal(buf: &mut Vec<u8>, v: i128) -> (r: Result<usize, Error>)
    ensures
        final(buf)@ == old(buf)@ + minimal_encoded(v as int),
        r == encode_result(int_fits(v as int), minimal_encoded(v as int), Error::InvalidFormat),
{
    crate::encode::integer::EncodeMinimizeInt(v).encode(buf)
}

/// Appends the smallest encoding of a `u128`.
fn write_minimal_unsigned(buf: &mut Vec<u8>, v: u128) -> (r: Result<usize, Error>)
    ensures
        final(buf)@ == old(buf)@ + minimal_encoded(v as int),
        r == encode_result(int_fits(v as int), minimal_encoded(v as int), Error::InvalidFormat),
{
    if v <= u64::MAX as u128 {
        Ok(write_uint(buf, v as u64))
    } else {
        assert(buf@ =~= old(buf)@ + minimal_encoded(v as int));
        Err(Error::InvalidFormat)
    }
}

/// Encode a given numeric value in a lossless minimised format without changing its kind:
/// an integer stays an integer, a float a float.
///
/// An integer of any type is written in the smallest format that holds it exactly: `1_u16`
/// becomes a `positive fixint`. (How floats are narrowed is decided with their values.)
pub struct LosslessMinimize;

impl NumEncoder for LosslessMinimize {
    open spec fn int_encoded(v: int, width: nat, signed: bool) -> Seq<u8> {
        minimal_encoded(v)
    }

    open spec fn int_encodable(v: int, width: nat, signed: bool) -> bool {
        int_fits(v)
    }

    fn encode_i8(v: i8, buf: &mut Vec<u8>) -> (r: Result<usize, Error>) {
        write_minimal(buf, v as i128)
    }

    fn encode_i16(v: i16, buf: &mut Vec<u8>) -> (r: Result<usize, Error>) {
        write_minimal(buf, v as i128)
    }

    fn encode_i32(v: i32, buf: &mut Vec<u8>) -> (r: Result<usize, Error>) {
        write_minimal(buf, v as i128)
    }

    fn encode_i64(v: i64, buf: &mut Vec<u8>) -> (r: Result<usize, Error>) {
        write_minimal(buf, v as i128)
    }

    fn encode_i128(v: i128, buf: &mut Vec<u8>) -> (r: Result<usize, Error>) {
        write_minimal(buf, v)
    }

    fn encode_u8(v: u8, buf: &mut Vec<u8>) -> (r: Result<usize, Error>) {
        write_minimal_unsigned(buf, v as u128)
    }

    fn encode_u16(v: u16, buf: &mut Vec<u8>) -> (r: Result<usize, Error>) {
        write_minimal_unsigned(buf, v as u128)
    }

    fn encode_u32(v: u32, buf: &mut Vec<u8>) -> (r: Result<usize, Error>) {
        write_minimal_unsigned(buf, v as u128)
    }

    fn encode_u64(v: u64, buf: &mut Vec<u8>) -> (r: Result<usize, Error>) {
        write_minimal_unsigned(buf, v as u128)
    }

    fn encode_u128(v: u128, buf: &mut Vec<u8>) -> (r: Result<usize, Error>) {
        write_minimal_unsigned(buf, v)
    }
}

/// Encode a given numeric value by aggressively minimising its format.
///
/// Integers are written as [`LosslessMinimize`] writes them; a float that is finite and has
/// no fractional part is first tried as an integer.
pub struct AggressiveMinimize;

impl NumEncoder for AggressiveMinimize {
    open spec fn int_encoded(v: int, width: nat, signed: bool) -> Seq<u8> {
        minimal_encoded(v)
    }

    open spec fn int_encodable(v: int, width: nat, signed: bool) -> bool {
        int_fits(v)
    }

    fn encode_i8(v: i8, buf: &mut Vec<u8>) -> (r: Result<usize, Error>) {
        LosslessMinimize::encode_i8(v, buf)
    }

    fn encode_i16(v: i16, buf: &mut Vec<u8>) -> (r: Result<usize, Error>) {
        LosslessMinimize::encode_i16(v, buf)
    }

    fn encode_i32(v: i32, buf: &mut Vec<u8>) -> (r: Result<usize, Error>) {
        LosslessMinimize::encode_i32(v, buf)
    }

    fn encode_i64(v: i64, buf: &mut Vec<u8>) -> (r: Result<usize, Error>) {
        LosslessMinimize::encode_i64(v, buf)
    }

    fn encode_i128(v: i128, buf: &mut Vec<u8>) -> (r: Result<usize, Error>) {
        LosslessMinimize::encode_i128(v, buf)
    }

    fn encode_u8(v: u8, buf: &mut Vec<u8>) -> (r: Result<usize, Error>) {
        LosslessMinimize::encode_u8(v, buf)
    }

    fn encode_u16(v: u16, buf: &mut Vec<u8>) -> (r: Result<usize, Error>) {
        LosslessMinimize::encode_u16(v, buf)
    }

    fn encode_u32(v: u32, buf: &mut Vec<u8>) -> (r: Result<usize, Error>) {
        LosslessMinimize::encode_u32(v, buf)
    }

    fn encode_u64(v: u64, buf: &mut Vec<u8>) -> (r: Result<usize, Error>) {
        LosslessMinimize::encode_u64(v, buf)
    }

    fn encode_u128(v: u128, buf: &mut Vec<u8>) -> (r: Result<usize, Error>) {
        LosslessMinimize::encode_u128(v, buf)
    }
}

/// Whether `v` is a value of the integer type of `width` bytes and the given signedness.
pub open spec fn in_type(v: int, width: nat, signed: bool) -> bool {
    if signed {
        -pow256(width) <= 2 * v < pow256(width)
    } else {
        0 <= v < pow256(width)
    }
}

/// [`Exact`] writes a one-byte integer as the smallest encoding; a wider one in the format of
/// its own width and signedness (`uint 16` to `uint 64`, `int 16` to `int 64`), its payload
/// the value, in two's complement when negative, most significant byte first; a 128-bit one as
/// the 64-bit type of its signedness, or not at all when it does not fit that type.
pub proof fn law_exact_format(v: int, width: nat, signed: bool)
    requires
        width == 1 || width == 2 || width == 4 || width == 8,
        in_type(v, width, signed),
    ensures
        width == 1 ==> Exact::int_encoded(v, width, signed) == int_bytes(v),
        width > 1 ==> ({
            let b = Exact::int_encoded(v, width, signed);
            &&& b.len() == 1 + width
            &&& b[0] == (if signed {
                if width == 2 {
                    INT16
                } else if width == 4 {
                    INT32
                } else {
                    INT64
                }
            } else {
                if width == 2 {
                    UINT16
                } else if width == 4 {
                    UINT32
                } else {
                    UINT64
                }
            })
            &&& be_value(b.drop_first()) == (if v >= 0 {
                v
            } else {
                v + pow256(width)
            })
        }),
        Exact::int_encoded(v, 16, signed) == Exact::int_encoded(v, 8, signed) <== in_type(v, 8, signed),
        !in_type(v, 8, signed) ==> Exact::int_encoded(v, 16, signed) == Seq::<u8>::empty()
            && !Exact::int_encodable(v, 16, signed),
{
    lemma_pow256_values();
    if width == 1 {
        crate::encode::integer::law_signed_type_formats(v);
    } else {
        let u = twos(v, width);
        lemma_be_value_be_bytes(u, width);
        assert(Exact::int_encoded(v, width, signed).drop_first() =~= be_bytes(u, width));
    }
}

/// The minimizing encoders write every integer that some int format holds as its smallest
/// encoding (see `law_int_bytes_format`), whatever its type, and refuse every other.
pub proof fn law_minimizers_smallest(v: int, width: nat, signed: bool)
    ensures
        int_fits(v) ==> LosslessMinimize::int_encoded(v, width, signed) == int_bytes(v)
            && AggressiveMinimize::int_encoded(v, width, signed) == int_bytes(v)
            && LosslessMinimize::int_encodable(v, width, signed)
            && AggressiveMinimize::int_encodable(v, width, signed),
        !int_fits(v) ==> !LosslessMinimize::int_encodable(v, width, signed)
            && !AggressiveMinimize::int_encodable(v, width, signed),
{
}

} // verus!
