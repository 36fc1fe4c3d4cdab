//! Integers: the int format family.
use super::{push_marked, Encode, Error};
use crate::bytes::{be_bytes, be_value, twos, lemma_pow256_values, lemma_be_bytes_len, lemma_be_value_be_bytes};
use crate::formats::{UINT8, UINT16, UINT32, UINT64, INT8, INT16, INT32, INT64};
use vstd::prelude::*;

verus! {

/// The smallest encoding of a non-negative integer below `2^64`.
pub open spec fn uint_bytes(v: nat) -> Seq<u8> {
    if v <= 0x7f {
        seq![v as u8]
    } else if v <= 0xff {
        seq![UINT8, v as u8]
    } else if v <= 0xffff {
        seq![UINT16] + be_bytes(v, 2)
    } else if v <= 0xffff_ffff {
        seq![UINT32] + be_bytes(v, 4)
    } else {
        seq![UINT64] + be_bytes(v, 8)
    }
}

/// The smallest encoding of an integer in `[-2^63, 2^64)`: non-negative values take the
/// uint formats, negative values the int formats.
pub open spec fn int_bytes(v: int) -> Seq<u8> {
    if v >= 0 {
        uint_bytes(v as nat)
    } else if v >= -32 {
        seq![(v + 256) as u8]
    } else if v >= -0x80 {
        seq![INT8, (v + 256) as u8]
    } else if v >= -0x8000 {
        seq![INT16] + be_bytes(twos(v, 2), 2)
    } else if v >= -0x8000_0000 {
        seq![INT32] + be_bytes(twos(v, 4), 4)
    } else {
        seq![INT64] + be_bytes(twos(v, 8), 8)
    }
}

/// An integer that some int format can hold.
pub open spec fn int_fits(v: int) -> bool {
    -0x8000_0000_0000_0000 <= v <= 0xffff_ffff_ffff_ffff
}

/// How an `i8` is encoded: through `u8` when it is one, as a negative fixint when it is
/// one, else as `int 8`.
pub open spec fn i8_bytes(v: int) -> Seq<u8> {
    if v >= 0 {
        uint_bytes(v as nat)
    } else if v >= -32 {
        seq![(v + 256) as u8]
    } else {
        seq![INT8, (v + 256) as u8]
    }
}

/// How an `i16` is encoded: through `u8` or `i8` when it is one, else as `int 16`.
pub open spec fn i16_bytes(v: int) -> Seq<u8> {
    if 0 <= v <= 0xff {
        uint_bytes(v as nat)
    } else if -0x80 <= v <= 0x7f {
        i8_bytes(v)
    } else {
        seq![INT16] + be_bytes(twos(v, 2), 2)
    }
}

/// How an `i32` is encoded: through `u16` or `i16` when it is one, else as `int 32`.
pub open spec fn i32_bytes(v: int) -> Seq<u8> {
    if 0 <= v <= 0xffff {
        uint_bytes(v as nat)
    } else if -0x8000 <= v <= 0x7fff {
        i16_bytes(v)
    } else {
        seq![INT32] + be_bytes(twos(v, 4), 4)
    }
}

/// How an `i64` is encoded: through `u32` or `i32` when it is one, else as `int 64`.
pub open spec fn i64_bytes(v: int) -> Seq<u8> {
    if 0 <= v <= 0xffff_ffff {
        uint_bytes(v as nat)
    } else if -0x8000_0000 <= v <= 0x7fff_ffff {
        i32_bytes(v)
    } else {
        seq![INT64] + be_bytes(twos(v, 8), 8)
    }
}

/// Two's complement of a negative `i64` in eight bytes.
pub fn twos64(v: i64) -> (r: u64)
    requires
        v < 0,
    ensures
        r == twos(v as int, 8),
{
    proof {
        lemma_pow256_values();
    }
    let low: i64 = v + 1 + i64::MAX;
    (low as u64) + 0x8000_0000_0000_0000u64
}

/// Appends the smallest encoding of `v`.
pub fn write_uint(buf: &mut Vec<u8>, v: u64) -> (r: usize)
    ensures
        final(buf)@ == old(buf)@ + uint_bytes(v as nat),
        r == uint_bytes(v as nat).len(),
{
    proof {
        lemma_be_bytes_len(v as nat, 2);
        lemma_be_bytes_len(v as nat, 4);
        lemma_be_bytes_len(v as nat, 8);
    }
    if v <= 0x7f {
        buf.push(v as u8);
        assert(buf@ =~= old(buf)@ + uint_bytes(v as nat));
        1
    } else if v <= 0xff {
        buf.push(UINT8);
        buf.push(v as u8);
        assert(buf@ =~= old(buf)@ + uint_bytes(v as nat));
        2
    } else if v <= 0xffff {
        push_marked(buf, UINT16, v, 2)
    } else if v <= 0xffff_ffff {
        push_marked(buf, UINT32, v, 4)
    } else {
        push_marked(buf, UINT64, v, 8)
    }
}

/// Appends the smallest encoding of a negative `v`.
fn write_negative(buf: &mut Vec<u8>, v: i64) -> (r: usize)
    requires
        v < 0,
    ensures
        final(buf)@ == old(buf)@ + int_bytes(v as int),
        r == int_bytes(v as int).len(),
{
    proof {
        lemma_pow256_values();
        lemma_be_bytes_len(twos(v as int, 2), 2);
        lemma_be_bytes_len(twos(v as int, 4), 4);
        lemma_be_bytes_len(twos(v as int, 8), 8);
    }
    if v >= -32 {
        buf.push((v + 256) as u8);
        assert(buf@ =~= old(buf)@ + int_bytes(v as int));
        1
    } else if v >= -0x80 {
        buf.push(INT8);
        buf.push((v + 256) as u8);
        assert(buf@ =~= old(buf)@ + int_bytes(v as int));
        2
    } else if v >= -0x8000 {
        push_marked(buf, INT16, (v + 0x1_0000) as u64, 2)
    } else if v >= -0x8000_0000 {
        push_marked(buf, INT32, (v + 0x1_0000_0000) as u64, 4)
    } else {
        push_marked(buf, INT64, twos64(v), 8)
    }
}

/// Appends the smallest encoding of `v`.
pub fn write_int(buf: &mut Vec<u8>, v: i64) -> (r: usize)
    ensures
        final(buf)@ == old(buf)@ + int_bytes(v as int),
        r == int_bytes(v as int).len(),
{
    if v >= 0 {
        write_uint(buf, v as u64)
    } else {
        write_negative(buf, v)
    }
}

impl Encode for u8 {
    open spec fn encoded(&self) -> Seq<u8> {
        uint_bytes(*self as nat)
    }

    open spec fn encodable(&self) -> bool {
        true
    }

    open spec fn failure(&self) -> Error {
        Error::InvalidFormat
    }

    fn encode(&self, buf: &mut Vec<u8>) -> (r: Result<usize, Error>) {
        Ok(write_uint(buf, *self as u64))
    }
}

impl Encode for u16 {
    open spec fn encoded(&self) -> Seq<u8> {
        uint_bytes(*self as nat)
    }

    open spec fn encodable(&self) -> bool {
        true
    }

    open spec fn failure(&self) -> Error {
        Error::InvalidFormat
    }

    fn encode(&self, buf: &mut Vec<u8>) -> (r: Result<usize, Error>) {
        Ok(write_uint(buf, *self as u64))
    }
}

impl Encode for u32 {
    open spec fn encoded(&self) -> Seq<u8> {
        uint_bytes(*self as nat)
    }

    open spec fn encodable(&self) -> bool {
        true
    }

    open spec fn failure(&self) -> Error {
        Error::InvalidFormat
    }

    fn encode(&self, buf: &mut Vec<u8>) -> (r: Result<usize, Error>) {
        Ok(write_uint(buf, *self as u64))
    }
}

impl Encode for u64 {
    open spec fn encoded(&self) -> Seq<u8> {
        uint_bytes(*self as nat)
    }

    open spec fn encodable(&self) -> bool {
        true
    }

    open spec fn failure(&self) -> Error {
        Error::InvalidFormat
    }

    fn encode(&self, buf: &mut Vec<u8>) -> (r: Result<usize, Error>) {
        Ok(write_uint(buf, *self))
    }
}

impl Encode for u128 {
    open spec fn encoded(&self) -> Seq<u8> {
        if *self <= u64::MAX {
            uint_bytes(*self as nat)
        } else {
            seq![]
        }
    }

    open spec fn encodable(&self) -> bool {
        *self <= u64::MAX
    }

    open spec fn failure(&self) -> Error {
        Error::InvalidFormat
    }

    fn encode(&self, buf: &mut Vec<u8>) -> (r: Result<usize, Error>) {
        if *self <= u64::MAX as u128 {
            Ok(write_uint(buf, *self as u64))
        } else {
            assert(buf@ =~= old(buf)@ + self.encoded());
            Err(Error::InvalidFormat)
        }
    }
}

impl Encode for i8 {
    open spec fn encoded(&self) -> Seq<u8> {
        i8_bytes(*self as int)
    }

    open spec fn encodable(&self) -> bool {
        true
    }

    open spec fn failure(&self) -> Error {
        Error::InvalidFormat
    }

    fn encode(&self, buf: &mut Vec<u8>) -> (r: Result<usize, Error>) {
        Ok(write_int(buf, *self as i64))
    }
}

impl Encode for i16 {
    open spec fn encoded(&self) -> Seq<u8> {
        i16_bytes(*self as int)
    }

    open spec fn encodable(&self) -> bool {
        true
    }

    open spec fn failure(&self) -> Error {
        Error::InvalidFormat
    }

    fn encode(&self, buf: &mut Vec<u8>) -> (r: Result<usize, Error>) {
        let v = *self;
        if -0x80 <= v && v <= 0xff {
            Ok(write_int(buf, v as i64))
        } else {
            proof {
                lemma_pow256_values();
            }
            let u: u64 = if v >= 0 {
                v as u64
            } else {
                (v as i32 + 0x1_0000) as u64
            };
            Ok(push_marked(buf, INT16, u, 2))
        }
    }
}

impl Encode for i32 {
    open spec fn encoded(&self) -> Seq<u8> {
        i32_bytes(*self as int)
    }

    open spec fn encodable(&self) -> bool {
        true
    }

    open spec fn failure(&self) -> Error {
        Error::InvalidFormat
    }

    fn encode(&self, buf: &mut Vec<u8>) -> (r: Result<usize, Error>) {
        let v = *self;
        if 0 <= v && v <= 0xffff {
            Ok(write_uint(buf, v as u64))
        } else if -0x8000 <= v && v <= 0x7fff {
            (v as i16).encode(buf)
        } else {
            proof {
                lemma_pow256_values();
            }
            let u: u64 = if v >= 0 {
                v as u64
            } else {
                (v as i64 + 0x1_0000_0000) as u64
            };
            Ok(push_marked(buf, INT32, u, 4))
        }
    }
}

impl Encode for i64 {
    open spec fn encoded(&self) -> Seq<u8> {
        i64_bytes(*self as int)
    }

    open spec fn encodable(&self) -> bool {
        true
    }

    open spec fn failure(&self) -> Error {
        Error::InvalidFormat
    }

    fn encode(&self, buf: &mut Vec<u8>) -> (r: Result<usize, Error>) {
        let v = *self;
        if 0 <= v && v <= 0xffff_ffff {
            Ok(write_uint(buf, v as u64))
        } else if -0x8000_0000 <= v && v <= 0x7fff_ffff {
            (v as i32).encode(buf)
        } else {
            proof {
                lemma_pow256_values();
            }
            let u: u64 = if v >= 0 {
                v as u64
            } else {
                twos64(v)
            };
            Ok(push_marked(buf, INT64, u, 8))
        }
    }
}

impl Encode for i128 {
    open spec fn encoded(&self) -> Seq<u8> {
        if i64::MIN <= *self <= i64::MAX {
            i64_bytes(*self as int)
        } else {
            seq![]
        }
    }

    open spec fn encodable(&self) -> bool {
        i64::MIN <= *self <= i64::MAX
    }

    open spec fn failure(&self) -> Error {
        Error::InvalidFormat
    }

    fn encode(&self, buf: &mut Vec<u8>) -> (r: Result<usize, Error>) {
        if i64::MIN as i128 <= *self && *self <= i64::MAX as i128 {
            (*self as i64).encode(buf)
        } else {
            assert(buf@ =~= old(buf)@ + self.encoded());
            Err(Error::InvalidFormat)
        }
    }
}

/// Encodes any integer in the smallest format that holds it exactly: non-negative values
/// in the uint formats, negative values in the int formats.
pub struct EncodeMinimizeInt(pub i128);

impl Encode for EncodeMinimizeInt {
    open spec fn encoded(&self) -> Seq<u8> {
        if int_fits(self.0 as int) {
            int_bytes(self.0 as int)
        } else {
            seq![]
        }
    }

    open spec fn encodable(&self) -> bool {
        int_fits(self.0 as int)
    }

    open spec fn failure(&self) -> Error {
        Error::InvalidFormat
    }

    fn encode(&self, buf: &mut Vec<u8>) -> (r: Result<usize, Error>) {
        let v = self.0;
        if 0 <= v && v <= u64::MAX as i128 {
            Ok(write_uint(buf, v as u64))
        } else if i64::MIN as i128 <= v && v < 0 {
            Ok(write_int(buf, v as i64))
        } else {
            assert(buf@ =~= old(buf)@ + self.encoded());
            Err(Error::InvalidFormat)
        }
    }
}

/// The number of bytes of the smallest encoding of an integer in `[-2^63, 2^64)`.
pub open spec fn smallest_len(v: int) -> nat {
    if -32 <= v <= 0x7f {
        1
    } else if -0x80 <= v <= 0xff {
        2
    } else if -0x8000 <= v <= 0xffff {
        3
    } else if -0x8000_0000 <= v <= 0xffff_ffff {
        5
    } else {
        9
    }
}

/// The marker of the int format family with a payload of `n` bytes: uint for a non-negative
/// value, int for a negative one.
pub open spec fn family_marker(n: nat, negative: bool) -> u8 {
    if negative {
        if n == 1 {
            INT8
        } else if n == 2 {
            INT16
        } else if n == 4 {
            INT32
        } else {
            INT64
        }
    } else {
        if n == 1 {
            UINT8
        } else if n == 2 {
            UINT16
        } else if n == 4 {
            UINT32
        } else {
            UINT64
        }
    }
}

/// The smallest encoding: a fixint when one holds the value; otherwise the narrowest format of
/// the uint family for a non-negative value, of the int family for a negative one, whose
/// payload is the value (in two's complement when negative), most significant byte first.
pub proof fn law_int_bytes_format(v: int)
    requires
        int_fits(v),
    ensures
        int_bytes(v).len() == smallest_len(v),
        smallest_len(v) == 1 ==> int_bytes(v)[0] == (if v >= 0 {
            v
        } else {
            v + 0x100
        }),
        smallest_len(v) > 1 ==> int_bytes(v)[0] == family_marker((smallest_len(v) - 1) as nat, v < 0)
            && be_value(int_bytes(v).drop_first()) == (if v >= 0 {
            v
        } else {
            v + crate::bytes::pow256((smallest_len(v) - 1) as nat)
        }),
{
    lemma_pow256_values();
    let b = int_bytes(v);
    if smallest_len(v) > 2 {
        let n = (smallest_len(v) - 1) as nat;
        let u = if v >= 0 {
            v as nat
        } else {
            twos(v, n)
        };
        lemma_be_value_be_bytes(u, n);
        assert(b.drop_first() =~= be_bytes(u, n));
    } else if smallest_len(v) == 2 {
        let u: nat = if v >= 0 {
            v as nat
        } else {
            (v + 0x100) as nat
        };
        assert(b.drop_first() =~= seq![u as u8]);
        assert(seq![u as u8].drop_last() =~= Seq::<u8>::empty());
        reveal_with_fuel(be_value, 2);
    }
}

/// The encoders of the signed types write the smallest encoding, but for a non-negative value
/// too wide for the uint format half the type's width: that value takes the int format of the
/// type's own width, its payload the value, most significant byte first.
pub proof fn law_signed_type_formats(v: int)
    ensures
        -0x80 <= v <= 0x7f ==> i8_bytes(v) == int_bytes(v),
        (-0x8000 <= v <= 0xff) ==> i16_bytes(v) == int_bytes(v),
        0x100 <= v <= 0x7fff ==> i16_bytes(v).len() == 3 && i16_bytes(v)[0] == INT16 && be_value(
            i16_bytes(v).drop_first(),
        ) == v,
        (-0x8000_0000 <= v <= 0xffff) ==> i32_bytes(v) == int_bytes(v),
        0x1_0000 <= v <= 0x7fff_ffff ==> i32_bytes(v).len() == 5 && i32_bytes(v)[0] == INT32
            && be_value(i32_bytes(v).drop_first()) == v,
        (-0x8000_0000_0000_0000 <= v <= 0xffff_ffff) ==> i64_bytes(v) == int_bytes(v),
        0x1_0000_0000 <= v <= 0x7fff_ffff_ffff_ffff ==> i64_bytes(v).len() == 9 && i64_bytes(v)[0]
            == INT64 && be_value(i64_bytes(v).drop_first()) == v,
{
    lemma_pow256_values();
    if 0x100 <= v <= 0x7fff {
        lemma_be_value_be_bytes(v as nat, 2);
        assert(i16_bytes(v).drop_first() =~= be_bytes(v as nat, 2));
    }
    if 0x1_0000 <= v <= 0x7fff_ffff {
        lemma_be_value_be_bytes(v as nat, 4);
        assert(i32_bytes(v).drop_first() =~= be_bytes(v as nat, 4));
    }
    if 0x1_0000_0000 <= v <= 0x7fff_ffff_ffff_ffff {
        lemma_be_value_be_bytes(v as nat, 8);
        assert(i64_bytes(v).drop_first() =~= be_bytes(v as nat, 8));
    }
}

} // verus!
