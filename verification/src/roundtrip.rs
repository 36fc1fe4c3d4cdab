//! Reading back what was written: every encoding decodes to the value it encodes, consuming
//! exactly its own bytes and leaving whatever follows them untouched.
use crate::bytes::{
    be_bytes, lemma_be_bytes_len, lemma_be_value_be_bytes, lemma_from_twos_twos,
    lemma_pow256_values, pow256, twos,
};
use crate::de::{spec_any, spec_enum_start, token_int, EnumStartView, TokenView};
use crate::decode::array::{spec_decode_elems, ArrayDecoder};
use crate::decode::bin::BinDecoder;
use crate::decode::extension::{kind_of, ExtensionDecoder};
use crate::decode::float::{Float32Decoder, Float64Decoder};
use crate::decode::map::{spec_decode_pairs, MapDecoder};
use crate::decode::nil::NilDecoder;
use crate::decode::str::StrDecoder;
use crate::decode::{spec_read_be, Decode, Error};
use crate::encode::array::{seq_encodable, seq_encoded};
use crate::encode::bin::bin_encoded;
use crate::encode::extension::{ext_encoded, type_byte};
use crate::encode::float::{Float32Encoder, Float64Encoder};
use crate::encode::integer::{i8_bytes, int_bytes, int_fits, uint_bytes};
use crate::encode::map::{pairs_encodable, pairs_encoded};
use crate::encode::str::str_encoded;
use crate::encode::{array_header, len_fits, map_header, Encode};
use crate::formats::{
    ARRAY16, ARRAY32, BIN16, BIN32, BIN8, EXT16, EXT32, EXT8, FIXEXT1, FIXEXT16, FIXEXT2, FIXEXT4,
    FIXEXT8, FIX_ARRAY, FIX_MAP, FIX_STR, FLOAT32, FLOAT64, INT16, INT32, INT64, INT8, MAP16,
    MAP32, NIL, STR16, STR32, STR8, UINT16, UINT32, UINT64, UINT8,
};
use crate::ser::num::{exact_bytes, fits64, AggressiveMinimize, Exact, LosslessMinimize, NumEncoder};
use crate::ser::variant_prefix;
use vstd::utf8::{encode_utf8, encode_utf8_decode_utf8, encode_utf8_valid_utf8};
use vstd::prelude::*;

verus! {

/// The first `n` bytes of `be_bytes(v, n) + rest` are read back as `v`.
proof fn lemma_read_back(v: nat, n: nat, rest: Seq<u8>)
    requires
        v < pow256(n),
    ensures
        spec_read_be(be_bytes(v, n) + rest, n) == Ok::<(nat, nat), Error>((v, n)),
{
    lemma_be_value_be_bytes(v, n);
    assert((be_bytes(v, n) + rest).take(n as int) =~= be_bytes(v, n));
}

/// A marker followed by a payload and then other bytes: the marker comes first, and after it
/// the payload and the other bytes.
proof fn lemma_split(m: u8, payload: Seq<u8>, rest: Seq<u8>)
    ensures
        (seq![m] + payload + rest).len() > 0,
        (seq![m] + payload + rest)[0] == m,
        (seq![m] + payload + rest).drop_first() == payload + rest,
{
    assert((seq![m] + payload + rest).drop_first() =~= payload + rest);
}

/// A one-byte payload is the byte itself.
proof fn lemma_one_byte(m: u8, v: nat)
    requires
        v < 256,
    ensures
        seq![m, v as u8] == seq![m] + be_bytes(v, 1),
{
    reveal_with_fuel(be_bytes, 2);
    assert(seq![m, v as u8] =~= seq![m] + be_bytes(v, 1));
}

/// The bytes `bytes`, followed by anything, are read by the stream reader as a token carrying
/// the integer `v`, consuming exactly `bytes`.
pub open spec fn reads_int(bytes: Seq<u8>, v: int, rest: Seq<u8>) -> bool {
    spec_any(bytes + rest) matches Ok((t, n)) && token_int(t) == Some(v) && n == bytes.len()
}

/// An unsigned payload of `n` bytes that a marker announces reads back as its value.
proof fn lemma_uint_payload_reads(m: u8, v: nat, n: nat, rest: Seq<u8>)
    requires
        n == 2 || n == 4 || n == 8,
        v < pow256(n),
        m == (if n == 2 {
            UINT16
        } else if n == 4 {
            UINT32
        } else {
            UINT64
        }),
    ensures
        reads_int(seq![m] + be_bytes(v, n), v as int, rest),
{
    lemma_pow256_values();
    lemma_be_bytes_len(v, n);
    lemma_split(m, be_bytes(v, n), rest);
    lemma_read_back(v, n, rest);
    assert(seq![m] + be_bytes(v, n) + rest == seq![m] + (be_bytes(v, n) + rest)) by {
        assert(seq![m] + be_bytes(v, n) + rest =~= seq![m] + (be_bytes(v, n) + rest));
    }
}

/// A signed payload of `n` bytes that a marker announces reads back as its value.
proof fn lemma_sint_payload_reads(m: u8, v: int, n: nat, rest: Seq<u8>)
    requires
        n == 2 || n == 4 || n == 8,
        -pow256(n) <= 2 * v < pow256(n),
        m == (if n == 2 {
            INT16
        } else if n == 4 {
            INT32
        } else {
            INT64
        }),
    ensures
        reads_int(seq![m] + be_bytes(twos(v, n), n), v, rest),
{
    lemma_pow256_values();
    lemma_from_twos_twos(v, n);
    let u = twos(v, n);
    lemma_be_bytes_len(u, n);
    lemma_split(m, be_bytes(u, n), rest);
    lemma_read_back(u, n, rest);
}

/// The smallest encoding of a non-negative integer reads back as that integer.
pub proof fn law_uint_roundtrip(v: nat, rest: Seq<u8>)
    requires
        v <= u64::MAX,
    ensures
        reads_int(uint_bytes(v), v as int, rest),
{
    lemma_pow256_values();
    if v <= 0x7f {
        lemma_split(v as u8, seq![], rest);
        assert(seq![v as u8] + seq![] =~= seq![v as u8]);
    } else if v <= 0xff {
        lemma_one_byte(UINT8, v);
        lemma_split(UINT8, be_bytes(v, 1), rest);
        lemma_read_back(v, 1, rest);
    } else if v <= 0xffff {
        lemma_uint_payload_reads(UINT16, v, 2, rest);
    } else if v <= 0xffff_ffff {
        lemma_uint_payload_reads(UINT32, v, 4, rest);
    } else {
        lemma_uint_payload_reads(UINT64, v, 8, rest);
    }
}

/// The smallest encoding of a negative integer of at least `-2^63` reads back as that integer.
proof fn lemma_negative_roundtrip(v: int, rest: Seq<u8>)
    requires
        i64::MIN <= v < 0,
    ensures
        reads_int(int_bytes(v), v, rest),
{
    lemma_pow256_values();
    if v >= -32 {
        lemma_split((v + 256) as u8, seq![], rest);
        assert(seq![(v + 256) as u8] + seq![] =~= seq![(v + 256) as u8]);
    } else if v >= -0x80 {
        lemma_one_byte(INT8, (v + 256) as nat);
        lemma_split(INT8, be_bytes((v + 256) as nat, 1), rest);
        lemma_read_back((v + 256) as nat, 1, rest);
    } else if v >= -0x8000 {
        lemma_sint_payload_reads(INT16, v, 2, rest);
    } else if v >= -0x8000_0000 {
        lemma_sint_payload_reads(INT32, v, 4, rest);
    } else {
        lemma_sint_payload_reads(INT64, v, 8, rest);
    }
}

/// Every integer that MessagePack can hold is read back, after its smallest encoding, as a
/// token carrying that integer; exactly the bytes of the encoding are consumed.
pub proof fn law_int_roundtrip(v: int, rest: Seq<u8>)
    requires
        int_fits(v),
    ensures
        reads_int(int_bytes(v), v, rest),
{
    if v >= 0 {
        law_uint_roundtrip(v as nat, rest);
    } else {
        lemma_negative_roundtrip(v, rest);
    }
}

/// The encoding of an `i8` reads back as that `i8`.
proof fn lemma_i8_roundtrip(v: int, rest: Seq<u8>)
    requires
        i8::MIN <= v <= i8::MAX,
    ensures
        reads_int(i8_bytes(v), v, rest),
{
    law_int_roundtrip(v, rest);
}

/// `v` is a value of the integer type of `width` bytes (16 for the 128-bit types) and of the
/// given signedness.
pub open spec fn in_type(v: int, width: nat, signed: bool) -> bool {
    if signed {
        if width == 1 {
            i8::MIN <= v <= i8::MAX
        } else if width == 2 {
            i16::MIN <= v <= i16::MAX
        } else if width == 4 {
            i32::MIN <= v <= i32::MAX
        } else if width == 8 {
            i64::MIN <= v <= i64::MAX
        } else {
            width == 16 && i128::MIN <= v <= i128::MAX
        }
    } else {
        if width == 1 {
            0 <= v <= u8::MAX
        } else if width == 2 {
            0 <= v <= u16::MAX
        } else if width == 4 {
            0 <= v <= u32::MAX
        } else if width == 8 {
            0 <= v <= u64::MAX
        } else {
            width == 16 && 0 <= v <= u128::MAX
        }
    }
}

/// The encoding of `v` in the own format of its type reads back as `v`.
proof fn lemma_exact_bytes_roundtrip(v: int, width: nat, signed: bool, rest: Seq<u8>)
    requires
        in_type(v, width, signed),
        width <= 8,
    ensures
        reads_int(exact_bytes(v, width, signed), v, rest),
{
    lemma_pow256_values();
    if width == 1 {
        if signed {
            lemma_i8_roundtrip(v, rest);
        } else {
            law_uint_roundtrip(v as nat, rest);
        }
    } else if signed {
        lemma_sint_payload_reads(
            if width == 2 {
                INT16
            } else if width == 4 {
                INT32
            } else {
                INT64
            },
            v,
            width,
            rest,
        );
    } else {
        lemma_uint_payload_reads(
            if width == 2 {
                UINT16
            } else if width == 4 {
                UINT32
            } else {
                UINT64
            },
            v as nat,
            width,
            rest,
        );
    }
}

/// Whatever [`Exact`] writes for an integer is read back, by the stream reader, as that
/// integer.
pub proof fn law_exact_roundtrip(v: int, width: nat, signed: bool, rest: Seq<u8>)
    requires
        in_type(v, width, signed),
        Exact::int_encodable(v, width, signed),
    ensures
        reads_int(Exact::int_encoded(v, width, signed), v, rest),
{
    if width == 16 {
        assert(in_type(v, 8, signed));
        lemma_exact_bytes_roundtrip(v, 8, signed, rest);
    } else {
        lemma_exact_bytes_roundtrip(v, width, signed, rest);
    }
}

/// Every integer of a type of at most 64 bits can be written by each of the encoders; a
/// 128-bit one exactly when it fits the 64-bit type of its signedness (for [`Exact`]) or
/// lies in `[-2^63, 2^64)` (for the minimizing encoders).
pub proof fn law_int_encodable(v: int, width: nat, signed: bool)
    requires
        in_type(v, width, signed),
    ensures
        Exact::int_encodable(v, width, signed) == (width == 16 ==> fits64(v, signed)),
        LosslessMinimize::int_encodable(v, width, signed) == int_fits(v),
        AggressiveMinimize::int_encodable(v, width, signed) == int_fits(v),
        width <= 8 ==> Exact::int_encodable(v, width, signed),
        width <= 8 ==> LosslessMinimize::int_encodable(v, width, signed),
        width <= 8 ==> AggressiveMinimize::int_encodable(v, width, signed),
{
}

/// Whatever [`LosslessMinimize`] writes for an integer is read back as that integer.
pub proof fn law_lossless_roundtrip(v: int, width: nat, signed: bool, rest: Seq<u8>)
    requires
        in_type(v, width, signed),
        LosslessMinimize::int_encodable(v, width, signed),
    ensures
        reads_int(LosslessMinimize::int_encoded(v, width, signed), v, rest),
{
    law_int_roundtrip(v, rest);
}

/// Whatever [`AggressiveMinimize`] writes for an integer is read back as that integer.
pub proof fn law_aggressive_roundtrip(v: int, width: nat, signed: bool, rest: Seq<u8>)
    requires
        in_type(v, width, signed),
        AggressiveMinimize::int_encodable(v, width, signed),
    ensures
        reads_int(AggressiveMinimize::int_encoded(v, width, signed), v, rest),
{
    law_int_roundtrip(v, rest);
}

/// A marker and a payload of `n` bytes, followed by anything: the payload reads back as `v`.
proof fn lemma_marked_payload(m: u8, v: nat, n: nat, rest: Seq<u8>)
    requires
        v < pow256(n),
    ensures
        (seq![m] + be_bytes(v, n) + rest).len() > 0,
        (seq![m] + be_bytes(v, n) + rest)[0] == m,
        spec_read_be((seq![m] + be_bytes(v, n) + rest).drop_first(), n) == Ok::<(nat, nat), Error>((v, n)),
        (seq![m] + be_bytes(v, n)).len() == n + 1,
        (seq![m] + be_bytes(v, n) + rest).drop_first().skip(n as int) == rest,
{
    lemma_be_bytes_len(v, n);
    lemma_split(m, be_bytes(v, n), rest);
    lemma_read_back(v, n, rest);
    assert((be_bytes(v, n) + rest).skip(n as int) =~= rest);
}

/// The `u8` decoder reads back the encoding of a `u8`.
pub proof fn law_u8_roundtrip(v: u8, rest: Seq<u8>)
    ensures
        u8::spec_decode(v.encoded() + rest) == Ok::<(u8, nat), Error>((v, v.encoded().len())),
{
    lemma_pow256_values();
    if v <= 0x7f {
        lemma_split(v, seq![], rest);
        assert(seq![v] + seq![] =~= seq![v]);
    } else {
        lemma_one_byte(UINT8, v as nat);
        lemma_marked_payload(UINT8, v as nat, 1, rest);
    }
}

/// The `u16` decoder reads back the `uint 16` encoding of a `u16`.
pub proof fn law_u16_roundtrip(v: u16, rest: Seq<u8>)
    ensures
        u16::spec_decode(exact_bytes(v as int, 2, false) + rest) == Ok::<(u16, nat), Error>((v, 3)),
{
    lemma_pow256_values();
    lemma_marked_payload(UINT16, v as nat, 2, rest);
}

/// The `u32` decoder reads back the `uint 32` encoding of a `u32`.
pub proof fn law_u32_roundtrip(v: u32, rest: Seq<u8>)
    ensures
        u32::spec_decode(exact_bytes(v as int, 4, false) + rest) == Ok::<(u32, nat), Error>((v, 5)),
{
    lemma_pow256_values();
    lemma_marked_payload(UINT32, v as nat, 4, rest);
}

/// The `u64` decoder reads back the `uint 64` encoding of a `u64`.
pub proof fn law_u64_roundtrip(v: u64, rest: Seq<u8>)
    ensures
        u64::spec_decode(exact_bytes(v as int, 8, false) + rest) == Ok::<(u64, nat), Error>((v, 9)),
{
    lemma_pow256_values();
    lemma_marked_payload(UINT64, v as nat, 8, rest);
}

/// The `i8` decoder reads back the encoding of a negative `i8`. (A non-negative `i8` is
/// written as a positive fixint, a format that decoder does not take.)
pub proof fn law_i8_roundtrip(v: i8, rest: Seq<u8>)
    requires
        v < 0,
    ensures
        i8::spec_decode(v.encoded() + rest) == Ok::<(i8, nat), Error>((v, v.encoded().len())),
{
    lemma_pow256_values();
    if v >= -32 {
        lemma_split((v + 256) as u8, seq![], rest);
        assert(seq![(v + 256) as u8] + seq![] =~= seq![(v + 256) as u8]);
    } else {
        lemma_one_byte(INT8, (v + 256) as nat);
        lemma_marked_payload(INT8, (v + 256) as nat, 1, rest);
    }
}

/// The `i16` decoder reads back the `int 16` encoding of an `i16`.
pub proof fn law_i16_roundtrip(v: i16, rest: Seq<u8>)
    ensures
        i16::spec_decode(exact_bytes(v as int, 2, true) + rest) == Ok::<(i16, nat), Error>((v, 3)),
{
    lemma_pow256_values();
    lemma_from_twos_twos(v as int, 2);
    lemma_marked_payload(INT16, twos(v as int, 2), 2, rest);
}

/// The `i32` decoder reads back the `int 32` encoding of an `i32`.
pub proof fn law_i32_roundtrip(v: i32, rest: Seq<u8>)
    ensures
        i32::spec_decode(exact_bytes(v as int, 4, true) + rest) == Ok::<(i32, nat), Error>((v, 5)),
{
    lemma_pow256_values();
    lemma_from_twos_twos(v as int, 4);
    lemma_marked_payload(INT32, twos(v as int, 4), 4, rest);
}

/// The `i64` decoder reads back the `int 64` encoding of an `i64`.
pub proof fn law_i64_roundtrip(v: i64, rest: Seq<u8>)
    ensures
        i64::spec_decode(exact_bytes(v as int, 8, true) + rest) == Ok::<(i64, nat), Error>((v, 9)),
{
    lemma_pow256_values();
    lemma_from_twos_twos(v as int, 8);
    lemma_marked_payload(INT64, twos(v as int, 8), 8, rest);
}

/// The `bool` decoder, and the stream reader, read back the encoding of a `bool`.
pub proof fn law_bool_roundtrip(v: bool, rest: Seq<u8>)
    ensures
        bool::spec_decode(v.encoded() + rest) == Ok::<(bool, nat), Error>((v, 1)),
        reads_token(v.encoded(), TokenView::Bool(v), rest),
{
    lemma_split(v.encoded()[0], seq![], rest);
    assert(seq![v.encoded()[0]] + seq![] =~= v.encoded());
}

/// The bytes `bytes`, followed by anything, are read by the stream reader as the token `t`,
/// consuming exactly `bytes`.
pub open spec fn reads_token(bytes: Seq<u8>, t: TokenView, rest: Seq<u8>) -> bool {
    spec_any(bytes + rest) == Ok::<(TokenView, nat), Error>((t, bytes.len()))
}

/// A marker, a length field of `k` bytes holding `len`, `len` bytes of data and then anything:
/// after the marker the length reads back, and the data and what follows it come after the
/// field.
proof fn lemma_length_prefixed(m: u8, len: nat, k: nat, data: Seq<u8>, rest: Seq<u8>)
    requires
        len < pow256(k),
        data.len() == len,
    ensures
        (seq![m] + be_bytes(len, k) + data + rest).len() > 0,
        (seq![m] + be_bytes(len, k) + data + rest)[0] == m,
        spec_read_be((seq![m] + be_bytes(len, k) + data + rest).drop_first(), k) == Ok::<
            (nat, nat),
            Error,
        >((len, k)),
        (seq![m] + be_bytes(len, k) + data + rest).drop_first().skip(k as int).len() >= len,
        (seq![m] + be_bytes(len, k) + data + rest).drop_first().skip(k as int).take(len as int)
            == data,
        (seq![m] + be_bytes(len, k) + data + rest).drop_first().skip(k as int).skip(len as int)
            == rest,
        (seq![m] + be_bytes(len, k) + data).len() == 1 + k + len,
{
    lemma_be_bytes_len(len, k);
    let all = seq![m] + be_bytes(len, k) + data + rest;
    assert(all.drop_first() =~= be_bytes(len, k) + (data + rest));
    lemma_read_back(len, k, data + rest);
    assert(all.drop_first().skip(k as int) =~= data + rest);
    assert((data + rest).take(len as int) =~= data);
    assert((data + rest).skip(len as int) =~= rest);
}

/// A marker that carries the length itself, then `len` bytes of data and anything after.
proof fn lemma_fix_prefixed(m: u8, len: nat, data: Seq<u8>, rest: Seq<u8>)
    requires
        data.len() == len,
    ensures
        (seq![m] + data + rest).len() > 0,
        (seq![m] + data + rest)[0] == m,
        (seq![m] + data + rest).drop_first().skip(0).len() >= len,
        (seq![m] + data + rest).drop_first().skip(0).take(len as int) == data,
        (seq![m] + data + rest).drop_first().skip(0).skip(len as int) == rest,
        (seq![m] + data).len() == 1 + len,
{
    let all = seq![m] + data + rest;
    assert(all.drop_first().skip(0) =~= data + rest);
    assert((data + rest).take(len as int) =~= data);
    assert((data + rest).skip(len as int) =~= rest);
}

/// The header of a string, a byte string or an array or map of length `len` is a marker and
/// a length field: `seq![m] + be_bytes(len, k)`.
proof fn lemma_header_shape(m: u8, len: nat, k: nat)
    requires
        k == 1 ==> len < 256,
    ensures
        k == 1 ==> seq![m, len as u8] == seq![m] + be_bytes(len, 1),
{
    if k == 1 {
        lemma_one_byte(m, len);
    }
}

/// The encoding of a string is read back both by the string decoder and by the stream
/// reader, whatever follows it.
pub open spec fn str_reads_back(chars: Seq<char>, rest: Seq<u8>) -> bool {
    &&& StrDecoder::spec_decode(str_encoded(encode_utf8(chars)) + rest) == Ok::<
        (Seq<char>, nat),
        Error,
    >((chars, str_encoded(encode_utf8(chars)).len()))
    &&& reads_token(str_encoded(encode_utf8(chars)), TokenView::Str(chars), rest)
}

/// Strings short enough for a fixstr marker.
proof fn lemma_fixstr_roundtrip(chars: Seq<char>, rest: Seq<u8>)
    requires
        encode_utf8(chars).len() <= 31,
    ensures
        str_reads_back(chars, rest),
{
    let data = encode_utf8(chars);
    encode_utf8_valid_utf8(chars);
    encode_utf8_decode_utf8(chars);
    lemma_fix_prefixed((FIX_STR + data.len()) as u8, data.len(), data, rest);
}

/// Strings with a length field of `k` bytes.
#[verifier::rlimit(30)]
proof fn lemma_str_field_roundtrip(m: u8, k: nat, chars: Seq<char>, rest: Seq<u8>)
    requires
        len_fits(encode_utf8(chars).len()),
        31 < encode_utf8(chars).len(),
        k == 1 ==> encode_utf8(chars).len() <= 0xff && m == STR8,
        k == 2 ==> 0xff < encode_utf8(chars).len() <= 0xffff && m == STR16,
        k == 4 ==> 0xffff < encode_utf8(chars).len() && m == STR32,
        k == 1 || k == 2 || k == 4,
    ensures
        str_reads_back(chars, rest),
{
    let data = encode_utf8(chars);
    let len = data.len();
    encode_utf8_valid_utf8(chars);
    encode_utf8_decode_utf8(chars);
    lemma_pow256_values();
    lemma_length_prefixed(m, len, k, data, rest);
    if k == 1 {
        lemma_one_byte(STR8, len);
    }
    assert(str_encoded(data) == seq![m] + be_bytes(len, k) + data);
}

/// The string decoder, and the stream reader, read back the encoding of any string whose
/// length a length field can hold.
pub proof fn law_str_roundtrip(chars: Seq<char>, rest: Seq<u8>)
    requires
        len_fits(encode_utf8(chars).len()),
    ensures
        str_reads_back(chars, rest),
{
    let len = encode_utf8(chars).len();
    if len <= 31 {
        lemma_fixstr_roundtrip(chars, rest);
    } else if len <= 0xff {
        lemma_str_field_roundtrip(STR8, 1, chars, rest);
    } else if len <= 0xffff {
        lemma_str_field_roundtrip(STR16, 2, chars, rest);
    } else {
        lemma_str_field_roundtrip(STR32, 4, chars, rest);
    }
}

/// The byte string decoder reads back the encoding of any byte string whose length a length
/// field can hold.
pub proof fn law_bin_roundtrip(data: Seq<u8>, rest: Seq<u8>)
    requires
        len_fits(data.len()),
    ensures
        BinDecoder::spec_decode(bin_encoded(data) + rest) == Ok::<(Seq<u8>, nat), Error>(
            (data, bin_encoded(data).len()),
        ),
        reads_token(bin_encoded(data), TokenView::Bin(data), rest),
{
    let len = data.len();
    lemma_pow256_values();
    if len <= 0xff {
        lemma_header_shape(BIN8, len, 1);
        lemma_length_prefixed(BIN8, len, 1, data, rest);
    } else if len <= 0xffff {
        lemma_length_prefixed(BIN16, len, 2, data, rest);
    } else {
        lemma_length_prefixed(BIN32, len, 4, data, rest);
    }
}

/// The stream reader reads back the header of an array of any length a length field can hold.
pub proof fn law_array_header_roundtrip(len: nat, rest: Seq<u8>)
    requires
        len_fits(len),
    ensures
        reads_token(array_header(len), TokenView::ArrayHeader(len), rest),
{
    lemma_pow256_values();
    if len <= 0x0f {
        lemma_split((FIX_ARRAY + len) as u8, seq![], rest);
        assert(seq![(FIX_ARRAY + len) as u8] + seq![] =~= seq![(FIX_ARRAY + len) as u8]);
    } else if len <= 0xffff {
        lemma_marked_payload(ARRAY16, len, 2, rest);
    } else {
        lemma_marked_payload(ARRAY32, len, 4, rest);
    }
}

/// The stream reader reads back the header of a map of any length a length field can hold.
pub proof fn law_map_header_roundtrip(len: nat, rest: Seq<u8>)
    requires
        len_fits(len),
    ensures
        reads_token(map_header(len), TokenView::MapHeader(len), rest),
{
    lemma_pow256_values();
    if len <= 0x0f {
        lemma_split((FIX_MAP + len) as u8, seq![], rest);
        assert(seq![(FIX_MAP + len) as u8] + seq![] =~= seq![(FIX_MAP + len) as u8]);
    } else if len <= 0xffff {
        lemma_marked_payload(MAP16, len, 2, rest);
    } else {
        lemma_marked_payload(MAP32, len, 4, rest);
    }
}

/// An extension laid out as a marker, a length field of `k` bytes, the type byte, the data
/// and then anything: each part is where the decoder looks for it.
proof fn lemma_ext_layout(m: u8, len: nat, k: nat, t: u8, data: Seq<u8>, rest: Seq<u8>)
    requires
        k > 0 ==> len < pow256(k),
        data.len() == len,
    ensures
        ({
            let all = seq![m] + be_bytes(len, k) + seq![t] + data + rest;
            let buf = all.drop_first();
            &&& all.len() > 0
            &&& all[0] == m
            &&& k > 0 ==> spec_read_be(buf, k) == Ok::<(nat, nat), Error>((len, k))
            &&& buf.len() >= k + 1
            &&& buf[k as int] == t
            &&& buf.skip(k + 1int).len() >= len
            &&& buf.skip(k + 1int).take(len as int) == data
            &&& buf.skip(k + 1int).skip(len as int) == rest
        }),
        (seq![m] + be_bytes(len, k) + seq![t] + data).len() == 2 + k + len,
{
    lemma_be_bytes_len(len, k);
    let all = seq![m] + be_bytes(len, k) + seq![t] + data + rest;
    let buf = all.drop_first();
    assert(buf =~= be_bytes(len, k) + (seq![t] + data + rest));
    if k > 0 {
        lemma_read_back(len, k, seq![t] + data + rest);
    }
    assert(buf.skip(k + 1int) =~= data + rest);
    assert((data + rest).take(len as int) =~= data);
    assert((data + rest).skip(len as int) =~= rest);
}

/// The type byte of an extension reads back as its type.
proof fn lemma_type_byte(kind: i8)
    ensures
        kind_of(type_byte(kind)) == kind,
{
}

/// The encoding of the extension is read back both by the extension decoder and by the
/// stream reader, whatever follows it.
pub open spec fn ext_reads_back(kind: i8, data: Seq<u8>, rest: Seq<u8>) -> bool {
    &&& ExtensionDecoder::spec_decode(ext_encoded(kind, data) + rest) == Ok::<
        ((i8, Seq<u8>), nat),
        Error,
    >(((kind, data), ext_encoded(kind, data).len()))
    &&& reads_token(ext_encoded(kind, data), TokenView::Ext(kind, data), rest)
}

/// Extensions whose data length has a fixext marker.
proof fn lemma_fixext_roundtrip(kind: i8, data: Seq<u8>, rest: Seq<u8>)
    requires
        data.len() == 1 || data.len() == 2 || data.len() == 4 || data.len() == 8 || data.len()
            == 16,
    ensures
        ext_reads_back(kind, data, rest),
{
    let len = data.len();
    let t = type_byte(kind);
    lemma_type_byte(kind);
    let m = if len == 1 {
        FIXEXT1
    } else if len == 2 {
        FIXEXT2
    } else if len == 4 {
        FIXEXT4
    } else if len == 8 {
        FIXEXT8
    } else {
        FIXEXT16
    };
    lemma_ext_layout(m, len, 0, t, data, rest);
    assert(seq![m, t] + data =~= seq![m] + be_bytes(len, 0) + seq![t] + data);
}

/// Extensions with a length field of `k` bytes.
#[verifier::rlimit(40)]
proof fn lemma_ext_field_roundtrip(m: u8, k: nat, kind: i8, data: Seq<u8>, rest: Seq<u8>)
    requires
        len_fits(data.len()),
        !(data.len() == 1 || data.len() == 2 || data.len() == 4 || data.len() == 8 || data.len()
            == 16),
        k == 1 ==> data.len() <= 0xff && m == EXT8,
        k == 2 ==> 0xff < data.len() <= 0xffff && m == EXT16,
        k == 4 ==> 0xffff < data.len() && m == EXT32,
        k == 1 || k == 2 || k == 4,
    ensures
        ext_reads_back(kind, data, rest),
{
    let len = data.len();
    let t = type_byte(kind);
    lemma_type_byte(kind);
    lemma_pow256_values();
    lemma_ext_layout(m, len, k, t, data, rest);
    if k == 1 {
        lemma_one_byte(EXT8, len);
        assert(seq![EXT8, len as u8, t] + data =~= seq![EXT8] + be_bytes(len, 1) + seq![t] + data);
    } else {
        assert(ext_encoded(kind, data) =~= seq![m] + be_bytes(len, k) + seq![t] + data);
    }
}

/// The extension decoder, and the stream reader, read back the encoding of any extension
/// whose data length a length field can hold.
pub proof fn law_ext_roundtrip(kind: i8, data: Seq<u8>, rest: Seq<u8>)
    requires
        len_fits(data.len()),
    ensures
        ext_reads_back(kind, data, rest),
{
    let len = data.len();
    if len == 1 || len == 2 || len == 4 || len == 8 || len == 16 {
        lemma_fixext_roundtrip(kind, data, rest);
    } else if len <= 0xff {
        lemma_ext_field_roundtrip(EXT8, 1, kind, data, rest);
    } else if len <= 0xffff {
        lemma_ext_field_roundtrip(EXT16, 2, kind, data, rest);
    } else {
        lemma_ext_field_roundtrip(EXT32, 4, kind, data, rest);
    }
}

/// The nil decoder, the optional decoder and the stream reader read back nil: as the unit
/// value, as `None`, and as the nil token.
pub proof fn law_nil_roundtrip<'a, V: Decode<'a>>(rest: Seq<u8>)
    ensures
        NilDecoder::spec_decode(seq![NIL] + rest) == Ok::<((), nat), Error>(((), 1)),
        Option::<V>::spec_decode(seq![NIL] + rest) == Ok::<
            (Option<<V::Value as DeepView>::V>, nat),
            Error,
        >((None, 1)),
        reads_token(seq![NIL], TokenView::Nil, rest),
{
    lemma_split(NIL, seq![], rest);
    assert(seq![NIL] + seq![] =~= seq![NIL]);
}

/// The `float 32` decoder, and the stream reader, read back the bit pattern of an `f32`.
pub proof fn law_f32_roundtrip(bits: u32, rest: Seq<u8>)
    ensures
        Float32Decoder::spec_decode(Float32Encoder(bits).encoded() + rest) == Ok::<(u32, nat), Error>(
            (bits, 5),
        ),
        reads_token(Float32Encoder(bits).encoded(), TokenView::F32(bits), rest),
{
    lemma_pow256_values();
    lemma_marked_payload(FLOAT32, bits as nat, 4, rest);
}

/// The `float 64` decoder, and the stream reader, read back the bit pattern of an `f64`.
pub proof fn law_f64_roundtrip(bits: u64, rest: Seq<u8>)
    ensures
        Float64Decoder::spec_decode(Float64Encoder(bits).encoded() + rest) == Ok::<(u64, nat), Error>(
            (bits, 9),
        ),
        reads_token(Float64Encoder(bits).encoded(), TokenView::F64(bits), rest),
{
    lemma_pow256_values();
    lemma_marked_payload(FLOAT64, bits as nat, 8, rest);
}

/// The header of an array or map of `len` entries followed by anything: after the marker,
/// the length field reads back as `len`, and what follows the header comes after the field.
proof fn lemma_header_then(fix: u8, m16: u8, m32: u8, len: nat, tail: Seq<u8>)
    requires
        len_fits(len),
        fix == FIX_ARRAY || fix == FIX_MAP,
    ensures
        ({
            let header = if len <= 0x0f {
                seq![(fix + len) as u8]
            } else if len <= 0xffff {
                seq![m16] + be_bytes(len, 2)
            } else {
                seq![m32] + be_bytes(len, 4)
            };
            let buf = (header + tail).drop_first();
            let k: nat = if len <= 0x0f {
                0
            } else if len <= 0xffff {
                2
            } else {
                4
            };
            &&& (header + tail).len() > 0
            &&& (header + tail)[0] == (if len <= 0x0f {
                (fix + len) as u8
            } else if len <= 0xffff {
                m16
            } else {
                m32
            })
            &&& k > 0 ==> spec_read_be(buf, k) == Ok::<(nat, nat), Error>((len, k))
            &&& buf.skip(k as int) == tail
            &&& header.len() == k + 1
        }),
{
    lemma_pow256_values();
    if len <= 0x0f {
        lemma_split((fix + len) as u8, seq![], tail);
        assert(seq![(fix + len) as u8] + seq![] =~= seq![(fix + len) as u8]);
        assert((seq![(fix + len) as u8] + tail).drop_first().skip(0) =~= tail);
    } else if len <= 0xffff {
        lemma_marked_payload(m16, len, 2, tail);
    } else {
        lemma_marked_payload(m32, len, 4, tail);
    }
}

/// The first value of a sequence of values that all have a format is written first.
proof fn lemma_seq_encoded_first<E: Encode>(s: Seq<E>)
    requires
        s.len() > 0,
        seq_encodable(s),
    ensures
        seq_encoded(s) == s[0].encoded() + seq_encoded(s.drop_first()),
        seq_encodable(s.drop_first()),
    decreases s.len(),
{
    if s.len() == 1 {
        assert(s.drop_first() =~= Seq::<E>::empty());
        assert(s.drop_last() =~= Seq::<E>::empty());
        assert(seq_encoded(s) =~= s[0].encoded() + seq_encoded(s.drop_first()));
    } else {
        lemma_seq_encoded_first(s.drop_last());
        assert(s.drop_last().drop_first() =~= s.drop_first().drop_last());
        assert(seq_encoded(s) =~= s[0].encoded() + seq_encoded(s.drop_first()));
    }
}

/// Each value of `s`, followed by anything, is decoded back by `D` as its image under `f`.
pub open spec fn elems_read_back<'a, E: Encode, D: Decode<'a>>(
    s: Seq<E>,
    f: spec_fn(E) -> <D::Value as DeepView>::V,
) -> bool {
    forall|i: int, rest: Seq<u8>|
        0 <= i < s.len() ==> #[trigger] D::spec_decode(s[i].encoded() + rest) == Ok::<
            (<D::Value as DeepView>::V, nat),
            Error,
        >((f(s[i]), s[i].encoded().len()))
}

/// Values written one after another are decoded back one after another.
proof fn lemma_decode_elems<'a, E: Encode, D: Decode<'a>>(
    s: Seq<E>,
    f: spec_fn(E) -> <D::Value as DeepView>::V,
    rest: Seq<u8>,
)
    requires
        seq_encodable(s),
        elems_read_back::<E, D>(s, f),
    ensures
        spec_decode_elems::<D>(seq_encoded(s) + rest, s.len()) == Ok::<
            (Seq<<D::Value as DeepView>::V>, nat),
            Error,
        >((s.map_values(f), seq_encoded(s).len())),
    decreases s.len(),
{
    if s.len() == 0 {
        assert(s.map_values(f) =~= Seq::<<D::Value as DeepView>::V>::empty());
    } else {
        lemma_seq_encoded_first(s);
        let tail = s.drop_first();
        assert forall|i: int, r: Seq<u8>| 0 <= i < tail.len() implies #[trigger] D::spec_decode(
            tail[i].encoded() + r,
        ) == Ok::<(<D::Value as DeepView>::V, nat), Error>(
            (f(tail[i]), tail[i].encoded().len()),
        ) by {
            assert(tail[i] == s[i + 1]);
        }
        lemma_decode_elems::<E, D>(tail, f, rest);
        let head = s[0].encoded();
        let after = seq_encoded(tail) + rest;
        assert(seq_encoded(s) + rest =~= head + after);
        assert(D::spec_decode(head + after) == Ok::<(<D::Value as DeepView>::V, nat), Error>(
            (f(s[0]), head.len()),
        ));
        assert((head + after).skip(head.len() as int) =~= after);
        assert(s.map_values(f) =~= seq![f(s[0])] + tail.map_values(f));
    }
}

/// An array decoder reads back an array written by [`ArrayEncoder`](crate::encode::array::ArrayEncoder)
/// whenever its element decoder reads back each element: the array of the elements' images.
pub proof fn law_array_roundtrip<'a, E: Encode, D: Decode<'a>>(
    s: Seq<E>,
    f: spec_fn(E) -> <D::Value as DeepView>::V,
    rest: Seq<u8>,
)
    requires
        len_fits(s.len()),
        seq_encodable(s),
        elems_read_back::<E, D>(s, f),
    ensures
        ArrayDecoder::<D>::spec_decode(array_header(s.len()) + seq_encoded(s) + rest) == Ok::<
            (Seq<<D::Value as DeepView>::V>, nat),
            Error,
        >((s.map_values(f), array_header(s.len()).len() + seq_encoded(s).len())),
{
    let tail = seq_encoded(s) + rest;
    lemma_header_then(FIX_ARRAY, ARRAY16, ARRAY32, s.len(), tail);
    lemma_decode_elems::<E, D>(s, f, rest);
    assert(array_header(s.len()) + seq_encoded(s) + rest =~= array_header(s.len()) + tail);
    assert(Seq::<<D::Value as DeepView>::V>::empty() + s.map_values(f) =~= s.map_values(f));
}

/// An array of `u8` written by [`ArrayEncoder`](crate::encode::array::ArrayEncoder) is read
/// back by the array decoder of `u8`.
pub proof fn law_u8_array_roundtrip(s: Seq<u8>, rest: Seq<u8>)
    requires
        len_fits(s.len()),
    ensures
        ArrayDecoder::<u8>::spec_decode(array_header(s.len()) + seq_encoded(s) + rest) == Ok::<
            (Seq<u8>, nat),
            Error,
        >((s, array_header(s.len()).len() + seq_encoded(s).len())),
{
    let f = |x: u8| x;
    assert forall|i: int, r: Seq<u8>| 0 <= i < s.len() implies #[trigger] u8::spec_decode(
        s[i].encoded() + r,
    ) == Ok::<(u8, nat), Error>((f(s[i]), s[i].encoded().len())) by {
        law_u8_roundtrip(s[i], r);
    }
    lemma_all_encodable(s);
    law_array_roundtrip::<u8, u8>(s, f, rest);
    assert(s.map_values(f) =~= s);
}

/// Every `u8` has a format.
proof fn lemma_all_encodable(s: Seq<u8>)
    ensures
        seq_encodable(s),
    decreases s.len(),
{
    if s.len() > 0 {
        lemma_all_encodable(s.drop_last());
    }
}

/// The first pair of a sequence of pairs that all have a format is written first.
proof fn lemma_pairs_encoded_first<K: Encode, V: Encode>(s: Seq<(K, V)>)
    requires
        s.len() > 0,
        pairs_encodable(s),
    ensures
        pairs_encoded(s) == s[0].0.encoded() + s[0].1.encoded() + pairs_encoded(s.drop_first()),
        pairs_encodable(s.drop_first()),
    decreases s.len(),
{
    if s.len() == 1 {
        assert(s.drop_first() =~= Seq::<(K, V)>::empty());
        assert(s.drop_last() =~= Seq::<(K, V)>::empty());
        assert(pairs_encoded(s) =~= s[0].0.encoded() + s[0].1.encoded() + pairs_encoded(
            s.drop_first(),
        ));
    } else {
        lemma_pairs_encoded_first(s.drop_last());
        assert(s.drop_last().drop_first() =~= s.drop_first().drop_last());
        assert(pairs_encoded(s) =~= s[0].0.encoded() + s[0].1.encoded() + pairs_encoded(
            s.drop_first(),
        ));
    }
}

/// Each key of `s` is decoded back by `DK` as its image under `fk`, and each value by `DV` as
/// its image under `fv`, whatever follows them.
pub open spec fn pairs_read_back<'a, K: Encode, V: Encode, DK: Decode<'a>, DV: Decode<'a>>(
    s: Seq<(K, V)>,
    fk: spec_fn(K) -> <DK::Value as DeepView>::V,
    fv: spec_fn(V) -> <DV::Value as DeepView>::V,
) -> bool {
    &&& forall|i: int, rest: Seq<u8>|
        0 <= i < s.len() ==> #[trigger] DK::spec_decode(s[i].0.encoded() + rest) == Ok::<
            (<DK::Value as DeepView>::V, nat),
            Error,
        >((fk(s[i].0), s[i].0.encoded().len()))
    &&& forall|i: int, rest: Seq<u8>|
        0 <= i < s.len() ==> #[trigger] DV::spec_decode(s[i].1.encoded() + rest) == Ok::<
            (<DV::Value as DeepView>::V, nat),
            Error,
        >((fv(s[i].1), s[i].1.encoded().len()))
}

/// Pairs written one after another are decoded back one after another.
proof fn lemma_decode_pairs<'a, K: Encode, V: Encode, DK: Decode<'a>, DV: Decode<'a>>(
    s: Seq<(K, V)>,
    fk: spec_fn(K) -> <DK::Value as DeepView>::V,
    fv: spec_fn(V) -> <DV::Value as DeepView>::V,
    rest: Seq<u8>,
)
    requires
        pairs_encodable(s),
        pairs_read_back::<K, V, DK, DV>(s, fk, fv),
    ensures
        spec_decode_pairs::<DK, DV>(pairs_encoded(s) + rest, s.len()) == Ok::<
            (Seq<(<DK::Value as DeepView>::V, <DV::Value as DeepView>::V)>, nat),
            Error,
        >((s.map_values(|p: (K, V)| (fk(p.0), fv(p.1))), pairs_encoded(s).len())),
    decreases s.len(),
{
    let g = |p: (K, V)| (fk(p.0), fv(p.1));
    if s.len() == 0 {
        assert(s.map_values(g) =~= Seq::<(<DK::Value as DeepView>::V, <DV::Value as DeepView>::V)>::empty());
    } else {
        lemma_pairs_encoded_first(s);
        let tail = s.drop_first();
        assert forall|i: int, r: Seq<u8>| 0 <= i < tail.len() implies #[trigger] DK::spec_decode(
            tail[i].0.encoded() + r,
        ) == Ok::<(<DK::Value as DeepView>::V, nat), Error>(
            (fk(tail[i].0), tail[i].0.encoded().len()),
        ) by {
            assert(tail[i] == s[i + 1]);
        }
        assert forall|i: int, r: Seq<u8>| 0 <= i < tail.len() implies #[trigger] DV::spec_decode(
            tail[i].1.encoded() + r,
        ) == Ok::<(<DV::Value as DeepView>::V, nat), Error>(
            (fv(tail[i].1), tail[i].1.encoded().len()),
        ) by {
            assert(tail[i] == s[i + 1]);
        }
        lemma_decode_pairs::<K, V, DK, DV>(tail, fk, fv, rest);
        let key = s[0].0.encoded();
        let val = s[0].1.encoded();
        let after = pairs_encoded(tail) + rest;
        assert(pairs_encoded(s) + rest =~= key + (val + after));
        assert(DK::spec_decode(key + (val + after)) == Ok::<(<DK::Value as DeepView>::V, nat), Error>(
            (fk(s[0].0), key.len()),
        ));
        assert((key + (val + after)).skip(key.len() as int) =~= val + after);
        assert(DV::spec_decode(val + after) == Ok::<(<DV::Value as DeepView>::V, nat), Error>(
            (fv(s[0].1), val.len()),
        ));
        assert((key + (val + after)).skip((key.len() + val.len()) as int) =~= after);
        assert(s.map_values(g) =~= seq![g(s[0])] + tail.map_values(g));
    }
}

/// A map decoder reads back a map written by [`MapSliceEncoder`](crate::encode::map::MapSliceEncoder)
/// whenever its key and value decoders read back each key and value: the pairs of their images,
/// in the order written.
pub proof fn law_map_roundtrip<'a, K: Encode, V: Encode, DK: Decode<'a>, DV: Decode<'a>>(
    s: Seq<(K, V)>,
    fk: spec_fn(K) -> <DK::Value as DeepView>::V,
    fv: spec_fn(V) -> <DV::Value as DeepView>::V,
    rest: Seq<u8>,
)
    requires
        len_fits(s.len()),
        pairs_encodable(s),
        pairs_read_back::<K, V, DK, DV>(s, fk, fv),
    ensures
        MapDecoder::<DK, DV>::spec_decode(map_header(s.len()) + pairs_encoded(s) + rest) == Ok::<
            (Seq<(<DK::Value as DeepView>::V, <DV::Value as DeepView>::V)>, nat),
            Error,
        >(
            (
                s.map_values(|p: (K, V)| (fk(p.0), fv(p.1))),
                map_header(s.len()).len() + pairs_encoded(s).len(),
            ),
        ),
{
    let tail = pairs_encoded(s) + rest;
    lemma_header_then(FIX_MAP, MAP16, MAP32, s.len(), tail);
    lemma_decode_pairs::<K, V, DK, DV>(s, fk, fv, rest);
    assert(map_header(s.len()) + pairs_encoded(s) + rest =~= map_header(s.len()) + tail);
    assert(Seq::<(<DK::Value as DeepView>::V, <DV::Value as DeepView>::V)>::empty() + s.map_values(
        |p: (K, V)| (fk(p.0), fv(p.1)),
    ) =~= s.map_values(|p: (K, V)| (fk(p.0), fv(p.1))));
}

/// A variant written by the serializer is recognized when an enum is read: the name of a unit
/// variant, written as a string, starts that unit variant; a variant carrying data, written as
/// a map of one entry, starts as compound, and its name follows the marker.
pub proof fn law_variant_roundtrip(chars: Seq<char>, rest: Seq<u8>)
    requires
        len_fits(encode_utf8(chars).len()),
    ensures
        spec_enum_start(str_encoded(encode_utf8(chars)) + rest) == Ok::<(EnumStartView, nat), Error>(
            (EnumStartView::Unit(chars), str_encoded(encode_utf8(chars)).len()),
        ),
        spec_enum_start(variant_prefix(encode_utf8(chars)) + rest) == Ok::<
            (EnumStartView, nat),
            Error,
        >((EnumStartView::Compound, 1)),
        (variant_prefix(encode_utf8(chars)) + rest).skip(1) == str_encoded(encode_utf8(chars))
            + rest,
{
    law_str_roundtrip(chars, rest);
    let b = encode_utf8(chars);
    lemma_split(map_header(1)[0], str_encoded(b), rest);
    assert(map_header(1) =~= seq![map_header(1)[0]]);
    assert((variant_prefix(b) + rest).skip(1) =~= str_encoded(b) + rest);
}

} // verus!
