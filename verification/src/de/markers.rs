//! What the stream reader does with each marker byte: the token it yields for every scalar
//! marker and every payload (the values written out from the payload bytes, most significant
//! first, and for the signed formats in two's complement), what the typed decoders of `u8` and
//! `i8` yield, and which markers start an enum.
use super::{spec_any, spec_enum_start, EnumStartView, TokenView};
use crate::bytes::{be_value, lemma_pow256_values};
use crate::decode::{spec_read_be, Decode, Error};
use crate::formats::{
    ARRAY16, ARRAY32, BIN16, BIN32, BIN8, EXT16, EXT32, EXT8, FALSE, FIXEXT1, FIXEXT16, FIXEXT2,
    FIXEXT4, FIXEXT8, FLOAT32, FLOAT64, INT16, INT32, INT64, INT8, MAP16, MAP32, NIL, STR16, STR32,
    STR8, TRUE, UINT16, UINT32, UINT64, UINT8,
};
use vstd::utf8::{decode_utf8, valid_utf8};
use vstd::prelude::*;

verus! {

/// The value of a byte string grows by one byte at its end.
proof fn lemma_be_push(s: Seq<u8>, x: u8)
    ensures
        be_value(s.push(x)) == be_value(s) * 256 + x,
{
    assert(s.push(x).drop_last() =~= s);
}

proof fn lemma_be1(b0: u8)
    ensures
        be_value(seq![b0]) == b0,
{
    lemma_be_push(seq![], b0);
    assert(seq![b0] =~= Seq::<u8>::empty().push(b0));
}

proof fn lemma_be2(b0: u8, b1: u8)
    ensures
        be_value(seq![b0, b1]) == b0 * 0x100 + b1,
{
    lemma_be1(b0);
    lemma_be_push(seq![b0], b1);
    assert(seq![b0, b1] =~= seq![b0].push(b1));
}

proof fn lemma_be4(b0: u8, b1: u8, b2: u8, b3: u8)
    ensures
        be_value(seq![b0, b1, b2, b3]) == b0 * 0x100_0000 + b1 * 0x1_0000 + b2 * 0x100 + b3,
{
    lemma_be2(b0, b1);
    lemma_be_push(seq![b0, b1], b2);
    lemma_be_push(seq![b0, b1, b2], b3);
    assert(seq![b0, b1, b2] =~= seq![b0, b1].push(b2));
    assert(seq![b0, b1, b2, b3] =~= seq![b0, b1, b2].push(b3));
}

proof fn lemma_be8(b0: u8, b1: u8, b2: u8, b3: u8, b4: u8, b5: u8, b6: u8, b7: u8)
    ensures
        be_value(seq![b0, b1, b2, b3, b4, b5, b6, b7]) == b0 * 0x100_0000_0000_0000 + b1
            * 0x1_0000_0000_0000 + b2 * 0x100_0000_0000 + b3 * 0x1_0000_0000 + b4 * 0x100_0000
            + b5 * 0x1_0000 + b6 * 0x100 + b7,
{
    lemma_be4(b0, b1, b2, b3);
    lemma_be_push(seq![b0, b1, b2, b3], b4);
    lemma_be_push(seq![b0, b1, b2, b3, b4], b5);
    lemma_be_push(seq![b0, b1, b2, b3, b4, b5], b6);
    lemma_be_push(seq![b0, b1, b2, b3, b4, b5, b6], b7);
    assert(seq![b0, b1, b2, b3, b4] =~= seq![b0, b1, b2, b3].push(b4));
    assert(seq![b0, b1, b2, b3, b4, b5] =~= seq![b0, b1, b2, b3, b4].push(b5));
    assert(seq![b0, b1, b2, b3, b4, b5, b6] =~= seq![b0, b1, b2, b3, b4, b5].push(b6));
    assert(seq![b0, b1, b2, b3, b4, b5, b6, b7] =~= seq![b0, b1, b2, b3, b4, b5, b6].push(b7));
}

/// A marker, a payload and then anything: the marker comes first, and the payload is read
/// back from what follows it as its big-endian value.
proof fn lemma_marked_payload(m: u8, p: Seq<u8>, rest: Seq<u8>)
    ensures
        (seq![m] + p + rest).len() > 0,
        (seq![m] + p + rest)[0] == m,
        (seq![m] + p + rest).drop_first() == p + rest,
        spec_read_be(p + rest, p.len()) == Ok::<(nat, nat), Error>((be_value(p), p.len())),
{
    assert((seq![m] + p + rest).drop_first() =~= p + rest);
    assert((p + rest).take(p.len() as int) =~= p);
}

/// A positive fixint is read as the `u8` it holds, a negative fixint as the `i8` whose two's
/// complement it is; nil, false and true are read as such. Each takes its one byte.
pub proof fn law_single_byte_tokens(b: u8, rest: Seq<u8>)
    ensures
        b < 0x80 ==> spec_any(seq![b] + rest) == Ok::<(TokenView, nat), Error>(
            (TokenView::U8(b), 1),
        ),
        b >= 0xe0 ==> (spec_any(seq![b] + rest) matches Ok((TokenView::I8(x), n)) && n == 1 && x
            == b - 0x100),
        spec_any(seq![NIL] + rest) == Ok::<(TokenView, nat), Error>((TokenView::Nil, 1)),
        spec_any(seq![FALSE] + rest) == Ok::<(TokenView, nat), Error>(
            (TokenView::Bool(false), 1),
        ),
        spec_any(seq![TRUE] + rest) == Ok::<(TokenView, nat), Error>((TokenView::Bool(true), 1)),
{
    lemma_marked_payload(b, seq![], rest);
    lemma_marked_payload(NIL, seq![], rest);
    lemma_marked_payload(FALSE, seq![], rest);
    lemma_marked_payload(TRUE, seq![], rest);
    assert(seq![b] + seq![] =~= seq![b]);
    assert(seq![NIL] + seq![] =~= seq![NIL]);
    assert(seq![FALSE] + seq![] =~= seq![FALSE]);
    assert(seq![TRUE] + seq![] =~= seq![TRUE]);
}

/// `uint 8` and `int 8`: the payload byte is read as a `U8` holding it, and as an `I8` holding
/// its two's complement value; both take two bytes.
pub proof fn law_8bit_tokens(b: u8, rest: Seq<u8>)
    ensures
        spec_any(seq![UINT8] + seq![b] + rest) == Ok::<(TokenView, nat), Error>(
            (TokenView::U8(b), 2),
        ),
        spec_any(seq![INT8] + seq![b] + rest) matches Ok((TokenView::I8(x), n)) && n == 2 && x == (
        if b < 0x80 {
            b as int
        } else {
            b - 0x100
        }),
{
    lemma_pow256_values();
    lemma_be1(b);
    lemma_marked_payload(UINT8, seq![b], rest);
    lemma_marked_payload(INT8, seq![b], rest);
}

/// `uint 16` and `int 16`: the two payload bytes, most significant first, are read as a `U16`,
/// and as an `I16` in two's complement; both take three bytes.
pub proof fn law_16bit_tokens(b0: u8, b1: u8, rest: Seq<u8>)
    ensures
        spec_any(seq![UINT16] + seq![b0, b1] + rest) matches Ok((TokenView::U16(x), n)) && n == 3
            && x == b0 * 0x100 + b1,
        spec_any(seq![INT16] + seq![b0, b1] + rest) matches Ok((TokenView::I16(x), n)) && n == 3
            && x == b0 * 0x100 + b1 - (if b0 < 0x80 {
            0int
        } else {
            0x1_0000int
        }),
{
    lemma_pow256_values();
    lemma_be2(b0, b1);
    lemma_marked_payload(UINT16, seq![b0, b1], rest);
    lemma_marked_payload(INT16, seq![b0, b1], rest);
}

/// `uint 32`, `int 32` and `float 32`: the four payload bytes, most significant first, are read
/// as a `U32`, as an `I32` in two's complement, and as the bit pattern of an `F32`; each takes
/// five bytes.
pub proof fn law_32bit_tokens(b0: u8, b1: u8, b2: u8, b3: u8, rest: Seq<u8>)
    ensures
        spec_any(seq![UINT32] + seq![b0, b1, b2, b3] + rest) matches Ok((TokenView::U32(x), n))
            && n == 5 && x == b0 * 0x100_0000 + b1 * 0x1_0000 + b2 * 0x100 + b3,
        spec_any(seq![FLOAT32] + seq![b0, b1, b2, b3] + rest) matches Ok((TokenView::F32(x), n))
            && n == 5 && x == b0 * 0x100_0000 + b1 * 0x1_0000 + b2 * 0x100 + b3,
        spec_any(seq![INT32] + seq![b0, b1, b2, b3] + rest) matches Ok((TokenView::I32(x), n))
            && n == 5 && x == b0 * 0x100_0000 + b1 * 0x1_0000 + b2 * 0x100 + b3 - (if b0 < 0x80 {
            0int
        } else {
            0x1_0000_0000int
        }),
{
    lemma_pow256_values();
    lemma_be4(b0, b1, b2, b3);
    lemma_marked_payload(UINT32, seq![b0, b1, b2, b3], rest);
    lemma_marked_payload(FLOAT32, seq![b0, b1, b2, b3], rest);
    lemma_marked_payload(INT32, seq![b0, b1, b2, b3], rest);
}

/// `uint 64`, `int 64` and `float 64`: the eight payload bytes, most significant first, are
/// read as a `U64`, as an `I64` in two's complement, and as the bit pattern of an `F64`; each
/// takes nine bytes.
pub proof fn law_64bit_tokens(
    b0: u8,
    b1: u8,
    b2: u8,
    b3: u8,
    b4: u8,
    b5: u8,
    b6: u8,
    b7: u8,
    rest: Seq<u8>,
)
    ensures
        ({
            let v = b0 * 0x100_0000_0000_0000 + b1 * 0x1_0000_0000_0000 + b2 * 0x100_0000_0000 + b3
                * 0x1_0000_0000 + b4 * 0x100_0000 + b5 * 0x1_0000 + b6 * 0x100 + b7;
            let p = seq![b0, b1, b2, b3, b4, b5, b6, b7];
            &&& spec_any(seq![UINT64] + p + rest) matches Ok((TokenView::U64(x), n)) && n == 9 && x
                == v
            &&& spec_any(seq![FLOAT64] + p + rest) matches Ok((TokenView::F64(x), n)) && n == 9
                && x == v
            &&& spec_any(seq![INT64] + p + rest) matches Ok((TokenView::I64(x), n)) && n == 9 && x
                == v - (if b0 < 0x80 {
                0int
            } else {
                0x1_0000_0000_0000_0000int
            })
        }),
{
    lemma_pow256_values();
    let p = seq![b0, b1, b2, b3, b4, b5, b6, b7];
    lemma_be8(b0, b1, b2, b3, b4, b5, b6, b7);
    lemma_marked_payload(UINT64, p, rest);
    lemma_marked_payload(FLOAT64, p, rest);
    lemma_marked_payload(INT64, p, rest);
}

/// The `u8` decoder reads a `uint 8` as its payload byte, and the `i8` decoder reads an
/// `int 8` as the two's complement value of its payload byte; both take two bytes.
pub proof fn law_8bit_decoders(b: u8, rest: Seq<u8>)
    ensures
        u8::spec_decode(seq![UINT8] + seq![b] + rest) == Ok::<(u8, nat), Error>((b, 2)),
        i8::spec_decode(seq![INT8] + seq![b] + rest) matches Ok((x, n)) && n == 2 && x
            == (if b < 0x80 {
            b as int
        } else {
            b - 0x100
        }),
{
    lemma_pow256_values();
    lemma_be1(b);
    lemma_marked_payload(UINT8, seq![b], rest);
    lemma_marked_payload(INT8, seq![b], rest);
}

/// A marker, a length field, data and then anything: after the marker the field reads back as
/// its big-endian value, and the data follows the field.
proof fn lemma_field_and_data(m: u8, field: Seq<u8>, data: Seq<u8>, rest: Seq<u8>)
    ensures
        (seq![m] + field + data + rest).len() > 0,
        (seq![m] + field + data + rest)[0] == m,
        (seq![m] + field + data + rest).drop_first() == field + (data + rest),
        spec_read_be(field + (data + rest), field.len()) == Ok::<(nat, nat), Error>(
            (be_value(field), field.len()),
        ),
        (field + (data + rest)).skip(field.len() as int) == data + rest,
        (data + rest).take(data.len() as int) == data,
{
    assert((seq![m] + field + data + rest).drop_first() =~= field + (data + rest));
    assert((field + (data + rest)).take(field.len() as int) =~= field);
    assert((field + (data + rest)).skip(field.len() as int) =~= data + rest);
    assert((data + rest).take(data.len() as int) =~= data);
}

/// A fixmap or fixarray marker is read as the header of a map or array of the length packed
/// in its low four bits, taking the marker alone; `map 16`, `array 16`, `map 32` and
/// `array 32` as the header of the length their field holds, most significant byte first,
/// taking the marker and the field.
pub proof fn law_header_tokens(m: u8, b0: u8, b1: u8, b2: u8, b3: u8, rest: Seq<u8>)
    ensures
        0x80 <= m <= 0x8f ==> spec_any(seq![m] + rest) == Ok::<(TokenView, nat), Error>(
            (TokenView::MapHeader((m - 0x80) as nat), 1),
        ),
        0x90 <= m <= 0x9f ==> spec_any(seq![m] + rest) == Ok::<(TokenView, nat), Error>(
            (TokenView::ArrayHeader((m - 0x90) as nat), 1),
        ),
        spec_any(seq![MAP16] + seq![b0, b1] + rest) == Ok::<(TokenView, nat), Error>(
            (TokenView::MapHeader((b0 * 0x100 + b1) as nat), 3),
        ),
        spec_any(seq![ARRAY16] + seq![b0, b1] + rest) == Ok::<(TokenView, nat), Error>(
            (TokenView::ArrayHeader((b0 * 0x100 + b1) as nat), 3),
        ),
        spec_any(seq![MAP32] + seq![b0, b1, b2, b3] + rest) == Ok::<(TokenView, nat), Error>(
            (TokenView::MapHeader((b0 * 0x100_0000 + b1 * 0x1_0000 + b2 * 0x100 + b3) as nat), 5),
        ),
        spec_any(seq![ARRAY32] + seq![b0, b1, b2, b3] + rest) == Ok::<(TokenView, nat), Error>(
            (TokenView::ArrayHeader((b0 * 0x100_0000 + b1 * 0x1_0000 + b2 * 0x100 + b3) as nat), 5),
        ),
{
    lemma_marked_payload(m, seq![], rest);
    assert(seq![m] + seq![] =~= seq![m]);
    lemma_be2(b0, b1);
    lemma_be4(b0, b1, b2, b3);
    lemma_marked_payload(MAP16, seq![b0, b1], rest);
    lemma_marked_payload(ARRAY16, seq![b0, b1], rest);
    lemma_marked_payload(MAP32, seq![b0, b1, b2, b3], rest);
    lemma_marked_payload(ARRAY32, seq![b0, b1, b2, b3], rest);
}

/// The big-endian value of a length field of one, two or four bytes.
pub open spec fn field_value(field: Seq<u8>) -> nat {
    if field.len() == 1 {
        field[0] as nat
    } else if field.len() == 2 {
        (field[0] * 0x100 + field[1]) as nat
    } else {
        (field[0] * 0x100_0000 + field[1] * 0x1_0000 + field[2] * 0x100 + field[3]) as nat
    }
}

/// The marker of a family of one, two or four length bytes.
pub open spec fn field_marker(k: nat, one: u8, two: u8, four: u8) -> u8 {
    if k == 1 {
        one
    } else if k == 2 {
        two
    } else {
        four
    }
}

/// The value of a length field of one, two or four bytes.
proof fn lemma_field_value(field: Seq<u8>)
    requires
        field.len() == 1 || field.len() == 2 || field.len() == 4,
    ensures
        be_value(field) == field_value(field),
{
    if field.len() == 1 {
        lemma_be1(field[0]);
        assert(field =~= seq![field[0]]);
    } else if field.len() == 2 {
        lemma_be2(field[0], field[1]);
        assert(field =~= seq![field[0], field[1]]);
    } else {
        lemma_be4(field[0], field[1], field[2], field[3]);
        assert(field =~= seq![field[0], field[1], field[2], field[3]]);
    }
}

/// `bin 8`, `bin 16` and `bin 32`: a length field of one, two or four bytes holding the length
/// of the data that follows it is read as that data, taking the marker, the field and the
/// data; data shorter than the field says is refused as ending early.
pub proof fn law_bin_tokens(field: Seq<u8>, data: Seq<u8>, rest: Seq<u8>)
    requires
        field.len() == 1 || field.len() == 2 || field.len() == 4,
    ensures
        ({
            let m = field_marker(field.len(), BIN8, BIN16, BIN32);
            &&& data.len() == field_value(field) ==> spec_any(seq![m] + field + data + rest) == Ok::<
                (TokenView, nat),
                Error,
            >((TokenView::Bin(data), 1 + field.len() + data.len()))
            &&& data.len() < field_value(field) ==> spec_any(seq![m] + field + data) == Err::<
                (TokenView, nat),
                Error,
            >(Error::EofData)
        }),
{
    let m = field_marker(field.len(), BIN8, BIN16, BIN32);
    lemma_field_value(field);
    lemma_field_and_data(m, field, data, rest);
    lemma_field_and_data(m, field, data, seq![]);
    assert(data + seq![] =~= data);
    assert(seq![m] + field + data + seq![] =~= seq![m] + field + data);
}

/// fixstr, `str 8`, `str 16` and `str 32`: the data that the length announces is read as the
/// string it encodes in UTF-8, taking the marker, any field and the data; data that is not
/// UTF-8 is refused as invalid.
pub proof fn law_str_tokens(field: Seq<u8>, data: Seq<u8>, rest: Seq<u8>)
    requires
        field.len() == 1 || field.len() == 2 || field.len() == 4,
    ensures
        ({
            let m = field_marker(field.len(), STR8, STR16, STR32);
            &&& data.len() == field_value(field) && valid_utf8(data) ==> spec_any(
                seq![m] + field + data + rest,
            ) == Ok::<(TokenView, nat), Error>(
                (TokenView::Str(decode_utf8(data)), 1 + field.len() + data.len()),
            )
            &&& data.len() == field_value(field) && !valid_utf8(data) ==> spec_any(
                seq![m] + field + data + rest,
            ) == Err::<(TokenView, nat), Error>(Error::InvalidData)
        }),
        data.len() <= 31 ==> ({
            let m = (0xa0 + data.len()) as u8;
            &&& valid_utf8(data) ==> spec_any(seq![m] + data + rest) == Ok::<(TokenView, nat), Error>(
                (TokenView::Str(decode_utf8(data)), 1 + data.len()),
            )
            &&& !valid_utf8(data) ==> spec_any(seq![m] + data + rest) == Err::<
                (TokenView, nat),
                Error,
            >(Error::InvalidData)
        }),
{
    let m = field_marker(field.len(), STR8, STR16, STR32);
    lemma_field_value(field);
    lemma_field_and_data(m, field, data, rest);
    if data.len() <= 31 {
        let f = (0xa0 + data.len()) as u8;
        lemma_field_and_data(f, seq![], data, rest);
        assert(seq![f] + seq![] + data + rest =~= seq![f] + data + rest);
        assert(seq![] + (data + rest) =~= data + rest);
        assert((data + rest).skip(0) =~= data + rest);
    }
}

/// The two's complement value of an extension's type byte.
pub open spec fn type_value(t: u8) -> int {
    if t < 0x80 {
        t as int
    } else {
        t - 0x100
    }
}

/// What follows an extension's marker and length field: its type byte, its data and then
/// anything.
proof fn lemma_type_and_data(field: Seq<u8>, t: u8, data: Seq<u8>, rest: Seq<u8>)
    ensures
        ({
            let after = field + (seq![t] + data + rest);
            &&& after.take(field.len() as int) == field
            &&& after.len() >= field.len() + 1
            &&& after[field.len() as int] == t
            &&& after.skip(field.len() + 1int) == data + rest
            &&& (data + rest).take(data.len() as int) == data
        }),
{
    let after = field + (seq![t] + data + rest);
    assert(after.take(field.len() as int) =~= field);
    assert(after.skip(field.len() + 1int) =~= data + rest);
    assert((data + rest).take(data.len() as int) =~= data);
}

/// `ext 8`, `ext 16` and `ext 32`: a length field, the type byte and as much data as the field
/// says are read as the type (the two's complement value of its byte) and the data, taking
/// the marker, the field, the type byte and the data.
pub proof fn law_ext_tokens(field: Seq<u8>, t: u8, data: Seq<u8>, rest: Seq<u8>)
    requires
        field.len() == 1 || field.len() == 2 || field.len() == 4,
        data.len() == field_value(field),
    ensures
        spec_any(seq![field_marker(field.len(), EXT8, EXT16, EXT32)] + field + seq![t] + data + rest)
            matches Ok((TokenView::Ext(k, d), n)) && d == data && n == 2 + field.len() + data.len()
            && k == type_value(t),
{
    let m = field_marker(field.len(), EXT8, EXT16, EXT32);
    lemma_field_value(field);
    let after = field + (seq![t] + data + rest);
    assert(seq![m] + field + seq![t] + data + rest =~= seq![m] + after);
    assert((seq![m] + after).drop_first() =~= after);
    lemma_type_and_data(field, t, data, rest);
}

/// fixext 1, 2, 4, 8 and 16: the type byte and then that many bytes of data are read as the
/// type (the two's complement value of its byte) and the data, taking the marker, the type
/// byte and the data.
pub proof fn law_fixext_tokens(t: u8, data: Seq<u8>, rest: Seq<u8>)
    requires
        data.len() == 1 || data.len() == 2 || data.len() == 4 || data.len() == 8 || data.len()
            == 16,
    ensures
        ({
            let len = data.len();
            let m: u8 = if len == 1 {
                FIXEXT1
            } else if len == 2 {
                FIXEXT2
            } else if len == 4 {
                FIXEXT4
            } else if len == 8 {
                FIXEXT8
            } else {
                FIXEXT16
            };
            spec_any(seq![m] + seq![t] + data + rest) matches Ok((TokenView::Ext(k, d), n)) && d
                == data && n == 2 + len && k == type_value(t)
        }),
{
    let len = data.len();
    let m: u8 = if len == 1 {
        FIXEXT1
    } else if len == 2 {
        FIXEXT2
    } else if len == 4 {
        FIXEXT4
    } else if len == 8 {
        FIXEXT8
    } else {
        FIXEXT16
    };
    lemma_type_and_data(seq![], t, data, rest);
    assert(seq![] + (seq![t] + data + rest) =~= seq![t] + data + rest);
    assert(seq![m] + seq![t] + data + rest =~= seq![m] + (seq![t] + data + rest));
    assert((seq![m] + (seq![t] + data + rest)).drop_first() =~= seq![t] + data + rest);
    assert((seq![t] + data + rest).skip(0) =~= seq![t] + data + rest);
}

/// A map or an array marker (fixmap, fixarray, map 16, map 32, array 16, array 32) starts an
/// enum whose variant carries data, taking only the marker: the variant's name and content are
/// the items that follow. A string marker never does, and every other marker is refused.
pub proof fn law_enum_start_markers(m: u8, rest: Seq<u8>)
    ensures
        (0x80 <= m <= 0x9f || m == ARRAY16 || m == ARRAY32 || m == MAP16 || m == MAP32) ==> spec_enum_start(
            seq![m] + rest,
        ) == Ok::<(EnumStartView, nat), Error>((EnumStartView::Compound, 1)),
        (0xa0 <= m <= 0xbf || STR8 <= m <= STR32) ==> !(spec_enum_start(seq![m] + rest) matches Ok(
            (EnumStartView::Compound, _),
        )),
        !(0x80 <= m <= 0xbf || STR8 <= m <= MAP32) ==> spec_enum_start(seq![m] + rest) == Err::<
            (EnumStartView, nat),
            Error,
        >(Error::UnexpectedFormat),
{
    lemma_marked_payload(m, seq![], rest);
    assert(seq![m] + seq![] =~= seq![m]);
}

} // verus!
