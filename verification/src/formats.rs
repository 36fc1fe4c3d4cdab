//! The MessagePack format markers: the first byte of every encoded value.
use vstd::prelude::*;

verus! {

pub const POSITIVE_FIXINT: u8 = 0x00;
pub const NEGATIVE_FIXINT: u8 = 0xe0;
pub const FIX_MAP: u8 = 0x80;
pub const FIX_ARRAY: u8 = 0x90;
pub const FIX_STR: u8 = 0xa0;

pub const NIL: u8 = 0xc0;
pub const NEVER_USED: u8 = 0xc1;
pub const FALSE: u8 = 0xc2;
pub const TRUE: u8 = 0xc3;
pub const BIN8: u8 = 0xc4;
pub const BIN16: u8 = 0xc5;
pub const BIN32: u8 = 0xc6;
pub const EXT8: u8 = 0xc7;
pub const EXT16: u8 = 0xc8;
pub const EXT32: u8 = 0xc9;
pub const FLOAT32: u8 = 0xca;
pub const FLOAT64: u8 = 0xcb;
pub const UINT8: u8 = 0xcc;
pub const UINT16: u8 = 0xcd;
pub const UINT32: u8 = 0xce;
pub const UINT64: u8 = 0xcf;
pub const INT8: u8 = 0xd0;
pub const INT16: u8 = 0xd1;
pub const INT32: u8 = 0xd2;
pub const INT64: u8 = 0xd3;
pub const FIXEXT1: u8 = 0xd4;
pub const FIXEXT2: u8 = 0xd5;
pub const FIXEXT4: u8 = 0xd6;
pub const FIXEXT8: u8 = 0xd7;
pub const FIXEXT16: u8 = 0xd8;
pub const STR8: u8 = 0xd9;
pub const STR16: u8 = 0xda;
pub const STR32: u8 = 0xdb;
pub const ARRAY16: u8 = 0xdc;
pub const ARRAY32: u8 = 0xdd;
pub const MAP16: u8 = 0xde;
pub const MAP32: u8 = 0xdf;

/// The format family a marker byte belongs to, written as the family's first marker.
pub open spec fn spec_format_type(format: u8) -> u8 {
    if format <= 0x7f {
        POSITIVE_FIXINT
    } else if format <= 0x8f {
        FIX_MAP
    } else if format <= 0x9f {
        FIX_ARRAY
    } else if format <= 0xbf {
        FIX_STR
    } else if format >= 0xe0 {
        NEGATIVE_FIXINT
    } else {
        format
    }
}

/// Classifies a marker byte: the fix families collapse onto their first marker,
/// every other marker stands for itself.
pub fn format_type(format: u8) -> (r: u8)
    ensures
        r == spec_format_type(format),
{
    if format <= 0x7f {
        POSITIVE_FIXINT
    } else if format <= 0x8f {
        FIX_MAP
    } else if format <= 0x9f {
        FIX_ARRAY
    } else if format <= 0xbf {
        FIX_STR
    } else if format >= 0xe0 {
        NEGATIVE_FIXINT
    } else {
        format
    }
}

/// A decoded marker byte. The fix families carry the value or length packed into the marker.
#[derive(Debug, Clone, Copy, PartialEq, Eq, Structural)]
pub enum Format {
    PositiveFixInt(u8),
    FixMap(u8),
    FixArray(u8),
    FixStr(u8),
    Nil,
    NeverUsed,
    False,
    True,
    Bin8,
    Bin16,
    Bin32,
    Ext8,
    Ext16,
    Ext32,
    Float32,
    Float64,
    Uint8,
    Uint16,
    Uint32,
    Uint64,
    Int8,
    Int16,
    Int32,
    Int64,
    FixExt1,
    FixExt2,
    FixExt4,
    FixExt8,
    FixExt16,
    Str8,
    Str16,
    Str32,
    Array16,
    Array32,
    Map16,
    Map32,
    NegativeFixInt(i8),
}

/// The format that a marker byte denotes.
pub open spec fn spec_from_byte(b: u8) -> Format {
    if b <= 0x7f {
        Format::PositiveFixInt(b)
    } else if b <= 0x8f {
        Format::FixMap((b - 0x80) as u8)
    } else if b <= 0x9f {
        Format::FixArray((b - 0x90) as u8)
    } else if b <= 0xbf {
        Format::FixStr((b - 0xa0) as u8)
    } else if b >= 0xe0 {
        Format::NegativeFixInt((b - 256) as i8)
    } else if b == NIL {
        Format::Nil
    } else if b == NEVER_USED {
        Format::NeverUsed
    } else if b == FALSE {
        Format::False
    } else if b == TRUE {
        Format::True
    } else if b == BIN8 {
        Format::Bin8
    } else if b == BIN16 {
        Format::Bin16
    } else if b == BIN32 {
        Format::Bin32
    } else if b == EXT8 {
        Format::Ext8
    } else if b == EXT16 {
        Format::Ext16
    } else if b == EXT32 {
        Format::Ext32
    } else if b == FLOAT32 {
        Format::Float32
    } else if b == FLOAT64 {
        Format::Float64
    } else if b == UINT8 {
        Format::Uint8
    } else if b == UINT16 {
        Format::Uint16
    } else if b == UINT32 {
        Format::Uint32
    } else if b == UINT64 {
        Format::Uint64
    } else if b == INT8 {
        Format::Int8
    } else if b == INT16 {
        Format::Int16
    } else if b == INT32 {
        Format::Int32
    } else if b == INT64 {
        Format::Int64
    } else if b == FIXEXT1 {
        Format::FixExt1
    } else if b == FIXEXT2 {
        Format::FixExt2
    } else if b == FIXEXT4 {
        Format::FixExt4
    } else if b == FIXEXT8 {
        Format::FixExt8
    } else if b == FIXEXT16 {
        Format::FixExt16
    } else if b == STR8 {
        Format::Str8
    } else if b == STR16 {
        Format::Str16
    } else if b == STR32 {
        Format::Str32
    } else if b == ARRAY16 {
        Format::Array16
    } else if b == ARRAY32 {
        Format::Array32
    } else if b == MAP16 {
        Format::Map16
    } else {
        Format::Map32
    }
}

/// The marker byte of a format. A packed value or length is kept to the bits its family
/// reserves for it, as a bit mask would keep it.
pub open spec fn spec_as_byte(f: Format) -> u8 {
    match f {
        Format::PositiveFixInt(v) => (v % 128) as u8,
        Format::FixMap(n) => (0x80 + n % 16) as u8,
        Format::FixArray(n) => (0x90 + n % 16) as u8,
        Format::FixStr(n) => (0xa0 + n % 32) as u8,
        Format::NegativeFixInt(v) => (0xe0 + (v + 256) % 32) as u8,
        Format::Nil => NIL,
        Format::NeverUsed => NEVER_USED,
        Format::False => FALSE,
        Format::True => TRUE,
        Format::Bin8 => BIN8,
        Format::Bin16 => BIN16,
        Format::Bin32 => BIN32,
        Format::Ext8 => EXT8,
        Format::Ext16 => EXT16,
        Format::Ext32 => EXT32,
        Format::Float32 => FLOAT32,
        Format::Float64 => FLOAT64,
        Format::Uint8 => UINT8,
        Format::Uint16 => UINT16,
        Format::Uint32 => UINT32,
        Format::Uint64 => UINT64,
        Format::Int8 => INT8,
        Format::Int16 => INT16,
        Format::Int32 => INT32,
        Format::Int64 => INT64,
        Format::FixExt1 => FIXEXT1,
        Format::FixExt2 => FIXEXT2,
        Format::FixExt4 => FIXEXT4,
        Format::FixExt8 => FIXEXT8,
        Format::FixExt16 => FIXEXT16,
        Format::Str8 => STR8,
        Format::Str16 => STR16,
        Format::Str32 => STR32,
        Format::Array16 => ARRAY16,
        Format::Array32 => ARRAY32,
        Format::Map16 => MAP16,
        Format::Map32 => MAP32,
    }
}

/// A format whose packed value fits the bits its family reserves for it.
pub open spec fn format_wf(f: Format) -> bool {
    match f {
        Format::PositiveFixInt(v) => v <= 0x7f,
        Format::FixMap(n) => n <= 0x0f,
        Format::FixArray(n) => n <= 0x0f,
        Format::FixStr(n) => n <= 0x1f,
        Format::NegativeFixInt(v) => -32 <= v <= -1,
        _ => true,
    }
}

impl Format {
    /// Decodes a marker byte. Every byte denotes exactly one format.
    pub fn from_byte(b: u8) -> (f: Format)
        ensures
            f == spec_from_byte(b),
    {
        if b <= 0x7f {
            Format::PositiveFixInt(b)
        } else if b <= 0x8f {
            Format::FixMap(b - 0x80)
        } else if b <= 0x9f {
            Format::FixArray(b - 0x90)
        } else if b <= 0xbf {
            Format::FixStr(b - 0xa0)
        } else if b >= 0xe0 {
            let v: i16 = b as i16 - 256;
            Format::NegativeFixInt(v as i8)
        } else {
            match b {
                NIL => Format::Nil,
                NEVER_USED => Format::NeverUsed,
                FALSE => Format::False,
                TRUE => Format::True,
                BIN8 => Format::Bin8,
                BIN16 => Format::Bin16,
                BIN32 => Format::Bin32,
                EXT8 => Format::Ext8,
                EXT16 => Format::Ext16,
                EXT32 => Format::Ext32,
                FLOAT32 => Format::Float32,
                FLOAT64 => Format::Float64,
                UINT8 => Format::Uint8,
                UINT16 => Format::Uint16,
                UINT32 => Format::Uint32,
                UINT64 => Format::Uint64,
                INT8 => Format::Int8,
                INT16 => Format::Int16,
                INT32 => Format::Int32,
                INT64 => Format::Int64,
                FIXEXT1 => Format::FixExt1,
                FIXEXT2 => Format::FixExt2,
                FIXEXT4 => Format::FixExt4,
                FIXEXT8 => Format::FixExt8,
                FIXEXT16 => Format::FixExt16,
                STR8 => Format::Str8,
                STR16 => Format::Str16,
                STR32 => Format::Str32,
                ARRAY16 => Format::Array16,
                ARRAY32 => Format::Array32,
                MAP16 => Format::Map16,
                _ => Format::Map32,
            }
        }
    }

    /// The marker byte of this format.
    pub fn as_byte(&self) -> (b: u8)
        ensures
            b == spec_as_byte(*self),
    {
        match *self {
            Format::PositiveFixInt(v) => v % 128,
            Format::FixMap(n) => 0x80 + n % 16,
            Format::FixArray(n) => 0x90 + n % 16,
            Format::FixStr(n) => 0xa0 + n % 32,
            Format::NegativeFixInt(v) => {
                let w: i16 = v as i16 + 256;
                (0xe0 + w % 32) as u8
            },
            Format::Nil => NIL,
            Format::NeverUsed => NEVER_USED,
            Format::False => FALSE,
            Format::True => TRUE,
            Format::Bin8 => BIN8,
            Format::Bin16 => BIN16,
            Format::Bin32 => BIN32,
            Format::Ext8 => EXT8,
            Format::Ext16 => EXT16,
            Format::Ext32 => EXT32,
            Format::Float32 => FLOAT32,
            Format::Float64 => FLOAT64,
            Format::Uint8 => UINT8,
            Format::Uint16 => UINT16,
            Format::Uint32 => UINT32,
            Format::Uint64 => UINT64,
            Format::Int8 => INT8,
            Format::Int16 => INT16,
            Format::Int32 => INT32,
            Format::Int64 => INT64,
            Format::FixExt1 => FIXEXT1,
            Format::FixExt2 => FIXEXT2,
            Format::FixExt4 => FIXEXT4,
            Format::FixExt8 => FIXEXT8,
            Format::FixExt16 => FIXEXT16,
            Format::Str8 => STR8,
            Format::Str16 => STR16,
            Format::Str32 => STR32,
            Format::Array16 => ARRAY16,
            Format::Array32 => ARRAY32,
            Format::Map16 => MAP16,
            Format::Map32 => MAP32,
        }
    }
}

/// Reading a marker byte and writing it back gives the same byte, for every byte.
pub proof fn law_byte_roundtrip(b: u8)
    ensures
        spec_as_byte(spec_from_byte(b)) == b,
        format_wf(spec_from_byte(b)),
{
}

/// Writing a well-formed format and reading the byte back gives the same format.
pub proof fn law_format_roundtrip(f: Format)
    requires
        format_wf(f),
    ensures
        spec_from_byte(spec_as_byte(f)) == f,
{
}

/// The family of a marker byte is the marker of its format with the packed value cleared.
pub proof fn law_format_type(b: u8)
    ensures
        spec_format_type(b) == spec_as_byte(
            match spec_from_byte(b) {
                Format::PositiveFixInt(_) => Format::PositiveFixInt(0),
                Format::FixMap(_) => Format::FixMap(0),
                Format::FixArray(_) => Format::FixArray(0),
                Format::FixStr(_) => Format::FixStr(0),
                Format::NegativeFixInt(_) => Format::NegativeFixInt(-32i8),
                other => other,
            },
        ),
{
}

} // verus!
