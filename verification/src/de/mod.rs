//! Reading a MessagePack stream one item at a time, as a self-describing deserializer does.
//!
//! [`Deserializer::decode_any`] reads the next item and hands it out as a [`Token`]: a scalar
//! with its value, a string or byte string borrowed from the input, an extension, or the
//! header of an array or map whose elements are the following items. The nesting depth is
//! kept by [`Deserializer::recurse_enter`] and [`Deserializer::recurse_leave`].
use crate::decode::array::spec_array_len;
use crate::decode::bin::{spec_bin_len, spec_take_data, BinDecoder};
use crate::decode::extension::{spec_ext_with_format, ExtensionDecoder};
use crate::decode::float::{Float32Decoder, Float64Decoder};
use crate::decode::integer::{spec_sint_payload, spec_uint_payload};
use crate::decode::map::spec_map_len;
use crate::decode::str::{spec_str_with_format, StrDecoder};
use crate::decode::{
    lemma_skip_skip, spec_decode_format, spec_read_be, with_marker, Decode, Error as CoreError,
};
use crate::decode::array::read_array_len;
use crate::decode::map::read_map_len;
use crate::formats::{spec_from_byte, Format};
use vstd::prelude::*;

pub mod markers;
pub mod seq;

verus! {

/// The deepest nesting of arrays and maps that is read.
pub const MAX_RECURSION_DEPTH: usize = 256;

/// Error during deserialization
#[derive(Debug, Clone)]
pub enum Error {
    /// Core error
    Decode(CoreError),
    /// Recursion limit (nesting depth) exceeded
    RecursionLimitExceeded,
    /// Parse error
    Message(String),
}

/// One item of a MessagePack stream.
#[derive(Debug)]
pub enum Token<'a> {
    Nil,
    Bool(bool),
    U8(u8),
    U16(u16),
    U32(u32),
    U64(u64),
    I8(i8),
    I16(i16),
    I32(i32),
    I64(i64),
    /// `float 32`, by the bit pattern of the `f32`
    F32(u32),
    /// `float 64`, by the bit pattern of the `f64`
    F64(u64),
    Str(&'a str),
    Bin(&'a [u8]),
    /// The header of an array of this many elements
    ArrayHeader(usize),
    /// The header of a map of this many pairs
    MapHeader(usize),
    /// An extension: its type and data
    Ext(i8, &'a [u8]),
}

/// The mathematical value of a [`Token`].
pub enum TokenView {
    Nil,
    Bool(bool),
    U8(u8),
    U16(u16),
    U32(u32),
    U64(u64),
    I8(i8),
    I16(i16),
    I32(i32),
    I64(i64),
    F32(u32),
    F64(u64),
    Str(Seq<char>),
    Bin(Seq<u8>),
    ArrayHeader(nat),
    MapHeader(nat),
    Ext(i8, Seq<u8>),
}

impl<'a> View for Token<'a> {
    type V = TokenView;

    open spec fn view(&self) -> TokenView {
        match *self {
            Token::Nil => TokenView::Nil,
            Token::Bool(b) => TokenView::Bool(b),
            Token::U8(v) => TokenView::U8(v),
            Token::U16(v) => TokenView::U16(v),
            Token::U32(v) => TokenView::U32(v),
            Token::U64(v) => TokenView::U64(v),
            Token::I8(v) => TokenView::I8(v),
            Token::I16(v) => TokenView::I16(v),
            Token::I32(v) => TokenView::I32(v),
            Token::I64(v) => TokenView::I64(v),
            Token::F32(v) => TokenView::F32(v),
            Token::F64(v) => TokenView::F64(v),
            Token::Str(s) => TokenView::Str(s@),
            Token::Bin(b) => TokenView::Bin(b@),
            Token::ArrayHeader(n) => TokenView::ArrayHeader(n as nat),
            Token::MapHeader(n) => TokenView::MapHeader(n as nat),
            Token::Ext(k, d) => TokenView::Ext(k, d@),
        }
    }
}

/// The integer an integer token carries.
pub open spec fn token_int(t: TokenView) -> Option<int> {
    match t {
        TokenView::U8(v) => Some(v as int),
        TokenView::U16(v) => Some(v as int),
        TokenView::U32(v) => Some(v as int),
        TokenView::U64(v) => Some(v as int),
        TokenView::I8(v) => Some(v as int),
        TokenView::I16(v) => Some(v as int),
        TokenView::I32(v) => Some(v as int),
        TokenView::I64(v) => Some(v as int),
        _ => None,
    }
}

/// A decoding result with its value wrapped into a token.
pub open spec fn wrap<V>(r: Result<(V, nat), CoreError>, f: spec_fn(V) -> TokenView) -> Result<
    (TokenView, nat),
    CoreError,
> {
    match r {
        Ok((v, n)) => Ok((f(v), n)),
        Err(e) => Err(e),
    }
}

/// What reading the item whose marker was `format`, from the bytes `buf` after the marker,
/// yields: the token and the bytes consumed after the marker.
pub open spec fn spec_any_with_format(format: Format, buf: Seq<u8>) -> Result<
    (TokenView, nat),
    CoreError,
> {
    match format {
        Format::Nil => Ok((TokenView::Nil, 0)),
        Format::False => Ok((TokenView::Bool(false), 0)),
        Format::True => Ok((TokenView::Bool(true), 0)),
        Format::PositiveFixInt(v) => Ok((TokenView::U8(v), 0)),
        Format::Uint8 => wrap(spec_uint_payload(buf, 1), |v: nat| TokenView::U8(v as u8)),
        Format::Uint16 => wrap(spec_uint_payload(buf, 2), |v: nat| TokenView::U16(v as u16)),
        Format::Uint32 => wrap(spec_uint_payload(buf, 4), |v: nat| TokenView::U32(v as u32)),
        Format::Uint64 => wrap(spec_uint_payload(buf, 8), |v: nat| TokenView::U64(v as u64)),
        Format::NegativeFixInt(v) => Ok((TokenView::I8(v), 0)),
        Format::Int8 => wrap(spec_sint_payload(buf, 1), |v: int| TokenView::I8(v as i8)),
        Format::Int16 => wrap(spec_sint_payload(buf, 2), |v: int| TokenView::I16(v as i16)),
        Format::Int32 => wrap(spec_sint_payload(buf, 4), |v: int| TokenView::I32(v as i32)),
        Format::Int64 => wrap(spec_sint_payload(buf, 8), |v: int| TokenView::I64(v as i64)),
        Format::Float32 => wrap(spec_read_be(buf, 4), |v: nat| TokenView::F32(v as u32)),
        Format::Float64 => wrap(spec_read_be(buf, 8), |v: nat| TokenView::F64(v as u64)),
        Format::FixStr(_) | Format::Str8 | Format::Str16 | Format::Str32 => wrap(
            spec_str_with_format(format, buf),
            |s: Seq<char>| TokenView::Str(s),
        ),
        Format::Bin8 | Format::Bin16 | Format::Bin32 => match spec_bin_len(format, buf) {
            Err(e) => Err(e),
            Ok((len, h)) => wrap(spec_take_data(buf, len, h), |d: Seq<u8>| TokenView::Bin(d)),
        },
        Format::FixArray(_) | Format::Array16 | Format::Array32 => wrap(
            spec_array_len(format, buf),
            |n: nat| TokenView::ArrayHeader(n),
        ),
        Format::FixMap(_) | Format::Map16 | Format::Map32 => wrap(
            spec_map_len(format, buf),
            |n: nat| TokenView::MapHeader(n),
        ),
        Format::Ext8
        | Format::Ext16
        | Format::Ext32
        | Format::FixExt1
        | Format::FixExt2
        | Format::FixExt4
        | Format::FixExt8
        | Format::FixExt16 => wrap(
            spec_ext_with_format(format, buf),
            |e: (i8, Seq<u8>)| TokenView::Ext(e.0, e.1),
        ),
        Format::NeverUsed => Err(CoreError::UnexpectedFormat),
    }
}

/// What reading the next item of the stream `buf` yields: the token and the bytes consumed.
pub open spec fn spec_any(buf: Seq<u8>) -> Result<(TokenView, nat), CoreError> {
    with_marker(buf, spec_any_with_format(spec_from_byte(buf[0]), buf.drop_first()))
}

/// What the next item is when `pending` holds a marker that was read and put back.
pub open spec fn spec_next(pending: Option<Format>, buf: Seq<u8>) -> Result<
    (TokenView, nat),
    CoreError,
> {
    match pending {
        Some(f) => spec_any_with_format(f, buf),
        None => spec_any(buf),
    }
}

/// Where the next marker comes from: the one put back, taking no bytes, or else the input.
pub open spec fn spec_pending_format(pending: Option<Format>, buf: Seq<u8>) -> Result<
    (Format, nat),
    CoreError,
> {
    match pending {
        Some(f) => Ok((f, 0)),
        None => spec_decode_format(buf),
    }
}

/// The start of an externally tagged enum: a bare string names a unit variant; a map or an
/// array introduces a variant that carries data, named by the item that follows.
pub enum EnumStart<'a> {
    Unit(&'a str),
    Compound,
}

/// The mathematical value of an [`EnumStart`].
pub enum EnumStartView {
    Unit(Seq<char>),
    Compound,
}

impl<'a> View for EnumStart<'a> {
    type V = EnumStartView;

    open spec fn view(&self) -> EnumStartView {
        match *self {
            EnumStart::Unit(s) => EnumStartView::Unit(s@),
            EnumStart::Compound => EnumStartView::Compound,
        }
    }
}

/// What starting an enum whose marker was `format` yields, from the bytes `buf` after the
/// marker: the start and the bytes consumed after the marker.
pub open spec fn spec_enum_start_with_format(format: Format, buf: Seq<u8>) -> Result<
    (EnumStartView, nat),
    CoreError,
> {
    match format {
        Format::FixStr(_) | Format::Str8 | Format::Str16 | Format::Str32 => match spec_str_with_format(
            format,
            buf,
        ) {
            Ok((s, m)) => Ok((EnumStartView::Unit(s), m)),
            Err(e) => Err(e),
        },
        Format::FixMap(_) | Format::Map16 | Format::Map32 | Format::FixArray(_) | Format::Array16
        | Format::Array32 => Ok((EnumStartView::Compound, 0)),
        _ => Err(CoreError::UnexpectedFormat),
    }
}

/// What starting an enum at the beginning of the stream `buf` yields: the start and the bytes
/// consumed.
pub open spec fn spec_enum_start(buf: Seq<u8>) -> Result<(EnumStartView, nat), CoreError> {
    with_marker(buf, spec_enum_start_with_format(spec_from_byte(buf[0]), buf.drop_first()))
}

/// A MessagePack deserializer over a byte slice.
pub struct Deserializer<'a> {
    /// The input not read yet.
    pub input: &'a [u8],
    /// How many arrays and maps are being read.
    pub depth: usize,
    /// A marker that was read and put back.
    pub format: Option<Format>,
}

impl<'a> Deserializer<'a> {
    pub fn new(input: &'a [u8]) -> (r: Self)
        ensures
            r.input@ == input@,
            r.depth == 0,
            r.format is None,
    {
        Deserializer { input, depth: 0, format: None }
    }

    /// Reads the next marker, or takes the one put back.
    pub fn decode_format(&mut self) -> (r: Result<Format, Error>)
        ensures
            final(self).depth == old(self).depth,
            final(self).format is None,
            match spec_pending_format(old(self).format, old(self).input@) {
                Ok((f, n)) => r == Ok::<Format, Error>(f) && n <= old(self).input@.len() && final(self).input@ == old(self).input@.skip(n as int),
                Err(e) => r matches Err(Error::Decode(e2)) && e2 == e && final(self).input == old(self).input,
            },
    {
        match self.format.take() {
            Some(v) => {
                assert(self.input@.skip(0) =~= self.input@);
                Ok(v)
            },
            None => match Format::decode(self.input) {
                Ok((v, rest)) => {
                    self.input = rest;
                    Ok(v)
                },
                Err(e) => Err(Error::Decode(e)),
            },
        }
    }

    /// Reads the item whose marker was `format`; the input is left unchanged on error.
    #[verifier::rlimit(40)]
    fn any_with_format(&mut self, format: Format) -> (r: Result<Token<'a>, Error>)
        requires
            old(self).format is None,
        ensures
            final(self).depth == old(self).depth,
            final(self).format is None,
            match spec_any_with_format(format, old(self).input@) {
                Ok((t, n)) => r matches Ok(tok) && tok@ == t && n <= old(self).input@.len() && final(self).input@ == old(self).input@.skip(n as int),
                Err(e) => r matches Err(Error::Decode(e2)) && e2 == e && final(self).input == old(self).input,
            },
    {
        let buf = self.input;
        let res: Result<(Token<'a>, &'a [u8]), CoreError> = match format {
            Format::Nil => Ok((Token::Nil, buf)),
            Format::False => Ok((Token::Bool(false), buf)),
            Format::True => Ok((Token::Bool(true), buf)),
            Format::PositiveFixInt(v) => Ok((Token::U8(v), buf)),
            Format::Uint8 => match u8::decode_with_format(format, buf) {
                Ok((v, rest)) => Ok((Token::U8(v), rest)),
                Err(e) => Err(e),
            },
            Format::Uint16 => match u16::decode_with_format(format, buf) {
                Ok((v, rest)) => Ok((Token::U16(v), rest)),
                Err(e) => Err(e),
            },
            Format::Uint32 => match u32::decode_with_format(format, buf) {
                Ok((v, rest)) => Ok((Token::U32(v), rest)),
                Err(e) => Err(e),
            },
            Format::Uint64 => match u64::decode_with_format(format, buf) {
                Ok((v, rest)) => Ok((Token::U64(v), rest)),
                Err(e) => Err(e),
            },
            Format::NegativeFixInt(v) => Ok((Token::I8(v), buf)),
            Format::Int8 => match i8::decode_with_format(format, buf) {
                Ok((v, rest)) => Ok((Token::I8(v), rest)),
                Err(e) => Err(e),
            },
            Format::Int16 => match i16::decode_with_format(format, buf) {
                Ok((v, rest)) => Ok((Token::I16(v), rest)),
                Err(e) => Err(e),
            },
            Format::Int32 => match i32::decode_with_format(format, buf) {
                Ok((v, rest)) => Ok((Token::I32(v), rest)),
                Err(e) => Err(e),
            },
            Format::Int64 => match i64::decode_with_format(format, buf) {
                Ok((v, rest)) => Ok((Token::I64(v), rest)),
                Err(e) => Err(e),
            },
            Format::Float32 => match Float32Decoder::decode_with_format(format, buf) {
                Ok((v, rest)) => Ok((Token::F32(v), rest)),
                Err(e) => Err(e),
            },
            Format::Float64 => match Float64Decoder::decode_with_format(format, buf) {
                Ok((v, rest)) => Ok((Token::F64(v), rest)),
                Err(e) => Err(e),
            },
            Format::FixStr(_) | Format::Str8 | Format::Str16 | Format::Str32 => {
                match StrDecoder::decode_with_format(format, buf) {
                    Ok((s, rest)) => Ok((Token::Str(s), rest)),
                    Err(e) => Err(e),
                }
            },
            Format::Bin8 | Format::Bin16 | Format::Bin32 => {
                match BinDecoder::decode_with_format(format, buf) {
                    Ok((b, rest)) => {
                        assert(b@ =~= b.deep_view());
                        Ok((Token::Bin(b), rest))
                    },
                    Err(e) => Err(e),
                }
            },
            Format::FixArray(_) | Format::Array16 | Format::Array32 => {
                match read_array_len(format, buf) {
                    Ok((n, rest)) => Ok((Token::ArrayHeader(n), rest)),
                    Err(e) => Err(e),
                }
            },
            Format::FixMap(_) | Format::Map16 | Format::Map32 => {
                match read_map_len(format, buf) {
                    Ok((n, rest)) => Ok((Token::MapHeader(n), rest)),
                    Err(e) => Err(e),
                }
            },
            Format::Ext8
            | Format::Ext16
            | Format::Ext32
            | Format::FixExt1
            | Format::FixExt2
            | Format::FixExt4
            | Format::FixExt8
            | Format::FixExt16 => match ExtensionDecoder::decode_with_format(format, buf) {
                Ok(((k, d), rest)) => {
                    assert(d@ =~= d.deep_view());
                    Ok((Token::Ext(k, d), rest))
                },
                Err(e) => Err(e),
            },
            Format::NeverUsed => Err(CoreError::UnexpectedFormat),
        };
        assert(buf@.skip(0) =~= buf@);
        match res {
            Ok((tok, rest)) => {
                self.input = rest;
                Ok(tok)
            },
            Err(e) => Err(Error::Decode(e)),
        }
    }

    /// Reads the next item of the stream. On error the marker, once read, stays consumed;
    /// nothing after it is.
    #[verifier::rlimit(30)]
    pub fn decode_any(&mut self) -> (r: Result<Token<'a>, Error>)
        ensures
            final(self).depth == old(self).depth,
            final(self).format is None,
            match spec_next(old(self).format, old(self).input@) {
                Ok((t, n)) => r matches Ok(tok) && tok@ == t && final(self).input@ == old(self).input@.skip(n as int),
                Err(e) => r matches Err(Error::Decode(e2)) && e2 == e && final(self).input@
                    == match spec_pending_format(old(self).format, old(self).input@) {
                    Ok((_, m)) => old(self).input@.skip(m as int),
                    Err(_) => old(self).input@,
                },
            },
    {
        let format = match self.decode_format() {
            Ok(f) => f,
            Err(e) => {
                return Err(e);
            },
        };
        let ghost after = self.input@;
        let r = self.any_with_format(format);
        proof {
            if old(self).format is None {
                match spec_any_with_format(format, after) {
                    Ok((t, n)) => {
                        lemma_skip_skip(old(self).input@, 1, n as int);
                    },
                    Err(_) => {},
                }
            } else {
                assert(old(self).input@.skip(0) =~= old(self).input@);
            }
        }
        r
    }

    /// Reads a nil, as an absent optional value; any other marker is put back for the value.
    pub fn take_nil(&mut self) -> (r: Result<bool, Error>)
        ensures
            final(self).depth == old(self).depth,
            match spec_pending_format(old(self).format, old(self).input@) {
                Ok((f, n)) => r == Ok::<bool, Error>(f == Format::Nil) && final(self).input@
                    == old(self).input@.skip(n as int) && (f == Format::Nil ==> final(self).format is None)
                    && (f != Format::Nil ==> final(self).format == Some(f)),
                Err(e) => r matches Err(Error::Decode(e2)) && e2 == e && *final(self) == *old(self),
            },
    {
        let format = self.decode_format()?;
        match format {
            Format::Nil => Ok(true),
            _ => {
                self.format = Some(format);
                Ok(false)
            },
        }
    }

    /// Reads the start of an externally tagged enum: a string is the name of a unit variant;
    /// after the marker of a map or an array the variant's name and content follow; any other
    /// marker is refused.
    pub fn decode_enum_start(&mut self) -> (r: Result<EnumStart<'a>, Error>)
        ensures
            final(self).depth == old(self).depth,
            final(self).format is None,
            match spec_pending_format(old(self).format, old(self).input@) {
                Ok((f, n)) => match spec_enum_start_with_format(f, old(self).input@.skip(n as int)) {
                    Ok((v, m)) => r matches Ok(x) && x@ == v && final(self).input@ == old(
                        self,
                    ).input@.skip((n + m) as int),
                    Err(e) => r matches Err(Error::Decode(e2)) && e2 == e,
                },
                Err(e) => r matches Err(Error::Decode(e2)) && e2 == e,
            },
    {
        let ghost before = self.input@;
        let format = self.decode_format()?;
        let ghost n: nat = (before.len() - self.input@.len()) as nat;
        assert(self.input@ == before.skip(n as int));
        match format {
            Format::FixStr(_) | Format::Str8 | Format::Str16 | Format::Str32 => {
                match StrDecoder::decode_with_format(format, self.input) {
                    Ok((s, rest)) => {
                        proof {
                            match spec_str_with_format(format, before.skip(n as int)) {
                                Ok((_, m)) => {
                                    lemma_skip_skip(before, n as int, m as int);
                                },
                                Err(_) => {},
                            }
                        }
                        self.input = rest;
                        Ok(EnumStart::Unit(s))
                    },
                    Err(e) => Err(Error::Decode(e)),
                }
            },
            Format::FixMap(_)
            | Format::Map16
            | Format::Map32
            | Format::FixArray(_)
            | Format::Array16
            | Format::Array32 => {
                assert(before.skip(n as int).skip(0) =~= before.skip(n as int));
                Ok(EnumStart::Compound)
            },
            _ => Err(Error::Decode(CoreError::UnexpectedFormat)),
        }
    }

    /// Enters an array or map: fails once the nesting reaches [`MAX_RECURSION_DEPTH`].
    pub fn recurse_enter(&mut self) -> (r: Result<(), Error>)
        ensures
            final(self).input == old(self).input,
            final(self).format == old(self).format,
            old(self).depth >= MAX_RECURSION_DEPTH ==> (r matches Err(Error::RecursionLimitExceeded)
                && final(self).depth == old(self).depth),
            old(self).depth < MAX_RECURSION_DEPTH ==> r is Ok && final(self).depth == old(self).depth + 1,
    {
        if self.depth >= MAX_RECURSION_DEPTH {
            return Err(Error::RecursionLimitExceeded);
        }
        self.depth = self.depth + 1;
        Ok(())
    }

    /// Leaves an array or map entered with [`Deserializer::recurse_enter`].
    pub fn recurse_leave(&mut self)
        requires
            old(self).depth > 0,
        ensures
            final(self).input == old(self).input,
            final(self).format == old(self).format,
            final(self).depth == old(self).depth - 1,
    {
        self.depth = self.depth - 1;
    }
}

} // verus!
