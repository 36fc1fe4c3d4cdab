//! Writing values as MessagePack, one serializer call at a time.
//!
//! A [`Serializer`] holds the bytes written so far; each call appends the encoding of one
//! value, or the header of an array, a map or an enum variant whose contents the following
//! calls write. MessagePack writes the length of an array or map before its elements, so a
//! sequence or map of unknown length is refused with [`Error::SeqLenNone`].
use crate::bytes::push_slice;
use crate::encode::array::ArrayFormatEncoder;
use crate::encode::bin::{bin_encoded, BinaryEncoder};
use crate::encode::float::{Float32Encoder, Float64Encoder};
use crate::encode::map::MapFormatEncoder;
use crate::encode::nil::NilEncoder;
use crate::encode::str::{str_encoded, write_str_bytes};
use crate::encode::{len_fits, map_header, array_header, Encode, Error as CoreError};
use crate::formats::NIL;
use core::marker::PhantomData;
use num::NumEncoder;
use vstd::prelude::*;
use vstd::string::*;
use vstd::utf8::{char_is_scalar, encode_scalar, encode_utf8};

pub mod ext;
pub mod num;

verus! {

/// Error during serialization
#[derive(Debug, Clone)]
pub enum Error {
    /// Core error
    Encode(CoreError),
    /// Tried to serialize an array or map without a length.
    SeqLenNone,
    /// Custom serialization error.
    Custom(String),
}

/// The outcome of a write whose value could (`ok`) or could not be encoded.
pub open spec fn outcome(ok: bool) -> Result<(), Error> {
    if ok {
        Ok(())
    } else {
        Err(Error::Encode(CoreError::InvalidFormat))
    }
}

/// The bytes that introduce a variant carrying data: a map of one entry whose key is the
/// variant's name, given by its UTF-8 bytes.
pub open spec fn variant_prefix(name: Seq<u8>) -> Seq<u8> {
    map_header(1) + str_encoded(name)
}

/// The header of an array of `len` elements, when a length field can hold `len`.
pub open spec fn array_header_of(len: nat) -> Seq<u8> {
    if len_fits(len) {
        array_header(len)
    } else {
        seq![]
    }
}

/// The header of a map of `len` entries, when a length field can hold `len`.
pub open spec fn map_header_of(len: nat) -> Seq<u8> {
    if len_fits(len) {
        map_header(len)
    } else {
        seq![]
    }
}

/// A MessagePack serializer whose integers are written as `Num` decides.
pub struct Serializer<Num> {
    /// The bytes written so far.
    pub writer: Vec<u8>,
    pub num_encoder: PhantomData<Num>,
}

impl<Num: NumEncoder> Serializer<Num> {
    /// A serializer that has written nothing.
    pub fn new(_num_encoder: Num) -> (r: Self)
        ensures
            r.writer@ == Seq::<u8>::empty(),
    {
        Serializer { writer: Vec::new(), num_encoder: PhantomData }
    }

    /// The number of bytes written.
    pub fn current_length(&self) -> (r: usize)
        ensures
            r == self.writer@.len(),
    {
        self.writer.len()
    }

    /// The bytes written.
    pub fn into_bytes(self) -> (r: Vec<u8>)
        ensures
            r@ == self.writer@,
    {
        self.writer
    }

    /// Copies the bytes written to the start of `buf`. When `buf` is too short it holds as
    /// many of them as fit, and the result is `BufferFull`.
    pub fn write_to_slice(&self, buf: &mut [u8]) -> (r: Result<usize, Error>)
        ensures
            final(buf)@ == crate::encode::slice_after(old(buf)@, self.writer@),
            self.writer@.len() <= old(buf)@.len() ==> r == Ok::<usize, Error>(
                self.writer@.len() as usize,
            ),
            self.writer@.len() > old(buf)@.len() ==> r matches Err(
                Error::Encode(CoreError::BufferFull),
            ),
    {
        let n = crate::encode::copy_prefix(self.writer.as_slice(), buf);
        if n < self.writer.len() {
            Err(Error::Encode(CoreError::BufferFull))
        } else {
            Ok(n)
        }
    }

    pub fn serialize_bool(&mut self, v: bool) -> (r: Result<(), Error>)
        ensures
            final(self).writer@ == old(self).writer@ + v.encoded(),
            r == Ok::<(), Error>(()),
    {
        let _ = v.encode(&mut self.writer);
        Ok(())
    }

    pub fn serialize_i8(&mut self, v: i8) -> (r: Result<(), Error>)
        ensures
            final(self).writer@ == old(self).writer@ + Num::int_encoded(v as int, 1, true),
            r == outcome(Num::int_encodable(v as int, 1, true)),
    {
        match Num::encode_i8(v, &mut self.writer) {
            Ok(_) => Ok(()),
            Err(e) => Err(Error::Encode(e)),
        }
    }

    pub fn serialize_i16(&mut self, v: i16) -> (r: Result<(), Error>)
        ensures
            final(self).writer@ == old(self).writer@ + Num::int_encoded(v as int, 2, true),
            r == outcome(Num::int_encodable(v as int, 2, true)),
    {
        match Num::encode_i16(v, &mut self.writer) {
            Ok(_) => Ok(()),
            Err(e) => Err(Error::Encode(e)),
        }
    }

    pub fn serialize_i32(&mut self, v: i32) -> (r: Result<(), Error>)
        ensures
            final(self).writer@ == old(self).writer@ + Num::int_encoded(v as int, 4, true),
            r == outcome(Num::int_encodable(v as int, 4, true)),
    {
        match Num::encode_i32(v, &mut self.writer) {
            Ok(_) => Ok(()),
            Err(e) => Err(Error::Encode(e)),
        }
    }

    pub fn serialize_i64(&mut self, v: i64) -> (r: Result<(), Error>)
        ensures
            final(self).writer@ == old(self).writer@ + Num::int_encoded(v as int, 8, true),
            r == outcome(Num::int_encodable(v as int, 8, true)),
    {
        match Num::encode_i64(v, &mut self.writer) {
            Ok(_) => Ok(()),
            Err(e) => Err(Error::Encode(e)),
        }
    }

    pub fn serialize_i128(&mut self, v: i128) -> (r: Result<(), Error>)
        ensures
            final(self).writer@ == old(self).writer@ + Num::int_encoded(v as int, 16, true),
            r == outcome(Num::int_encodable(v as int, 16, true)),
    {
        match Num::encode_i128(v, &mut self.writer) {
            Ok(_) => Ok(()),
            Err(e) => Err(Error::Encode(e)),
        }
    }

    pub fn serialize_u8(&mut self, v: u8) -> (r: Result<(), Error>)
        ensures
            final(self).writer@ == old(self).writer@ + Num::int_encoded(v as int, 1, false),
            r == outcome(Num::int_encodable(v as int, 1, false)),
    {
        match Num::encode_u8(v, &mut self.writer) {
            Ok(_) => Ok(()),
            Err(e) => Err(Error::Encode(e)),
        }
    }

    pub fn serialize_u16(&mut self, v: u16) -> (r: Result<(), Error>)
        ensures
            final(self).writer@ == old(self).writer@ + Num::int_encoded(v as int, 2, false),
            r == outcome(Num::int_encodable(v as int, 2, false)),
    {
        match Num::encode_u16(v, &mut self.writer) {
            Ok(_) => Ok(()),
            Err(e) => Err(Error::Encode(e)),
        }
    }

    pub fn serialize_u32(&mut self, v: u32) -> (r: Result<(), Error>)
        ensures
            final(self).writer@ == old(self).writer@ + Num::int_encoded(v as int, 4, false),
            r == outcome(Num::int_encodable(v as int, 4, false)),
    {
        match Num::encode_u32(v, &mut self.writer) {
            Ok(_) => Ok(()),
            Err(e) => Err(Error::Encode(e)),
        }
    }

    pub fn serialize_u64(&mut self, v: u64) -> (r: Result<(), Error>)
        ensures
            final(self).writer@ == old(self).writer@ + Num::int_encoded(v as int, 8, false),
            r == outcome(Num::int_encodable(v as int, 8, false)),
    {
        match Num::encode_u64(v, &mut self.writer) {
            Ok(_) => Ok(()),
            Err(e) => Err(Error::Encode(e)),
        }
    }

    pub fn serialize_u128(&mut self, v: u128) -> (r: Result<(), Error>)
        ensures
            final(self).writer@ == old(self).writer@ + Num::int_encoded(v as int, 16, false),
            r == outcome(Num::int_encodable(v as int, 16, false)),
    {
        match Num::encode_u128(v, &mut self.writer) {
            Ok(_) => Ok(()),
            Err(e) => Err(Error::Encode(e)),
        }
    }

    /// Writes an `f32`, given by its bit pattern, as `float 32`.
    pub fn serialize_f32_bits(&mut self, bits: u32) -> (r: Result<(), Error>)
        ensures
            final(self).writer@ == old(self).writer@ + Float32Encoder(bits).encoded(),
            r == Ok::<(), Error>(()),
    {
        let _ = Float32Encoder(bits).encode(&mut self.writer);
        Ok(())
    }

    /// Writes an `f64`, given by its bit pattern, as `float 64`.
    pub fn serialize_f64_bits(&mut self, bits: u64) -> (r: Result<(), Error>)
        ensures
            final(self).writer@ == old(self).writer@ + Float64Encoder(bits).encoded(),
            r == Ok::<(), Error>(()),
    {
        let _ = Float64Encoder(bits).encode(&mut self.writer);
        Ok(())
    }

    /// A `char` is written as the string of its UTF-8 encoding.
    pub fn serialize_char(&mut self, v: char) -> (r: Result<(), Error>)
        ensures
            final(self).writer@ == old(self).writer@ + str_encoded(encode_utf8(seq![v])),
            r == Ok::<(), Error>(()),
    {
        let c = v as u32;
        proof {
            char_is_scalar(v);
            assert(encode_utf8(seq![v]) =~= encode_scalar(c) + encode_utf8(seq![v].drop_first()));
            assert(seq![v].drop_first() =~= Seq::<char>::empty());
        }
        let mut bytes: Vec<u8> = Vec::new();
        if c <= 0x7f {
            bytes.push((c & 0x7f) as u8);
        } else if c <= 0x7ff {
            bytes.push(0xc0 | ((c >> 6) & 0x1f) as u8);
            bytes.push(0x80 | (c & 0x3f) as u8);
        } else if c <= 0xffff {
            bytes.push(0xe0 | ((c >> 12) & 0x0f) as u8);
            bytes.push(0x80 | ((c >> 6) & 0x3f) as u8);
            bytes.push(0x80 | (c & 0x3f) as u8);
        } else {
            bytes.push(0xf0 | ((c >> 18) & 0x7) as u8);
            bytes.push(0x80 | ((c >> 12) & 0x3f) as u8);
            bytes.push(0x80 | ((c >> 6) & 0x3f) as u8);
            bytes.push(0x80 | (c & 0x3f) as u8);
        }
        assert(bytes@ =~= encode_utf8(seq![v]));
        let _ = write_str_bytes(&mut self.writer, bytes.as_slice());
        Ok(())
    }

    pub fn serialize_str(&mut self, v: &str) -> (r: Result<(), Error>)
        ensures
            final(self).writer@ == old(self).writer@ + str_encoded(v.spec_bytes()),
            r == outcome(len_fits(v.spec_bytes().len())),
    {
        match write_str_bytes(&mut self.writer, v.as_bytes()) {
            Ok(_) => Ok(()),
            Err(e) => Err(Error::Encode(e)),
        }
    }

    pub fn serialize_bytes(&mut self, v: &[u8]) -> (r: Result<(), Error>)
        ensures
            final(self).writer@ == old(self).writer@ + bin_encoded(v@),
            r == outcome(len_fits(v@.len())),
    {
        match BinaryEncoder(v).encode(&mut self.writer) {
            Ok(_) => Ok(()),
            Err(e) => Err(Error::Encode(e)),
        }
    }

    pub fn serialize_none(&mut self) -> (r: Result<(), Error>)
        ensures
            final(self).writer@ == old(self).writer@ + seq![NIL],
            r == Ok::<(), Error>(()),
    {
        let _ = NilEncoder.encode(&mut self.writer);
        Ok(())
    }

    pub fn serialize_unit(&mut self) -> (r: Result<(), Error>)
        ensures
            final(self).writer@ == old(self).writer@ + seq![NIL],
            r == Ok::<(), Error>(()),
    {
        self.serialize_none()
    }

    pub fn serialize_unit_struct(&mut self) -> (r: Result<(), Error>)
        ensures
            final(self).writer@ == old(self).writer@ + seq![NIL],
            r == Ok::<(), Error>(()),
    {
        self.serialize_unit()
    }

    /// A variant without data is written as its name.
    pub fn serialize_unit_variant(&mut self, variant: &str) -> (r: Result<(), Error>)
        ensures
            final(self).writer@ == old(self).writer@ + str_encoded(variant.spec_bytes()),
            r == outcome(len_fits(variant.spec_bytes().len())),
    {
        self.serialize_str(variant)
    }

    /// Writes what introduces a variant carrying one value; the value follows.
    pub fn serialize_newtype_variant(&mut self, variant: &str) -> (r: Result<(), Error>)
        ensures
            final(self).writer@ == old(self).writer@ + variant_prefix(variant.spec_bytes()),
            r == outcome(len_fits(variant.spec_bytes().len())),
    {
        let _ = MapFormatEncoder::new(1).encode(&mut self.writer);
        let r = self.serialize_str(variant);
        assert(self.writer@ =~= old(self).writer@ + variant_prefix(variant.spec_bytes()));
        r
    }

    /// Writes the header of an array of `len` elements; a length must be known.
    pub fn serialize_seq(&mut self, len: Option<usize>) -> (r: Result<(), Error>)
        ensures
            len is None ==> (r matches Err(Error::SeqLenNone) && final(self).writer@ == old(
                self,
            ).writer@),
            len matches Some(n) ==> (final(self).writer@ == old(self).writer@ + array_header_of(
                n as nat,
            ) && r == outcome(len_fits(n as nat))),
    {
        match len {
            None => Err(Error::SeqLenNone),
            Some(n) => match ArrayFormatEncoder(n).encode(&mut self.writer) {
                Ok(_) => Ok(()),
                Err(e) => Err(Error::Encode(e)),
            },
        }
    }

    pub fn serialize_tuple(&mut self, len: usize) -> (r: Result<(), Error>)
        ensures
            final(self).writer@ == old(self).writer@ + array_header_of(len as nat),
            r == outcome(len_fits(len as nat)),
    {
        self.serialize_seq(Some(len))
    }

    pub fn serialize_tuple_struct(&mut self, len: usize) -> (r: Result<(), Error>)
        ensures
            final(self).writer@ == old(self).writer@ + array_header_of(len as nat),
            r == outcome(len_fits(len as nat)),
    {
        self.serialize_seq(Some(len))
    }

    /// Writes what introduces a variant carrying `len` values; the values follow.
    pub fn serialize_tuple_variant(&mut self, variant: &str, len: usize) -> (r: Result<(), Error>)
        ensures
            len_fits(variant.spec_bytes().len()) ==> final(self).writer@ == old(self).writer@
                + variant_prefix(variant.spec_bytes()) + array_header_of(len as nat),
            !len_fits(variant.spec_bytes().len()) ==> final(self).writer@ == old(self).writer@
                + variant_prefix(variant.spec_bytes()),
            r == outcome(len_fits(variant.spec_bytes().len()) && len_fits(len as nat)),
    {
        self.serialize_newtype_variant(variant)?;
        let r = self.serialize_tuple(len);
        assert(self.writer@ =~= old(self).writer@ + variant_prefix(variant.spec_bytes())
            + array_header_of(len as nat));
        r
    }

    /// Writes the header of a map of `len` entries; a length must be known.
    pub fn serialize_map(&mut self, len: Option<usize>) -> (r: Result<(), Error>)
        ensures
            len is None ==> (r matches Err(Error::SeqLenNone) && final(self).writer@ == old(
                self,
            ).writer@),
            len matches Some(n) ==> (final(self).writer@ == old(self).writer@ + map_header_of(
                n as nat,
            ) && r == outcome(len_fits(n as nat))),
    {
        match len {
            None => Err(Error::SeqLenNone),
            Some(n) => match MapFormatEncoder::new(n).encode(&mut self.writer) {
                Ok(_) => Ok(()),
                Err(e) => Err(Error::Encode(e)),
            },
        }
    }

    /// A struct is written as a map from its field names to their values.
    pub fn serialize_struct(&mut self, len: usize) -> (r: Result<(), Error>)
        ensures
            final(self).writer@ == old(self).writer@ + map_header_of(len as nat),
            r == outcome(len_fits(len as nat)),
    {
        self.serialize_map(Some(len))
    }

    /// Writes what introduces a struct variant of `len` fields; the fields follow.
    pub fn serialize_struct_variant(&mut self, variant: &str, len: usize) -> (r: Result<
        (),
        Error,
    >)
        ensures
            len_fits(variant.spec_bytes().len()) ==> final(self).writer@ == old(self).writer@
                + variant_prefix(variant.spec_bytes()) + map_header_of(len as nat),
            !len_fits(variant.spec_bytes().len()) ==> final(self).writer@ == old(self).writer@
                + variant_prefix(variant.spec_bytes()),
            r == outcome(len_fits(variant.spec_bytes().len()) && len_fits(len as nat)),
    {
        self.serialize_newtype_variant(variant)?;
        let r = self.serialize_struct(len);
        assert(self.writer@ =~= old(self).writer@ + variant_prefix(variant.spec_bytes())
            + map_header_of(len as nat));
        r
    }

    /// Appends the bytes an extension serializer wrote.
    pub fn serialize_ext(&mut self, ext: &ext::SerializeExt) -> (r: Result<(), Error>)
        ensures
            final(self).writer@ == old(self).writer@ + ext.writer@,
            r == Ok::<(), Error>(()),
    {
        push_slice(&mut self.writer, ext.writer.as_slice());
        Ok(())
    }
}

} // verus!
