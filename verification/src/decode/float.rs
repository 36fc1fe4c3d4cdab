//! Floating-point numbers: the float format family, decoded to their IEEE 754 bit patterns.
use super::{lemma_marked, with_marker, read_fixed, spec_read_be, Decode, Error};
use crate::bytes::{lemma_be_value_bound, lemma_pow256_values};
use crate::formats::{spec_from_byte, Format};
use vstd::prelude::*;

verus! {

/// Decodes `float 32` to the bit pattern of the `f32`.
pub struct Float32Decoder;

/// Decodes `float 64` to the bit pattern of the `f64`.
pub struct Float64Decoder;

impl<'a> Decode<'a> for Float32Decoder {
    type Value = u32;

    open spec fn spec_decode(buf: Seq<u8>) -> Result<(u32, nat), Error> {
        with_marker(buf, Self::spec_decode_with_format(spec_from_byte(buf[0]), buf.drop_first()))
    }

    open spec fn spec_decode_with_format(format: Format, buf: Seq<u8>) -> Result<(u32, nat), Error> {
        match format {
            Format::Float32 => match spec_read_be(buf, 4) {
                Ok((v, k)) => Ok((v as u32, k)),
                Err(e) => Err(e),
            },
            _ => Err(Error::UnexpectedFormat),
        }
    }

    fn decode(buf: &'a [u8]) -> (r: Result<(u32, &'a [u8]), Error>) {
        let (format, rest) = Format::decode(buf)?;
        let r = Self::decode_with_format(format, rest);
        proof {
            lemma_marked(buf@, rest@, r, Self::spec_decode_with_format(format, rest@));
        }
        r
    }

    fn decode_with_format(format: Format, buf: &'a [u8]) -> (r: Result<(u32, &'a [u8]), Error>) {
        match format {
            Format::Float32 => {
                let (v, rest) = read_fixed(buf, 4)?;
                proof {
                    lemma_be_value_bound(buf@.take(4));
                    lemma_pow256_values();
                }
                Ok((v as u32, rest))
            },
            _ => Err(Error::UnexpectedFormat),
        }
    }
}

impl<'a> Decode<'a> for Float64Decoder {
    type Value = u64;

    open spec fn spec_decode(buf: Seq<u8>) -> Result<(u64, nat), Error> {
        with_marker(buf, Self::spec_decode_with_format(spec_from_byte(buf[0]), buf.drop_first()))
    }

    open spec fn spec_decode_with_format(format: Format, buf: Seq<u8>) -> Result<(u64, nat), Error> {
        match format {
            Format::Float64 => match spec_read_be(buf, 8) {
                Ok((v, k)) => Ok((v as u64, k)),
                Err(e) => Err(e),
            },
            _ => Err(Error::UnexpectedFormat),
        }
    }

    fn decode(buf: &'a [u8]) -> (r: Result<(u64, &'a [u8]), Error>) {
        let (format, rest) = Format::decode(buf)?;
        let r = Self::decode_with_format(format, rest);
        proof {
            lemma_marked(buf@, rest@, r, Self::spec_decode_with_format(format, rest@));
        }
        r
    }

    fn decode_with_format(format: Format, buf: &'a [u8]) -> (r: Result<(u64, &'a [u8]), Error>) {
        match format {
            Format::Float64 => read_fixed(buf, 8),
            _ => Err(Error::UnexpectedFormat),
        }
    }
}

} // verus!
