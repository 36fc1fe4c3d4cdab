//! Integers: the int format family.
use super::{lemma_marked, with_marker, read_fixed, spec_read_be, Decode, Error};
use crate::bytes::{from_twos, lemma_be_value_bound, lemma_pow256_values};
use crate::formats::{spec_from_byte, Format};
use vstd::prelude::*;

verus! {

/// What decoding an `n`-byte unsigned payload yields.
pub open spec fn spec_uint_payload(buf: Seq<u8>, n: nat) -> Result<(nat, nat), Error> {
    spec_read_be(buf, n)
}

/// What decoding an `n`-byte two's complement payload yields.
pub open spec fn spec_sint_payload(buf: Seq<u8>, n: nat) -> Result<(int, nat), Error> {
    match spec_read_be(buf, n) {
        Ok((v, k)) => Ok((from_twos(v, n), k)),
        Err(e) => Err(e),
    }
}

/// Reads an `n`-byte payload; the value is below `256^n`.
fn read_payload<'a>(buf: &'a [u8], n: usize) -> (r: Result<(u64, &'a [u8]), Error>)
    requires
        n == 1 || n == 2 || n == 4 || n == 8,
    ensures
        match spec_read_be(buf@, n as nat) {
            Ok((v, k)) => r matches Ok((x, rest)) && x == v && k <= buf@.len() && rest@ == buf@.skip(
                k as int,
            ) && (n == 1 ==> x < 0x100) && (n == 2 ==> x < 0x1_0000) && (n == 4 ==> x
                < 0x1_0000_0000),
            Err(e) => r == Err::<(u64, &'a [u8]), Error>(e),
        },
{
    let r = read_fixed(buf, n);
    proof {
        lemma_be_value_bound(buf@.take(n as int));
        lemma_pow256_values();
    }
    r
}

impl<'a> Decode<'a> for u8 {
    type Value = u8;

    open spec fn spec_decode(buf: Seq<u8>) -> Result<(u8, nat), Error> {
        with_marker(buf, Self::spec_decode_with_format(spec_from_byte(buf[0]), buf.drop_first()))
    }

    open spec fn spec_decode_with_format(format: Format, buf: Seq<u8>) -> Result<(u8, nat), Error> {
        match format {
            Format::PositiveFixInt(v) => Ok((v, 0)),
            Format::Uint8 => match spec_uint_payload(buf, 1) {
                Ok((v, k)) => Ok((v as u8, k)),
                Err(e) => Err(e),
            },
            _ => Err(Error::UnexpectedFormat),
        }
    }

    fn decode(buf: &'a [u8]) -> (r: Result<(u8, &'a [u8]), Error>) {
        let (format, rest) = Format::decode(buf)?;
        let r = Self::decode_with_format(format, rest);
        proof {
            lemma_marked(buf@, rest@, r, Self::spec_decode_with_format(format, rest@));
        }
        r
    }

    fn decode_with_format(format: Format, buf: &'a [u8]) -> (r: Result<(u8, &'a [u8]), Error>) {
        match format {
            Format::PositiveFixInt(v) => {
                assert(buf@.skip(0) =~= buf@);
                Ok((v, buf))
            },
            Format::Uint8 => {
                let (v, rest) = read_payload(buf, 1)?;
                Ok((v as u8, rest))
            },
            _ => Err(Error::UnexpectedFormat),
        }
    }
}

impl<'a> Decode<'a> for u16 {
    type Value = u16;

    open spec fn spec_decode(buf: Seq<u8>) -> Result<(u16, nat), Error> {
        with_marker(buf, Self::spec_decode_with_format(spec_from_byte(buf[0]), buf.drop_first()))
    }

    open spec fn spec_decode_with_format(format: Format, buf: Seq<u8>) -> Result<(u16, nat), Error> {
        match format {
            Format::Uint16 => match spec_uint_payload(buf, 2) {
                Ok((v, k)) => Ok((v as u16, k)),
                Err(e) => Err(e),
            },
            _ => Err(Error::UnexpectedFormat),
        }
    }

    fn decode(buf: &'a [u8]) -> (r: Result<(u16, &'a [u8]), Error>) {
        let (format, rest) = Format::decode(buf)?;
        let r = Self::decode_with_format(format, rest);
        proof {
            lemma_marked(buf@, rest@, r, Self::spec_decode_with_format(format, rest@));
        }
        r
    }

    fn decode_with_format(format: Format, buf: &'a [u8]) -> (r: Result<(u16, &'a [u8]), Error>) {
        match format {
            Format::Uint16 => {
                let (v, rest) = read_payload(buf, 2)?;
                Ok((v as u16, rest))
            },
            _ => Err(Error::UnexpectedFormat),
        }
    }
}

impl<'a> Decode<'a> for u32 {
    type Value = u32;

    open spec fn spec_decode(buf: Seq<u8>) -> Result<(u32, nat), Error> {
        with_marker(buf, Self::spec_decode_with_format(spec_from_byte(buf[0]), buf.drop_first()))
    }

    open spec fn spec_decode_with_format(format: Format, buf: Seq<u8>) -> Result<(u32, nat), Error> {
        match format {
            Format::Uint32 => match spec_uint_payload(buf, 4) {
                Ok((v, k)) => Ok((v as u32, k)),
                Err(e) => Err(e),
            },
            _ => Err(Error::UnexpectedFormat),
        }
    }

    fn decode(buf: &'a [u8]) -> (r: Result<(u32, &'a [u8]), Error>) {
        let (format, rest) = Format::decode(buf)?;
        let r = Self::decode_with_format(format, rest);
        proof {
            lemma_marked(buf@, rest@, r, Self::spec_decode_with_format(format, rest@));
        }
        r
    }

    fn decode_with_format(format: Format, buf: &'a [u8]) -> (r: Result<(u32, &'a [u8]), Error>) {
        match format {
            Format::Uint32 => {
                let (v, rest) = read_payload(buf, 4)?;
                Ok((v as u32, rest))
            },
            _ => Err(Error::UnexpectedFormat),
        }
    }
}

impl<'a> Decode<'a> for u64 {
    type Value = u64;

    open spec fn spec_decode(buf: Seq<u8>) -> Result<(u64, nat), Error> {
        with_marker(buf, Self::spec_decode_with_format(spec_from_byte(buf[0]), buf.drop_first()))
    }

    open spec fn spec_decode_with_format(format: Format, buf: Seq<u8>) -> Result<(u64, nat), Error> {
        match format {
            Format::Uint64 => match spec_uint_payload(buf, 8) {
                Ok((v, k)) => Ok((v as u64, k)),
                Err(e) => Err(e),
            },
            _ => Err(Error::UnexpectedFormat),
        }
    }

    fn decode(buf: &'a [u8]) -> (r: Result<(u64, &'a [u8]), Error>) {
        let (format, rest) = Format::decode(buf)?;
        let r = Self::decode_with_format(format, rest);
        proof {
            lemma_marked(buf@, rest@, r, Self::spec_decode_with_format(format, rest@));
        }
        r
    }

    fn decode_with_format(format: Format, buf: &'a [u8]) -> (r: Result<(u64, &'a [u8]), Error>) {
        match format {
            Format::Uint64 => read_payload(buf, 8),
            _ => Err(Error::UnexpectedFormat),
        }
    }
}

impl<'a> Decode<'a> for i8 {
    type Value = i8;

    open spec fn spec_decode(buf: Seq<u8>) -> Result<(i8, nat), Error> {
        with_marker(buf, Self::spec_decode_with_format(spec_from_byte(buf[0]), buf.drop_first()))
    }

    open spec fn spec_decode_with_format(format: Format, buf: Seq<u8>) -> Result<(i8, nat), Error> {
        match format {
            Format::NegativeFixInt(v) => Ok((v, 0)),
            Format::Int8 => match spec_sint_payload(buf, 1) {
                Ok((v, k)) => Ok((v as i8, k)),
                Err(e) => Err(e),
            },
            _ => Err(Error::UnexpectedFormat),
        }
    }

    fn decode(buf: &'a [u8]) -> (r: Result<(i8, &'a [u8]), Error>) {
        let (format, rest) = Format::decode(buf)?;
        let r = Self::decode_with_format(format, rest);
        proof {
            lemma_marked(buf@, rest@, r, Self::spec_decode_with_format(format, rest@));
        }
        r
    }

    fn decode_with_format(format: Format, buf: &'a [u8]) -> (r: Result<(i8, &'a [u8]), Error>) {
        match format {
            Format::NegativeFixInt(v) => {
                assert(buf@.skip(0) =~= buf@);
                Ok((v, buf))
            },
            Format::Int8 => {
                let (v, rest) = read_payload(buf, 1)?;
                proof {
                    lemma_pow256_values();
                }
                let x: i8 = if v >= 0x80 {
                    (v as i16 - 0x100) as i8
                } else {
                    v as i8
                };
                Ok((x, rest))
            },
            _ => Err(Error::UnexpectedFormat),
        }
    }
}

impl<'a> Decode<'a> for i16 {
    type Value = i16;

    open spec fn spec_decode(buf: Seq<u8>) -> Result<(i16, nat), Error> {
        with_marker(buf, Self::spec_decode_with_format(spec_from_byte(buf[0]), buf.drop_first()))
    }

    open spec fn spec_decode_with_format(format: Format, buf: Seq<u8>) -> Result<(i16, nat), Error> {
        match format {
            Format::Int16 => match spec_sint_payload(buf, 2) {
                Ok((v, k)) => Ok((v as i16, k)),
                Err(e) => Err(e),
            },
            _ => Err(Error::UnexpectedFormat),
        }
    }

    fn decode(buf: &'a [u8]) -> (r: Result<(i16, &'a [u8]), Error>) {
        let (format, rest) = Format::decode(buf)?;
        let r = Self::decode_with_format(format, rest);
        proof {
            lemma_marked(buf@, rest@, r, Self::spec_decode_with_format(format, rest@));
        }
        r
    }

    fn decode_with_format(format: Format, buf: &'a [u8]) -> (r: Result<(i16, &'a [u8]), Error>) {
        match format {
            Format::Int16 => {
                let (v, rest) = read_payload(buf, 2)?;
                proof {
                    lemma_pow256_values();
                }
                let x: i16 = if v >= 0x8000 {
                    (v as i32 - 0x1_0000) as i16
                } else {
                    v as i16
                };
                Ok((x, rest))
            },
            _ => Err(Error::UnexpectedFormat),
        }
    }
}

impl<'a> Decode<'a> for i32 {
    type Value = i32;

    open spec fn spec_decode(buf: Seq<u8>) -> Result<(i32, nat), Error> {
        with_marker(buf, Self::spec_decode_with_format(spec_from_byte(buf[0]), buf.drop_first()))
    }

    open spec fn spec_decode_with_format(format: Format, buf: Seq<u8>) -> Result<(i32, nat), Error> {
        match format {
            Format::Int32 => match spec_sint_payload(buf, 4) {
                Ok((v, k)) => Ok((v as i32, k)),
                Err(e) => Err(e),
            },
            _ => Err(Error::UnexpectedFormat),
        }
    }

    fn decode(buf: &'a [u8]) -> (r: Result<(i32, &'a [u8]), Error>) {
        let (format, rest) = Format::decode(buf)?;
        let r = Self::decode_with_format(format, rest);
        proof {
            lemma_marked(buf@, rest@, r, Self::spec_decode_with_format(format, rest@));
        }
        r
    }

    fn decode_with_format(format: Format, buf: &'a [u8]) -> (r: Result<(i32, &'a [u8]), Error>) {
        match format {
            Format::Int32 => {
                let (v, rest) = read_payload(buf, 4)?;
                proof {
                    lemma_pow256_values();
                }
                let x: i32 = if v >= 0x8000_0000 {
                    (v as i64 - 0x1_0000_0000) as i32
                } else {
                    v as i32
                };
                Ok((x, rest))
            },
            _ => Err(Error::UnexpectedFormat),
        }
    }
}

impl<'a> Decode<'a> for i64 {
    type Value = i64;

    open spec fn spec_decode(buf: Seq<u8>) -> Result<(i64, nat), Error> {
        with_marker(buf, Self::spec_decode_with_format(spec_from_byte(buf[0]), buf.drop_first()))
    }

    open spec fn spec_decode_with_format(format: Format, buf: Seq<u8>) -> Result<(i64, nat), Error> {
        match format {
            Format::Int64 => match spec_sint_payload(buf, 8) {
                Ok((v, k)) => Ok((v as i64, k)),
                Err(e) => Err(e),
            },
            _ => Err(Error::UnexpectedFormat),
        }
    }

    fn decode(buf: &'a [u8]) -> (r: Result<(i64, &'a [u8]), Error>) {
        let (format, rest) = Format::decode(buf)?;
        let r = Self::decode_with_format(format, rest);
        proof {
            lemma_marked(buf@, rest@, r, Self::spec_decode_with_format(format, rest@));
        }
        r
    }

    fn decode_with_format(format: Format, buf: &'a [u8]) -> (r: Result<(i64, &'a [u8]), Error>) {
        match format {
            Format::Int64 => {
                let (v, rest) = read_payload(buf, 8)?;
                proof {
                    lemma_pow256_values();
                }
                let x: i64 = if v >= 0x8000_0000_0000_0000 {
                    (v - 0x8000_0000_0000_0000) as i64 + i64::MIN
                } else {
                    v as i64
                };
                Ok((x, rest))
            },
            _ => Err(Error::UnexpectedFormat),
        }
    }
}

} // verus!
