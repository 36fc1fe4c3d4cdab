//! Strings: the str format family.
use super::{lemma_marked, lemma_skip_skip, spec_read_be, with_marker, Decode, Error, NbyteReader};
use crate::formats::{spec_from_byte, Format};
use vstd::prelude::*;
use vstd::string::*;
use vstd::utf8::{decode_utf8, encode_utf8_decode_utf8, valid_utf8};

verus! {

/// `core::str::from_utf8`, as its documentation states it: the bytes are accepted exactly
/// when they are valid UTF-8, and the string it returns consists of those same bytes.
#[verifier::external_body]
fn utf8_str<'a>(bytes: &'a [u8]) -> (r: Option<&'a str>)
    ensures
        r is Some <==> valid_utf8(bytes@),
        r matches Some(s) ==> s.spec_bytes() == bytes@,
{
    core::str::from_utf8(bytes).ok()
}

/// What reading the length of a string yields: the length and the bytes the length field took.
pub open spec fn spec_str_len(format: Format, buf: Seq<u8>) -> Result<(nat, nat), Error> {
    match format {
        Format::FixStr(n) => Ok((n as nat, 0)),
        Format::Str8 => spec_read_be(buf, 1),
        Format::Str16 => spec_read_be(buf, 2),
        Format::Str32 => spec_read_be(buf, 4),
        _ => Err(Error::UnexpectedFormat),
    }
}

/// What decoding a string whose marker was `format` from the bytes `buf` that follow yields.
pub open spec fn spec_str_with_format(format: Format, buf: Seq<u8>) -> Result<(Seq<char>, nat), Error> {
    match spec_str_len(format, buf) {
        Err(e) => Err(e),
        Ok((len, h)) => {
            let rest = buf.skip(h as int);
            if rest.len() < len {
                Err(Error::EofData)
            } else if !valid_utf8(rest.take(len as int)) {
                Err(Error::InvalidData)
            } else {
                Ok((decode_utf8(rest.take(len as int)), h + len))
            }
        },
    }
}

/// Decodes a string, borrowing it from the input.
pub struct StrDecoder;

impl<'a> Decode<'a> for StrDecoder {
    type Value = &'a str;

    open spec fn spec_decode(buf: Seq<u8>) -> Result<(Seq<char>, nat), Error> {
        with_marker(buf, Self::spec_decode_with_format(spec_from_byte(buf[0]), buf.drop_first()))
    }

    open spec fn spec_decode_with_format(format: Format, buf: Seq<u8>) -> Result<(Seq<char>, nat), Error> {
        spec_str_with_format(format, buf)
    }

    fn decode(buf: &'a [u8]) -> (r: Result<(&'a str, &'a [u8]), Error>) {
        let (format, rest) = Format::decode(buf)?;
        let r = match format {
            Format::FixStr(_) | Format::Str8 | Format::Str16 | Format::Str32 => {
                Self::decode_with_format(format, rest)
            },
            _ => Err(Error::UnexpectedFormat),
        };
        proof {
            lemma_marked(buf@, rest@, r, Self::spec_decode_with_format(format, rest@));
        }
        r
    }

    fn decode_with_format(format: Format, buf: &'a [u8]) -> (r: Result<(&'a str, &'a [u8]), Error>) {
        let (len, rest) = match format {
            Format::FixStr(n) => {
                assert(buf@.skip(0) =~= buf@);
                (n as usize, buf)
            },
            Format::Str8 => match NbyteReader::<1>::read(buf) {
                Ok(x) => x,
                Err(e) => return Err(e),
            },
            Format::Str16 => match NbyteReader::<2>::read(buf) {
                Ok(x) => x,
                Err(e) => return Err(e),
            },
            Format::Str32 => match NbyteReader::<4>::read(buf) {
                Ok(x) => x,
                Err(e) => return Err(e),
            },
            _ => return Err(Error::UnexpectedFormat),
        };
        let ghost h: nat = match spec_str_len(format, buf@) {
            Ok((_, h)) => h,
            Err(_) => 0,
        };
        assert(spec_str_len(format, buf@) == Ok::<(nat, nat), Error>((len as nat, h)));
        assert(rest@ == buf@.skip(h as int));
        if rest.len() < len {
            return Err(Error::EofData);
        }
        let (data, tail) = rest.split_at(len);
        assert(data@ =~= rest@.take(len as int));
        match utf8_str(data) {
            Some(s) => {
                proof {
                    encode_utf8_decode_utf8(s@);
                    lemma_skip_skip(buf@, h as int, len as int);
                }
                assert(tail@ =~= rest@.skip(len as int));
                assert(rest@ == buf@.skip(h as int));
                assert(s@ == decode_utf8(data@));
                assert(spec_str_with_format(format, buf@) == Ok::<(Seq<char>, nat), Error>((s@, (h + len) as nat)));
                assert(h + len <= buf@.len());
                assert(tail@ == buf@.skip(h + len));
                assert((&*s).deep_view() == s@);
                Ok((s, tail))
            },
            None => {
                assert(!valid_utf8(data@));
                assert(spec_str_with_format(format, buf@) == Err::<(Seq<char>, nat), Error>(Error::InvalidData));
                Err(Error::InvalidData)
            },
        }
    }
}

impl<'a> Decode<'a> for &'a str {
    type Value = &'a str;

    open spec fn spec_decode(buf: Seq<u8>) -> Result<(Seq<char>, nat), Error> {
        StrDecoder::spec_decode(buf)
    }

    open spec fn spec_decode_with_format(format: Format, buf: Seq<u8>) -> Result<(Seq<char>, nat), Error> {
        StrDecoder::spec_decode_with_format(format, buf)
    }

    fn decode(buf: &'a [u8]) -> (r: Result<(&'a str, &'a [u8]), Error>) {
        StrDecoder::decode(buf)
    }

    fn decode_with_format(format: Format, buf: &'a [u8]) -> (r: Result<(&'a str, &'a [u8]), Error>) {
        StrDecoder::decode_with_format(format, buf)
    }
}

} // verus!
