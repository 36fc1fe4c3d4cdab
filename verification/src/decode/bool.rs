//! Booleans: the bool format family.
use super::{lemma_marked, with_marker, Decode, Error};
use crate::formats::{spec_from_byte, Format};
use vstd::prelude::*;

verus! {

impl<'a> Decode<'a> for bool {
    type Value = bool;

    open spec fn spec_decode(buf: Seq<u8>) -> Result<(bool, nat), Error> {
        with_marker(buf, Self::spec_decode_with_format(spec_from_byte(buf[0]), buf.drop_first()))
    }

    open spec fn spec_decode_with_format(format: Format, buf: Seq<u8>) -> Result<(bool, nat), Error> {
        match format {
            Format::True => Ok((true, 0)),
            Format::False => Ok((false, 0)),
            _ => Err(Error::UnexpectedFormat),
        }
    }

    fn decode(buf: &'a [u8]) -> (r: Result<(bool, &'a [u8]), Error>) {
        let (format, rest) = Format::decode(buf)?;
        let r = Self::decode_with_format(format, rest);
        proof {
            lemma_marked(buf@, rest@, r, Self::spec_decode_with_format(format, rest@));
        }
        r
    }

    fn decode_with_format(format: Format, buf: &'a [u8]) -> (r: Result<(bool, &'a [u8]), Error>) {
        assert(buf@.skip(0) =~= buf@);
        let val = match format {
            Format::True => true,
            Format::False => false,
            _ => return Err(Error::UnexpectedFormat),
        };
        Ok((val, buf))
    }
}

} // verus!
