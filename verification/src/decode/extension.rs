//! Extensions: the ext format family.
use super::bin::{spec_take_data, take_data};
use super::{lemma_marked, lemma_skip_skip, spec_read_be, with_marker, Decode, Error, NbyteReader};
use crate::formats::{spec_from_byte, Format};
use vstd::prelude::*;

verus! {

/// What reading the data length of an extension yields: the length and the bytes the length
/// field took.
pub open spec fn spec_ext_len(format: Format, buf: Seq<u8>) -> Result<(nat, nat), Error> {
    match format {
        Format::FixExt1 => Ok((1, 0)),
        Format::FixExt2 => Ok((2, 0)),
        Format::FixExt4 => Ok((4, 0)),
        Format::FixExt8 => Ok((8, 0)),
        Format::FixExt16 => Ok((16, 0)),
        Format::Ext8 => spec_read_be(buf, 1),
        Format::Ext16 => spec_read_be(buf, 2),
        Format::Ext32 => spec_read_be(buf, 4),
        _ => Err(Error::UnexpectedFormat),
    }
}

/// The extension type carried by a byte.
pub open spec fn kind_of(b: u8) -> i8 {
    if b < 0x80 {
        b as i8
    } else {
        (b - 256) as i8
    }
}

/// What decoding the type and data of an extension whose marker was `format` yields.
pub open spec fn spec_ext_with_format(format: Format, buf: Seq<u8>) -> Result<
    ((i8, Seq<u8>), nat),
    Error,
> {
    match spec_ext_len(format, buf) {
        Err(e) => Err(e),
        Ok((len, h)) => if buf.len() < h + 1 {
            Err(Error::EofData)
        } else {
            match spec_take_data(buf, len, h + 1) {
                Err(e) => Err(e),
                Ok((d, n)) => Ok(((kind_of(buf[h as int]), d), n)),
            }
        },
    }
}

/// Reads the data length of an extension: what follows its marker up to its type byte.
pub struct DeserializeExt {
    pub data_len: usize,
}

impl DeserializeExt {
    /// Reads the data length of an extension whose marker was `format`.
    pub fn new<'a>(format: Format, buf: &'a [u8]) -> (r: Result<(DeserializeExt, &'a [u8]), Error>)
        ensures
            match spec_ext_len(format, buf@) {
                Ok((v, n)) => r matches Ok((x, rest)) && x.data_len == v && n <= buf@.len()
                    && rest@ == buf@.skip(n as int),
                Err(e) => r == Err::<(DeserializeExt, &'a [u8]), Error>(e),
            },
    {
        let (data_len, rest) = match format {
            Format::FixExt1 => (1, buf),
            Format::FixExt2 => (2, buf),
            Format::FixExt4 => (4, buf),
            Format::FixExt8 => (8, buf),
            Format::FixExt16 => (16, buf),
            Format::Ext8 => NbyteReader::<1>::read(buf)?,
            Format::Ext16 => NbyteReader::<2>::read(buf)?,
            Format::Ext32 => NbyteReader::<4>::read(buf)?,
            _ => return Err(Error::UnexpectedFormat),
        };
        assert(buf@.skip(0) =~= buf@);
        Ok((DeserializeExt { data_len }, rest))
    }
}

/// Decodes an extension to its type and its data, borrowing the data from the input.
pub struct ExtensionDecoder;

impl<'a> Decode<'a> for ExtensionDecoder {
    type Value = (i8, &'a [u8]);

    open spec fn spec_decode(buf: Seq<u8>) -> Result<((i8, Seq<u8>), nat), Error> {
        with_marker(buf, Self::spec_decode_with_format(spec_from_byte(buf[0]), buf.drop_first()))
    }

    open spec fn spec_decode_with_format(format: Format, buf: Seq<u8>) -> Result<
        ((i8, Seq<u8>), nat),
        Error,
    > {
        spec_ext_with_format(format, buf)
    }

    fn decode(buf: &'a [u8]) -> (r: Result<((i8, &'a [u8]), &'a [u8]), Error>) {
        let (format, rest) = Format::decode(buf)?;
        let r = Self::decode_with_format(format, rest);
        proof {
            lemma_marked(buf@, rest@, r, Self::spec_decode_with_format(format, rest@));
        }
        r
    }

    fn decode_with_format(format: Format, buf: &'a [u8]) -> (r: Result<
        ((i8, &'a [u8]), &'a [u8]),
        Error,
    >) {
        let (ext, rest) = DeserializeExt::new(format, buf)?;
        let ghost h: nat = match spec_ext_len(format, buf@) {
            Ok((_, h)) => h,
            Err(_) => 0,
        };
        if rest.len() < 1 {
            return Err(Error::EofData);
        }
        let b = rest[0];
        let kind: i8 = if b < 0x80 {
            b as i8
        } else {
            (b as i16 - 256) as i8
        };
        let (_, rest2) = rest.split_at(1);
        proof {
            lemma_skip_skip(buf@, h as int, 1);
        }
        assert(kind == kind_of(buf@[h as int]));
        let (data, tail) = take_data(buf, rest2, ext.data_len, Ghost(h + 1))?;
        assert(data.deep_view() =~= data@);
        assert((kind, data).deep_view() == (kind_of(buf@[h as int]), data@));
        Ok(((kind, data), tail))
    }
}

} // verus!
