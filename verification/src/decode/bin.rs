//! Byte strings: the bin format family.
use super::{lemma_marked, lemma_skip_skip, spec_read_be, with_marker, Decode, Error, NbyteReader};
use crate::formats::{spec_from_byte, Format};
use vstd::prelude::*;

verus! {

/// What reading the length of a byte string yields: the length and the bytes the length
/// field took.
pub open spec fn spec_bin_len(format: Format, buf: Seq<u8>) -> Result<(nat, nat), Error> {
    match format {
        Format::Bin8 => spec_read_be(buf, 1),
        Format::Bin16 => spec_read_be(buf, 2),
        Format::Bin32 => spec_read_be(buf, 4),
        _ => Err(Error::UnexpectedFormat),
    }
}

/// What taking `len` bytes of data after a length field of `h` bytes yields.
pub open spec fn spec_take_data(buf: Seq<u8>, len: nat, h: nat) -> Result<(Seq<u8>, nat), Error> {
    let rest = buf.skip(h as int);
    if rest.len() < len {
        Err(Error::EofData)
    } else {
        Ok((rest.take(len as int), h + len))
    }
}

/// Takes `len` bytes of data from `rest`, which is `buf` after a length field of `h` bytes.
pub fn take_data<'a>(buf: &'a [u8], rest: &'a [u8], len: usize, Ghost(h): Ghost<nat>) -> (r: Result<
    (&'a [u8], &'a [u8]),
    Error,
>)
    requires
        h <= buf@.len(),
        rest@ == buf@.skip(h as int),
    ensures
        match spec_take_data(buf@, len as nat, h) {
            Ok((d, n)) => r matches Ok((x, tail)) && x@ == d && n <= buf@.len() && tail@ == buf@.skip(
                n as int,
            ),
            Err(e) => r == Err::<(&'a [u8], &'a [u8]), Error>(e),
        },
{
    if rest.len() < len {
        return Err(Error::EofData);
    }
    let (data, tail) = rest.split_at(len);
    proof {
        lemma_skip_skip(buf@, h as int, len as int);
    }
    assert(data@ =~= rest@.take(len as int));
    assert(tail@ =~= rest@.skip(len as int));
    Ok((data, tail))
}

/// Decodes a byte string, borrowing it from the input.
pub struct BinDecoder;

impl<'a> Decode<'a> for BinDecoder {
    type Value = &'a [u8];

    open spec fn spec_decode(buf: Seq<u8>) -> Result<(Seq<u8>, nat), Error> {
        with_marker(buf, Self::spec_decode_with_format(spec_from_byte(buf[0]), buf.drop_first()))
    }

    open spec fn spec_decode_with_format(format: Format, buf: Seq<u8>) -> Result<(Seq<u8>, nat), Error> {
        match spec_bin_len(format, buf) {
            Err(e) => Err(e),
            Ok((len, h)) => spec_take_data(buf, len, h),
        }
    }

    fn decode(buf: &'a [u8]) -> (r: Result<(&'a [u8], &'a [u8]), Error>) {
        let (format, rest) = Format::decode(buf)?;
        let r = Self::decode_with_format(format, rest);
        proof {
            lemma_marked(buf@, rest@, r, Self::spec_decode_with_format(format, rest@));
        }
        r
    }

    fn decode_with_format(format: Format, buf: &'a [u8]) -> (r: Result<(&'a [u8], &'a [u8]), Error>) {
        let (len, rest) = match format {
            Format::Bin8 => NbyteReader::<1>::read(buf),
            Format::Bin16 => NbyteReader::<2>::read(buf),
            Format::Bin32 => NbyteReader::<4>::read(buf),
            _ => Err(Error::UnexpectedFormat),
        }?;
        let ghost h: nat = match spec_bin_len(format, buf@) {
            Ok((_, h)) => h,
            Err(_) => 0,
        };
        let r = take_data(buf, rest, len, Ghost(h));
        assert(forall|x: &'a [u8]| #[trigger] x.deep_view() == x@);
        r
    }
}

} // verus!
