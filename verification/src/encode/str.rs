//! Strings: the str format family.
use super::{len_fits, str_header, write_str_header, Encode, Error};
use crate::bytes::{push_slice};
use vstd::prelude::*;
use vstd::string::*;

verus! {

/// The encoding of a string with UTF-8 bytes `bytes`.
pub open spec fn str_encoded(bytes: Seq<u8>) -> Seq<u8> {
    if len_fits(bytes.len()) {
        str_header(bytes.len()) + bytes
    } else {
        seq![]
    }
}

/// Appends the encoding of a string given by its UTF-8 bytes.
pub fn write_str_bytes(buf: &mut Vec<u8>, bytes: &[u8]) -> (r: Result<usize, Error>)
    ensures
        final(buf)@ == old(buf)@ + str_encoded(bytes@),
        r == super::encode_result(len_fits(bytes@.len()), str_encoded(bytes@), Error::InvalidFormat),
{
    let len = bytes.len();
    if len > 0xffff_ffff {
        assert(buf@ =~= old(buf)@ + str_encoded(bytes@));
        return Err(Error::InvalidFormat);
    }
    let start = buf.len();
    write_str_header(buf, len);
    push_slice(buf, bytes);
    assert(buf@ =~= old(buf)@ + str_encoded(bytes@));
    Ok(buf.len() - start)
}

/// Encodes a string slice.
pub struct StrEncoder<'s>(pub &'s str);

impl<'s> Encode for StrEncoder<'s> {
    open spec fn encoded(&self) -> Seq<u8> {
        str_encoded(self.0.spec_bytes())
    }

    open spec fn encodable(&self) -> bool {
        len_fits(self.0.spec_bytes().len())
    }

    open spec fn failure(&self) -> Error {
        Error::InvalidFormat
    }

    fn encode(&self, buf: &mut Vec<u8>) -> (r: Result<usize, Error>) {
        write_str_bytes(buf, self.0.as_bytes())
    }
}

impl<'s> Encode for &'s str {
    open spec fn encoded(&self) -> Seq<u8> {
        str_encoded((*self).spec_bytes())
    }

    open spec fn encodable(&self) -> bool {
        len_fits((*self).spec_bytes().len())
    }

    open spec fn failure(&self) -> Error {
        Error::InvalidFormat
    }

    fn encode(&self, buf: &mut Vec<u8>) -> (r: Result<usize, Error>) {
        StrEncoder(*self).encode(buf)
    }
}

} // verus!
