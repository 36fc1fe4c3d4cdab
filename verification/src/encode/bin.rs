//! Byte strings: the bin format family.
use super::{bin_header, len_fits, write_bin_header, Encode, Error};
use crate::bytes::{push_slice};
use vstd::prelude::*;

verus! {

/// The encoding of the byte string `data`.
pub open spec fn bin_encoded(data: Seq<u8>) -> Seq<u8> {
    if len_fits(data.len()) {
        bin_header(data.len()) + data
    } else {
        seq![]
    }
}

/// Encodes a byte slice in the bin format family.
pub struct BinaryEncoder<'blob>(pub &'blob [u8]);

impl<'blob> Encode for BinaryEncoder<'blob> {
    open spec fn encoded(&self) -> Seq<u8> {
        bin_encoded(self.0@)
    }

    open spec fn encodable(&self) -> bool {
        len_fits(self.0@.len())
    }

    open spec fn failure(&self) -> Error {
        Error::InvalidFormat
    }

    fn encode(&self, buf: &mut Vec<u8>) -> (r: Result<usize, Error>) {
        let len = self.0.len();
        if len > 0xffff_ffff {
            assert(buf@ =~= old(buf)@ + self.encoded());
            return Err(Error::InvalidFormat);
        }
        let start = buf.len();
        write_bin_header(buf, len);
        push_slice(buf, self.0);
        assert(buf@ =~= old(buf)@ + self.encoded());
        Ok(buf.len() - start)
    }
}

} // verus!
