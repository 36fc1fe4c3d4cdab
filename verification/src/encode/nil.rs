//! Nil: the nil format.
use super::{Encode, Error};
use crate::formats::{NIL};
use vstd::prelude::*;

verus! {

/// Encodes nil.
pub struct NilEncoder;

impl Encode for NilEncoder {
    open spec fn encoded(&self) -> Seq<u8> {
        seq![NIL]
    }

    open spec fn encodable(&self) -> bool {
        true
    }

    open spec fn failure(&self) -> Error {
        Error::InvalidFormat
    }

    fn encode(&self, buf: &mut Vec<u8>) -> (r: Result<usize, Error>) {
        buf.push(NIL);
        assert(buf@ =~= old(buf)@ + self.encoded());
        Ok(1)
    }
}

impl Encode for () {
    open spec fn encoded(&self) -> Seq<u8> {
        seq![NIL]
    }

    open spec fn encodable(&self) -> bool {
        true
    }

    open spec fn failure(&self) -> Error {
        Error::InvalidFormat
    }

    fn encode(&self, buf: &mut Vec<u8>) -> (r: Result<usize, Error>) {
        NilEncoder.encode(buf)
    }
}

} // verus!
