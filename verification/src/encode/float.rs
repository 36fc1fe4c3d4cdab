//! Floating-point numbers: the float format family, written from their IEEE 754 bit patterns.
use super::{push_marked, Encode, Error};
use crate::bytes::{be_bytes, lemma_be_bytes_len};
use crate::formats::{FLOAT32, FLOAT64};
use vstd::prelude::*;

verus! {

/// Encodes an `f32`, given by its bit pattern, as `float 32`.
pub struct Float32Encoder(pub u32);

/// Encodes an `f64`, given by its bit pattern, as `float 64`.
pub struct Float64Encoder(pub u64);

impl Encode for Float32Encoder {
    open spec fn encoded(&self) -> Seq<u8> {
        seq![FLOAT32] + be_bytes(self.0 as nat, 4)
    }

    open spec fn encodable(&self) -> bool {
        true
    }

    open spec fn failure(&self) -> Error {
        Error::InvalidFormat
    }

    fn encode(&self, buf: &mut Vec<u8>) -> (r: Result<usize, Error>) {
        proof {
            lemma_be_bytes_len(self.0 as nat, 4);
        }
        Ok(push_marked(buf, FLOAT32, self.0 as u64, 4))
    }
}

impl Encode for Float64Encoder {
    open spec fn encoded(&self) -> Seq<u8> {
        seq![FLOAT64] + be_bytes(self.0 as nat, 8)
    }

    open spec fn encodable(&self) -> bool {
        true
    }

    open spec fn failure(&self) -> Error {
        Error::InvalidFormat
    }

    fn encode(&self, buf: &mut Vec<u8>) -> (r: Result<usize, Error>) {
        proof {
            lemma_be_bytes_len(self.0 as nat, 8);
        }
        Ok(push_marked(buf, FLOAT64, self.0, 8))
    }
}

} // verus!
