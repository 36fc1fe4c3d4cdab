//! Booleans: the bool format family.
use super::{Encode, Error};
use crate::formats::{FALSE, TRUE};
use vstd::prelude::*;

verus! {

impl Encode for bool {
    open spec fn encoded(&self) -> Seq<u8> {
        if *self {
            seq![TRUE]
        } else {
            seq![FALSE]
        }
    }

    open spec fn encodable(&self) -> bool {
        true
    }

    open spec fn failure(&self) -> Error {
        Error::InvalidFormat
    }

    fn encode(&self, buf: &mut Vec<u8>) -> (r: Result<usize, Error>) {
        if *self {
            buf.push(TRUE);
        } else {
            buf.push(FALSE);
        }
        assert(buf@ =~= old(buf)@ + self.encoded());
        Ok(1)
    }
}

} // verus!
