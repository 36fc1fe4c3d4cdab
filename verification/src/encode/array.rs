//! Arrays: the array format family.
use super::{array_header, len_fits, write_array_header, Encode, Error};
use vstd::prelude::*;

verus! {

/// Whether every value of `s` has a format.
pub open spec fn seq_encodable<V: Encode>(s: Seq<V>) -> bool
    decreases s.len(),
{
    if s.len() == 0 {
        true
    } else {
        seq_encodable(s.drop_last()) && s.last().encodable()
    }
}

/// The bytes written when the values of `s` are encoded one after another, stopping after
/// the first value that has no format.
pub open spec fn seq_encoded<V: Encode>(s: Seq<V>) -> Seq<u8>
    decreases s.len(),
{
    if s.len() == 0 {
        seq![]
    } else if seq_encodable(s.drop_last()) {
        seq_encoded(s.drop_last()) + s.last().encoded()
    } else {
        seq_encoded(s.drop_last())
    }
}

/// The error of the first value of `s` that has no format.
pub open spec fn seq_failure<V: Encode>(s: Seq<V>) -> Error
    decreases s.len(),
{
    if s.len() == 0 {
        Error::InvalidFormat
    } else if !seq_encodable(s.drop_last()) {
        seq_failure(s.drop_last())
    } else {
        s.last().failure()
    }
}

/// Once a value without a format was met, encoding further values writes nothing more, and
/// the error stays that of the first such value.
pub proof fn lemma_seq_encoded_stops<V: Encode>(s: Seq<V>, k: int, m: int)
    requires
        0 <= k <= m <= s.len(),
        !seq_encodable(s.take(k)),
    ensures
        seq_encoded(s.take(m)) == seq_encoded(s.take(k)),
        seq_failure(s.take(m)) == seq_failure(s.take(k)),
        !seq_encodable(s.take(m)),
    decreases m - k,
{
    if m > k {
        lemma_seq_encoded_stops(s, k, m - 1);
        assert(s.take(m).drop_last() =~= s.take(m - 1));
    }
}

/// Encodes a slice of values as an array.
pub struct ArrayEncoder<'array, V>(pub &'array [V]);

impl<'array, V: Encode> Encode for ArrayEncoder<'array, V> {
    open spec fn encoded(&self) -> Seq<u8> {
        if len_fits(self.0@.len()) {
            array_header(self.0@.len()) + seq_encoded(self.0@)
        } else {
            seq![]
        }
    }

    open spec fn encodable(&self) -> bool {
        len_fits(self.0@.len()) && seq_encodable(self.0@)
    }

    open spec fn failure(&self) -> Error {
        if len_fits(self.0@.len()) {
            seq_failure(self.0@)
        } else {
            Error::InvalidFormat
        }
    }

    fn encode(&self, buf: &mut Vec<u8>) -> (r: Result<usize, Error>) {
        let len = self.0.len();
        if len > 0xffff_ffff {
            assert(buf@ =~= old(buf)@ + self.encoded());
            return Err(Error::InvalidFormat);
        }
        let start = buf.len();
        write_array_header(buf, len);
        let ghost s = self.0@;
        let ghost head = buf@;
        assert(s.take(0) =~= Seq::<V>::empty());
        let mut i: usize = 0;
        while i < len
            invariant
                len == s.len(),
                i <= len,
                s == self.0@,
                len_fits(len as nat),
                head == old(buf)@ + array_header(len as nat),
                buf@ == head + seq_encoded(s.take(i as int)),
                seq_encodable(s.take(i as int)),
            decreases len - i,
        {
            let r = self.0[i].encode(buf);
            assert(s.take(i + 1).drop_last() =~= s.take(i as int));
            i = i + 1;
            if r.is_err() {
                proof {
                    lemma_seq_encoded_stops(s, i as int, len as int);
                    assert(s.take(len as int) =~= s);
                }
                assert(buf@ =~= old(buf)@ + self.encoded());
                return r;
            }
        }
        assert(s.take(len as int) =~= s);
        assert(buf@ =~= old(buf)@ + self.encoded());
        Ok(buf.len() - start)
    }
}

/// Encodes only the header of an array of the given length; its elements follow separately.
pub struct ArrayFormatEncoder(pub usize);

impl Encode for ArrayFormatEncoder {
    open spec fn encoded(&self) -> Seq<u8> {
        if len_fits(self.0 as nat) {
            array_header(self.0 as nat)
        } else {
            seq![]
        }
    }

    open spec fn encodable(&self) -> bool {
        len_fits(self.0 as nat)
    }

    open spec fn failure(&self) -> Error {
        Error::InvalidFormat
    }

    fn encode(&self, buf: &mut Vec<u8>) -> (r: Result<usize, Error>) {
        if self.0 > 0xffff_ffff {
            assert(buf@ =~= old(buf)@ + self.encoded());
            return Err(Error::InvalidFormat);
        }
        Ok(write_array_header(buf, self.0))
    }
}

} // verus!
