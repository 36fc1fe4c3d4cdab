//! Counting the elements of arrays and maps, and reading extension bytes one at a time.
use super::Error;
use crate::decode::Error as CoreError;
use vstd::prelude::*;

verus! {

/// Hands out the elements of an array, or the pairs of a map, whose length was read.
pub struct FixLenAccess {
    /// How many elements are left.
    pub left: usize,
}

impl FixLenAccess {
    pub fn new(len: usize) -> (r: Self)
        ensures
            r.left == len,
    {
        Self { left: len }
    }

    /// Whether another element follows; if so, it is counted as taken.
    pub fn next_element(&mut self) -> (r: bool)
        ensures
            r == (old(self).left > 0),
            r ==> final(self).left == old(self).left - 1,
            !r ==> final(self).left == old(self).left,
    {
        if self.left > 0 {
            self.left = self.left - 1;
            true
        } else {
            false
        }
    }

    /// The number of elements left.
    pub fn size_hint(&self) -> (r: Option<usize>)
        ensures
            r == Some(self.left),
    {
        Some(self.left)
    }
}

/// Reads a byte slice one byte at a time, as a sequence of `u8`.
pub struct ByteAccess<'a> {
    pub buf: &'a [u8],
}

impl<'a> ByteAccess<'a> {
    pub fn new(buf: &'a [u8]) -> (r: Self)
        ensures
            r.buf@ == buf@,
    {
        Self { buf }
    }

    /// Takes the next byte.
    pub fn deserialize_u8(&mut self) -> (r: Result<u8, Error>)
        ensures
            old(self).buf@.len() > 0 ==> r == Ok::<u8, Error>(old(self).buf@[0])
                && final(self).buf@ == old(self).buf@.drop_first(),
            old(self).buf@.len() == 0 ==> (r matches Err(Error::Decode(CoreError::EofData))
                && final(self).buf@ == old(self).buf@),
    {
        if self.buf.len() == 0 {
            return Err(Error::Decode(CoreError::EofData));
        }
        let first = self.buf[0];
        let (_, rest) = self.buf.split_at(1);
        assert(rest@ =~= old(self).buf@.drop_first());
        self.buf = rest;
        Ok(first)
    }

    /// Takes the next byte, or `None` when none is left.
    pub fn next_element(&mut self) -> (r: Result<Option<u8>, Error>)
        ensures
            old(self).buf@.len() > 0 ==> r == Ok::<Option<u8>, Error>(Some(old(self).buf@[0]))
                && final(self).buf@ == old(self).buf@.drop_first(),
            old(self).buf@.len() == 0 ==> r == Ok::<Option<u8>, Error>(None) && final(self).buf@
                == old(self).buf@,
    {
        if self.buf.len() == 0 {
            Ok(None)
        } else {
            let b = self.deserialize_u8()?;
            Ok(Some(b))
        }
    }

    /// The number of bytes left.
    pub fn size_hint(&self) -> (r: Option<usize>)
        ensures
            r == Some(self.buf@.len() as usize),
    {
        Some(self.buf.len())
    }

    /// Reading anything but bytes fails.
    pub fn deserialize_any(&self) -> (r: Result<(), Error>)
        ensures
            r matches Err(Error::Message(m)) && m@ == "ByteAccess deserialize only support `u8`"@,
    {
        Err(Error::Message("ByteAccess deserialize only support `u8`".to_owned()))
    }
}

} // verus!
