//! Writing the raw bytes of an extension: its header and data are handed over piece by piece.
use super::Error;
use crate::bytes::{be_bytes, push_be, push_slice};
use vstd::prelude::*;

verus! {

/// Collects the bytes of an extension as they are handed over.
pub struct SerializeExt {
    /// The bytes collected.
    pub writer: Vec<u8>,
}

impl SerializeExt {
    pub fn new() -> (r: Self)
        ensures
            r.writer@ == Seq::<u8>::empty(),
    {
        SerializeExt { writer: Vec::new() }
    }

    /// The number of bytes collected.
    pub fn length(&self) -> (r: usize)
        ensures
            r == self.writer@.len(),
    {
        self.writer.len()
    }

    /// The error for any value but bytes and unsigned integers.
    pub fn unexpected(&self) -> (r: Error)
        ensures
            r matches Error::Custom(m) && m@ == "unexpected value"@,
    {
        Error::Custom("unexpected value".to_owned())
    }

    pub fn serialize_bytes(&mut self, v: &[u8]) -> (r: Result<(), Error>)
        ensures
            final(self).writer@ == old(self).writer@ + v@,
            r is Ok,
    {
        push_slice(&mut self.writer, v);
        Ok(())
    }

    /// An `i8` is taken as its one byte, the extension type.
    pub fn serialize_i8(&mut self, v: i8) -> (r: Result<(), Error>)
        ensures
            final(self).writer@ == old(self).writer@ + seq![
                (if v >= 0 { v as int } else { v + 256 }) as u8,
            ],
            r is Ok,
    {
        let b: u8 = if v >= 0 {
            v as u8
        } else {
            (v as i16 + 256) as u8
        };
        self.writer.push(b);
        Ok(())
    }

    pub fn serialize_u8(&mut self, v: u8) -> (r: Result<(), Error>)
        ensures
            final(self).writer@ == old(self).writer@ + seq![v],
            r is Ok,
    {
        self.writer.push(v);
        Ok(())
    }

    /// An unsigned integer is taken as its big-endian bytes.
    pub fn serialize_u16(&mut self, v: u16) -> (r: Result<(), Error>)
        ensures
            final(self).writer@ == old(self).writer@ + be_bytes(v as nat, 2),
            r is Ok,
    {
        push_be(&mut self.writer, v as u64, 2);
        Ok(())
    }

    pub fn serialize_u32(&mut self, v: u32) -> (r: Result<(), Error>)
        ensures
            final(self).writer@ == old(self).writer@ + be_bytes(v as nat, 4),
            r is Ok,
    {
        push_be(&mut self.writer, v as u64, 4);
        Ok(())
    }

    pub fn serialize_u64(&mut self, v: u64) -> (r: Result<(), Error>)
        ensures
            final(self).writer@ == old(self).writer@ + be_bytes(v as nat, 8),
            r is Ok,
    {
        push_be(&mut self.writer, v, 8);
        Ok(())
    }
}

/// The elements of the sequence an extension is handed over as.
pub struct SerializeExtSeq<'a> {
    pub ser: &'a mut SerializeExt,
}

impl<'a> SerializeExtSeq<'a> {
    pub fn new(ser: &'a mut SerializeExt) -> (r: Self)
        ensures
            *r.ser == *old(ser),
    {
        SerializeExtSeq { ser }
    }

    /// Hands over one piece of the extension.
    pub fn serialize_element(&mut self, v: &[u8]) -> (r: Result<(), Error>)
        ensures
            final(self).ser.writer@ == old(self).ser.writer@ + v@,
            r is Ok,
    {
        self.ser.serialize_bytes(v)
    }

    pub fn end(self) -> (r: Result<(), Error>)
        ensures
            r is Ok,
    {
        Ok(())
    }
}

} // verus!
