//! Encoding values as MessagePack.
//!
//! Every encoder states, through [`Encode::encoded`], the exact bytes it writes, and through
//! [`Encode::encodable`] whether MessagePack has a format for the value at all. When it has
//! none, the bytes written up to the point of failure are still part of `encoded`.
use crate::bytes::{be_bytes, lemma_be_bytes_len, push_be};
use crate::formats::{FIX_MAP, FIX_ARRAY, FIX_STR, BIN8, BIN16, BIN32, STR8, STR16, STR32, ARRAY16, ARRAY32, MAP16, MAP32};
use vstd::prelude::*;

pub mod array;
pub mod bin;
pub mod bool;
pub mod extension;
pub mod float;
pub mod integer;
pub mod map;
pub mod nil;
pub mod str;

verus! {

/// Messagepack Encode Error
#[derive(Debug, PartialEq, Eq, Copy, Clone, Structural)]
pub enum Error {
    /// buffer is full
    BufferFull,
    /// Cannot mapped messagepack type
    InvalidType,
    /// No format of the family can hold the value or length
    InvalidFormat,
}

/// What `encode` returns for a value with the given encodability, bytes and failure.
pub open spec fn encode_result(ok: bool, bytes: Seq<u8>, failure: Error) -> Result<usize, Error> {
    if ok {
        Ok(bytes.len() as usize)
    } else {
        Err(failure)
    }
}

/// The contents of a slice of length `len` after the bytes `bytes` were written from its start.
pub open spec fn slice_after(old: Seq<u8>, bytes: Seq<u8>) -> Seq<u8> {
    if bytes.len() <= old.len() {
        bytes + old.skip(bytes.len() as int)
    } else {
        bytes.take(old.len() as int)
    }
}

/// What `encode_to_slice` returns for a value with the given encodability, bytes and
/// failure, written into a slice of length `len`.
pub open spec fn slice_result(ok: bool, bytes: Seq<u8>, failure: Error, len: nat) -> Result<
    usize,
    Error,
> {
    if bytes.len() > len {
        Err(Error::BufferFull)
    } else if !ok {
        Err(failure)
    } else {
        Ok(bytes.len() as usize)
    }
}

/// A type which can be encoded to MessagePack
pub trait Encode {
    /// The bytes that encoding writes; for a value without a format, those written before
    /// the failure.
    spec fn encoded(&self) -> Seq<u8>;

    /// Whether MessagePack has a format for this value.
    spec fn encodable(&self) -> bool;

    /// The error that encoding a value without a format returns.
    spec fn failure(&self) -> Error;

    /// encode to MessagePack, appending to `buf`
    fn encode(&self, buf: &mut Vec<u8>) -> (r: Result<usize, Error>)
        ensures
            final(buf)@ == old(buf)@ + self.encoded(),
            r == encode_result(self.encodable(), self.encoded(), self.failure()),
    ;

    /// encode to slice, writing from its start; when the slice is too short it holds
    /// as much of the encoding as fits
    fn encode_to_slice(&self, buf: &mut [u8]) -> (r: Result<usize, Error>)
        ensures
            final(buf)@ == slice_after(old(buf)@, self.encoded()),
            r == slice_result(self.encodable(), self.encoded(), self.failure(), old(buf)@.len()),
    {
        let mut tmp: Vec<u8> = Vec::new();
        let res = self.encode(&mut tmp);
        assert(tmp@ =~= self.encoded());
        let n = copy_prefix(tmp.as_slice(), buf);
        if n < tmp.len() {
            Err(Error::BufferFull)
        } else {
            res
        }
    }
}

/// Copies as much of `src` as fits to the start of `dst`; returns how much was copied.
pub fn copy_prefix(src: &[u8], dst: &mut [u8]) -> (r: usize)
    ensures
        final(dst)@ == slice_after(old(dst)@, src@),
        r == if src@.len() <= old(dst)@.len() {
            src@.len()
        } else {
            old(dst)@.len()
        },
{
    let n = src.len();
    let cap = dst.len();
    let m = if n <= cap {
        n
    } else {
        cap
    };
    let ghost start = dst@;
    let mut i: usize = 0;
    while i < m
        invariant
            m <= n == src@.len(),
            m <= cap == start.len(),
            m == n || m == cap,
            i <= m,
            dst@.len() == cap,
            forall|j: int| 0 <= j < i ==> dst@[j] == src@[j],
            forall|j: int| i <= j < cap ==> dst@[j] == start[j],
        decreases m - i,
    {
        dst[i] = src[i];
        i = i + 1;
    }
    assert(dst@ =~= slice_after(start, src@));
    m
}

/// The header of the str family for a string of `len` bytes.
pub open spec fn str_header(len: nat) -> Seq<u8> {
    if len <= 31 {
        seq![(FIX_STR + len) as u8]
    } else if len <= 0xff {
        seq![STR8, len as u8]
    } else if len <= 0xffff {
        seq![STR16] + be_bytes(len, 2)
    } else {
        seq![STR32] + be_bytes(len, 4)
    }
}

/// The header of the bin family for `len` bytes of data.
pub open spec fn bin_header(len: nat) -> Seq<u8> {
    if len <= 0xff {
        seq![BIN8, len as u8]
    } else if len <= 0xffff {
        seq![BIN16] + be_bytes(len, 2)
    } else {
        seq![BIN32] + be_bytes(len, 4)
    }
}

/// The header of the array family for `len` elements.
pub open spec fn array_header(len: nat) -> Seq<u8> {
    if len <= 0x0f {
        seq![(FIX_ARRAY + len) as u8]
    } else if len <= 0xffff {
        seq![ARRAY16] + be_bytes(len, 2)
    } else {
        seq![ARRAY32] + be_bytes(len, 4)
    }
}

/// The header of the map family for `len` key-value pairs.
pub open spec fn map_header(len: nat) -> Seq<u8> {
    if len <= 0x0f {
        seq![(FIX_MAP + len) as u8]
    } else if len <= 0xffff {
        seq![MAP16] + be_bytes(len, 2)
    } else {
        seq![MAP32] + be_bytes(len, 4)
    }
}

/// A length that the length fields of MessagePack can hold.
pub open spec fn len_fits(len: nat) -> bool {
    len <= 0xffff_ffff
}

/// Appends a marker followed by the `n` low-order bytes of `v`; returns `1 + n`.
pub fn push_marked(buf: &mut Vec<u8>, marker: u8, v: u64, n: usize) -> (r: usize)
    requires
        n <= 8,
    ensures
        final(buf)@ == old(buf)@ + (seq![marker] + be_bytes(v as nat, n as nat)),
        r == 1 + n,
        r == (seq![marker] + be_bytes(v as nat, n as nat)).len(),
{
    buf.push(marker);
    push_be(buf, v, n);
    proof {
        lemma_be_bytes_len(v as nat, n as nat);
    }
    assert(buf@ =~= old(buf)@ + (seq![marker] + be_bytes(v as nat, n as nat)));
    1 + n
}

/// Appends a header of the str family; the length must fit a length field.
pub fn write_str_header(buf: &mut Vec<u8>, len: usize) -> (r: usize)
    requires
        len_fits(len as nat),
    ensures
        final(buf)@ == old(buf)@ + str_header(len as nat),
        r == str_header(len as nat).len(),
{
    proof {
        lemma_be_bytes_len(len as nat, 2);
        lemma_be_bytes_len(len as nat, 4);
    }
    if len <= 31 {
        buf.push(FIX_STR + len as u8);
        assert(buf@ =~= old(buf)@ + str_header(len as nat));
        1
    } else if len <= 0xff {
        buf.push(STR8);
        buf.push(len as u8);
        assert(buf@ =~= old(buf)@ + str_header(len as nat));
        2
    } else if len <= 0xffff {
        push_marked(buf, STR16, len as u64, 2)
    } else {
        push_marked(buf, STR32, len as u64, 4)
    }
}

/// Appends a header of the bin family; the length must fit a length field.
pub fn write_bin_header(buf: &mut Vec<u8>, len: usize) -> (r: usize)
    requires
        len_fits(len as nat),
    ensures
        final(buf)@ == old(buf)@ + bin_header(len as nat),
        r == bin_header(len as nat).len(),
{
    proof {
        lemma_be_bytes_len(len as nat, 2);
        lemma_be_bytes_len(len as nat, 4);
    }
    if len <= 0xff {
        buf.push(BIN8);
        buf.push(len as u8);
        assert(buf@ =~= old(buf)@ + bin_header(len as nat));
        2
    } else if len <= 0xffff {
        push_marked(buf, BIN16, len as u64, 2)
    } else {
        push_marked(buf, BIN32, len as u64, 4)
    }
}

/// Appends a header of the array family; the length must fit a length field.
pub fn write_array_header(buf: &mut Vec<u8>, len: usize) -> (r: usize)
    requires
        len_fits(len as nat),
    ensures
        final(buf)@ == old(buf)@ + array_header(len as nat),
        r == array_header(len as nat).len(),
{
    proof {
        lemma_be_bytes_len(len as nat, 2);
        lemma_be_bytes_len(len as nat, 4);
    }
    if len <= 0x0f {
        buf.push(FIX_ARRAY + len as u8);
        assert(buf@ =~= old(buf)@ + array_header(len as nat));
        1
    } else if len <= 0xffff {
        push_marked(buf, ARRAY16, len as u64, 2)
    } else {
        push_marked(buf, ARRAY32, len as u64, 4)
    }
}

/// Appends a header of the map family; the length must fit a length field.
pub fn write_map_header(buf: &mut Vec<u8>, len: usize) -> (r: usize)
    requires
        len_fits(len as nat),
    ensures
        final(buf)@ == old(buf)@ + map_header(len as nat),
        r == map_header(len as nat).len(),
{
    proof {
        lemma_be_bytes_len(len as nat, 2);
        lemma_be_bytes_len(len as nat, 4);
    }
    if len <= 0x0f {
        buf.push(FIX_MAP + len as u8);
        assert(buf@ =~= old(buf)@ + map_header(len as nat));
        1
    } else if len <= 0xffff {
        push_marked(buf, MAP16, len as u64, 2)
    } else {
        push_marked(buf, MAP32, len as u64, 4)
    }
}

/// The headers take the narrowest member of their family that holds the length: strings a
/// fixstr up to 31 bytes, then `str 8`, `str 16`, `str 32`; byte strings `bin 8`, `bin 16`,
/// `bin 32`; arrays and maps a fixarray or fixmap up to 15 entries, then the 16-bit and 32-bit
/// members. A fix member carries the length in its marker; the others in the bytes after it.
pub proof fn law_header_formats(len: nat)
    requires
        len_fits(len),
    ensures
        str_header(len).len() == (if len <= 31 {
            1nat
        } else if len <= 0xff {
            2nat
        } else if len <= 0xffff {
            3nat
        } else {
            5nat
        }),
        str_header(len)[0] == (if len <= 31 {
            (0xa0 + len) as u8
        } else if len <= 0xff {
            STR8
        } else if len <= 0xffff {
            STR16
        } else {
            STR32
        }),
        bin_header(len).len() == (if len <= 0xff {
            2nat
        } else if len <= 0xffff {
            3nat
        } else {
            5nat
        }),
        bin_header(len)[0] == (if len <= 0xff {
            BIN8
        } else if len <= 0xffff {
            BIN16
        } else {
            BIN32
        }),
        array_header(len).len() == (if len <= 15 {
            1nat
        } else if len <= 0xffff {
            3nat
        } else {
            5nat
        }),
        array_header(len)[0] == (if len <= 15 {
            (0x90 + len) as u8
        } else if len <= 0xffff {
            ARRAY16
        } else {
            ARRAY32
        }),
        map_header(len).len() == (if len <= 15 {
            1nat
        } else if len <= 0xffff {
            3nat
        } else {
            5nat
        }),
        map_header(len)[0] == (if len <= 15 {
            (0x80 + len) as u8
        } else if len <= 0xffff {
            MAP16
        } else {
            MAP32
        }),
{
    lemma_be_bytes_len(len, 2);
    lemma_be_bytes_len(len, 4);
}

} // verus!
