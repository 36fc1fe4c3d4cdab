//! Decoding MessagePack.
//!
//! Every decoder states, through [`Decode::spec_decode`], what it yields for given input: the
//! value (by its deep view) and the number of bytes it consumed, or the error. On success
//! the rest of the input is handed back unchanged.
use crate::bytes::{be_value, lemma_be_value_bound, lemma_pow256_mono, lemma_pow256_values, read_be};
use crate::formats::{spec_from_byte, Format};
use vstd::prelude::*;

pub mod array;
pub mod bin;
pub mod bool;
pub mod extension;
pub mod float;
pub mod integer;
pub mod map;
pub mod nil;
pub mod str;

verus! {

/// Messagepack Decode Error
#[derive(Debug, Copy, Clone, PartialEq, Eq, Structural)]
pub enum Error {
    /// Invalid format
    InvalidFormat,
    /// Invalid data
    InvalidData,
    /// Unexpected format
    UnexpectedFormat,
    /// Eof while decode format
    EofFormat,
    /// Eof while decode data
    EofData,
}

/// `r` is what the specification `s` prescribes for the input `buf`: on success the same
/// value, with the rest of the input after the consumed bytes.
pub open spec fn decode_ok<'a, T: DeepView>(
    r: Result<(T, &'a [u8]), Error>,
    buf: Seq<u8>,
    s: Result<(T::V, nat), Error>,
) -> bool {
    match s {
        Ok((v, n)) => match r {
            Ok((x, rest)) => x.deep_view() == v && n <= buf.len() && rest@ == buf.skip(n as int),
            Err(_) => false,
        },
        Err(e) => match r {
            Ok(_) => false,
            Err(e2) => e2 == e,
        },
    }
}

/// A decoding result with `k` more bytes counted as consumed.
pub open spec fn shift<V>(r: Result<(V, nat), Error>, k: nat) -> Result<(V, nat), Error> {
    match r {
        Ok((v, n)) => Ok((v, n + k)),
        Err(e) => Err(e),
    }
}

/// Decoding that first reads a format marker and then, with `after` the result of decoding
/// what follows it, yields that result with the marker counted as consumed.
pub open spec fn with_marker<V>(buf: Seq<u8>, after: Result<(V, nat), Error>) -> Result<
    (V, nat),
    Error,
> {
    if buf.len() == 0 {
        Err(Error::EofFormat)
    } else {
        shift(after, 1)
    }
}

/// Reading the marker first and then decoding what follows meets the specification of the
/// whole: `with_marker` of the specification of what follows.
pub proof fn lemma_marked<'a, T: DeepView>(
    buf: Seq<u8>,
    rest: Seq<u8>,
    r: Result<(T, &'a [u8]), Error>,
    s: Result<(T::V, nat), Error>,
)
    requires
        buf.len() > 0,
        rest == buf.skip(1),
        decode_ok(r, rest, s),
    ensures
        decode_ok(r, buf, with_marker(buf, s)),
{
    match s {
        Ok((v, n)) => {
            lemma_skip_skip(buf, 1, n as int);
        },
        Err(_) => {},
    }
}

pub proof fn lemma_skip_skip<T>(s: Seq<T>, a: int, b: int)
    requires
        0 <= a <= s.len(),
        0 <= b <= s.len() - a,
    ensures
        s.skip(a).skip(b) == s.skip(a + b),
{
    assert(s.skip(a).skip(b) =~= s.skip(a + b));
}

/// A decoder of one kind of MessagePack value.
pub trait Decode<'a>: Sized {
    type Value: DeepView;

    /// What decoding `buf` yields: the value and the number of bytes consumed, or the error.
    spec fn spec_decode(buf: Seq<u8>) -> Result<(<Self::Value as DeepView>::V, nat), Error>;

    /// What decoding the bytes `buf` that follow the marker of `format` yields.
    spec fn spec_decode_with_format(format: Format, buf: Seq<u8>) -> Result<
        (<Self::Value as DeepView>::V, nat),
        Error,
    >;

    /// decode from buf and return (value, rest)
    fn decode(buf: &'a [u8]) -> (r: Result<(Self::Value, &'a [u8]), Error>)
        ensures
            decode_ok(r, buf@, Self::spec_decode(buf@)),
    ;

    /// decode the bytes that follow an already read format marker
    fn decode_with_format(format: Format, buf: &'a [u8]) -> (r: Result<
        (Self::Value, &'a [u8]),
        Error,
    >)
        ensures
            decode_ok(r, buf@, Self::spec_decode_with_format(format, buf@)),
    ;
}

/// What reading a format marker yields.
pub open spec fn spec_decode_format(buf: Seq<u8>) -> Result<(Format, nat), Error> {
    if buf.len() == 0 {
        Err(Error::EofFormat)
    } else {
        Ok((spec_from_byte(buf[0]), 1))
    }
}

impl Format {
    /// Reads the format marker at the start of `buf`.
    pub fn decode<'a>(buf: &'a [u8]) -> (r: Result<(Format, &'a [u8]), Error>)
        ensures
            match spec_decode_format(buf@) {
                Ok((f, n)) => r matches Ok((g, rest)) && g == f && n <= buf@.len() && rest@
                    == buf@.skip(n as int),
                Err(e) => r == Err::<(Format, &'a [u8]), Error>(e),
            },
    {
        if buf.len() == 0 {
            return Err(Error::EofFormat);
        }
        let (_, rest) = buf.split_at(1);
        Ok((Format::from_byte(buf[0]), rest))
    }
}

/// What reading an `n`-byte big-endian length yields.
pub open spec fn spec_read_be(buf: Seq<u8>, n: nat) -> Result<(nat, nat), Error> {
    if buf.len() < n {
        Err(Error::EofData)
    } else {
        Ok((be_value(buf.take(n as int)), n))
    }
}

/// Reads the `n` bytes at the start of `buf` as a big-endian number.
pub fn read_fixed<'a>(buf: &'a [u8], n: usize) -> (r: Result<(u64, &'a [u8]), Error>)
    requires
        n <= 8,
    ensures
        match spec_read_be(buf@, n as nat) {
            Ok((v, k)) => r matches Ok((x, rest)) && x == v && k <= buf@.len() && rest@ == buf@.skip(
                k as int,
            ),
            Err(e) => r == Err::<(u64, &'a [u8]), Error>(e),
        },
{
    if buf.len() < n {
        return Err(Error::EofData);
    }
    let v = read_be(buf, 0, n);
    assert(buf@.subrange(0, n as int) =~= buf@.take(n as int));
    let (_, rest) = buf.split_at(n);
    Ok((v, rest))
}

/// Reads the big-endian length field of `NBYTE` bytes that follows some markers.
pub struct NbyteReader<const NBYTE: usize>;

impl<const NBYTE: usize> NbyteReader<NBYTE> {
    /// Reads `NBYTE` bytes as a length and returns it with the rest of the input.
    pub fn read<'a>(buf: &'a [u8]) -> (r: Result<(usize, &'a [u8]), Error>)
        requires
            NBYTE == 1 || NBYTE == 2 || NBYTE == 4,
        ensures
            match spec_read_be(buf@, NBYTE as nat) {
                Ok((v, n)) => r matches Ok((x, rest)) && x == v && n <= buf@.len() && rest@
                    == buf@.skip(n as int),
                Err(e) => r == Err::<(usize, &'a [u8]), Error>(e),
            },
    {
        let (v, rest) = read_fixed(buf, NBYTE)?;
        proof {
            lemma_be_value_bound(buf@.take(NBYTE as int));
            lemma_pow256_values();
            lemma_pow256_mono(NBYTE as nat, 4);
        }
        Ok((v as usize, rest))
    }
}

} // verus!
