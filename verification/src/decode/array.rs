//! Arrays: the array format family.
use super::{
    decode_ok, lemma_marked, lemma_skip_skip, spec_read_be, with_marker, Decode, Error,
    NbyteReader,
};
use crate::formats::{spec_from_byte, Format};
use core::marker::PhantomData;
use vstd::prelude::*;

verus! {

/// What decoding `count` values with `V`, one after another, yields.
pub open spec fn spec_decode_elems<'a, V: Decode<'a>>(buf: Seq<u8>, count: nat) -> Result<
    (Seq<<V::Value as DeepView>::V>, nat),
    Error,
>
    decreases count,
{
    if count == 0 {
        Ok((seq![], 0))
    } else {
        match V::spec_decode(buf) {
            Err(e) => Err(e),
            Ok((v, n)) => match spec_decode_elems::<V>(buf.skip(n as int), (count - 1) as nat) {
                Err(e) => Err(e),
                Ok((vs, m)) => Ok((seq![v] + vs, n + m)),
            },
        }
    }
}

/// The values `vals`, taking `pos` bytes, followed by what `r` yields.
pub open spec fn prepend<T>(vals: Seq<T>, pos: nat, r: Result<(Seq<T>, nat), Error>) -> Result<
    (Seq<T>, nat),
    Error,
> {
    match r {
        Ok((vs, m)) => Ok((vals + vs, pos + m)),
        Err(e) => Err(e),
    }
}

/// What reading the length of an array yields: the length and the bytes the length field took.
pub open spec fn spec_array_len(format: Format, buf: Seq<u8>) -> Result<(nat, nat), Error> {
    match format {
        Format::FixArray(n) => Ok((n as nat, 0)),
        Format::Array16 => spec_read_be(buf, 2),
        Format::Array32 => spec_read_be(buf, 4),
        _ => Err(Error::UnexpectedFormat),
    }
}

/// Reads the length of an array whose marker was `format`.
pub fn read_array_len<'a>(format: Format, buf: &'a [u8]) -> (r: Result<(usize, &'a [u8]), Error>)
    ensures
        match spec_array_len(format, buf@) {
            Ok((v, n)) => r matches Ok((x, rest)) && x == v && n <= buf@.len() && rest@ == buf@.skip(
                n as int,
            ),
            Err(e) => r == Err::<(usize, &'a [u8]), Error>(e),
        },
{
    match format {
        Format::FixArray(n) => {
            assert(buf@.skip(0) =~= buf@);
            Ok((n as usize, buf))
        },
        Format::Array16 => NbyteReader::<2>::read(buf),
        Format::Array32 => NbyteReader::<4>::read(buf),
        _ => Err(Error::UnexpectedFormat),
    }
}

/// Decodes `count` values with `V`, one after another, stopping at the first error.
pub fn decode_elems<'a, V: Decode<'a>>(buf: &'a [u8], count: usize) -> (r: Result<
    (Vec<V::Value>, &'a [u8]),
    Error,
>)
    ensures
        decode_ok(r, buf@, spec_decode_elems::<V>(buf@, count as nat)),
{
    let mut out: Vec<V::Value> = Vec::new();
    let mut rest = buf;
    let ghost mut pos: nat = 0;
    let mut i: usize = 0;
    assert(buf@.skip(0) =~= buf@);
    assert(out.deep_view() =~= Seq::<<V::Value as DeepView>::V>::empty());
    while i < count
        invariant
            i <= count,
            pos <= buf@.len(),
            rest@ == buf@.skip(pos as int),
            spec_decode_elems::<V>(buf@, count as nat) == prepend(
                out.deep_view(),
                pos,
                spec_decode_elems::<V>(rest@, (count - i) as nat),
            ),
        decreases count - i,
    {
        match V::decode(rest) {
            Ok((v, r)) => {
                let ghost n: nat = match V::spec_decode(rest@) {
                    Ok((_, n)) => n,
                    Err(_) => 0,
                };
                let ghost old_vals = out.deep_view();
                proof {
                    lemma_skip_skip(buf@, pos as int, n as int);
                }
                out.push(v);
                assert(out.deep_view() =~= old_vals + seq![v.deep_view()]);
                proof {
                    let tail = spec_decode_elems::<V>(r@, (count - i - 1) as nat);
                    match tail {
                        Ok((vs, m)) => {
                            assert(old_vals + (seq![v.deep_view()] + vs) =~= out.deep_view() + vs);
                        },
                        Err(_) => {},
                    }
                    pos = pos + n;
                }
                rest = r;
                i = i + 1;
            },
            Err(e) => {
                return Err(e);
            },
        }
    }
    Ok((out, rest))
}

/// Decodes an array whose elements `V` decodes, into a `Vec`.
pub struct ArrayDecoder<V>(pub PhantomData<V>);

impl<'a, V: Decode<'a>> Decode<'a> for ArrayDecoder<V> {
    type Value = Vec<V::Value>;

    open spec fn spec_decode(buf: Seq<u8>) -> Result<(Seq<<V::Value as DeepView>::V>, nat), Error> {
        with_marker(buf, Self::spec_decode_with_format(spec_from_byte(buf[0]), buf.drop_first()))
    }

    open spec fn spec_decode_with_format(format: Format, buf: Seq<u8>) -> Result<
        (Seq<<V::Value as DeepView>::V>, nat),
        Error,
    > {
        match spec_array_len(format, buf) {
            Err(e) => Err(e),
            Ok((len, h)) => prepend(seq![], h, spec_decode_elems::<V>(buf.skip(h as int), len)),
        }
    }

    fn decode(buf: &'a [u8]) -> (r: Result<(Vec<V::Value>, &'a [u8]), Error>) {
        let (format, rest) = Format::decode(buf)?;
        let r = match format {
            Format::FixArray(_) | Format::Array16 | Format::Array32 => {
                Self::decode_with_format(format, rest)
            },
            _ => Err(Error::UnexpectedFormat),
        };
        proof {
            lemma_marked(buf@, rest@, r, Self::spec_decode_with_format(format, rest@));
        }
        r
    }

    fn decode_with_format(format: Format, buf: &'a [u8]) -> (r: Result<
        (Vec<V::Value>, &'a [u8]),
        Error,
    >) {
        let (len, rest) = match read_array_len(format, buf) {
            Ok(x) => x,
            Err(e) => return Err(e),
        };
        let ghost h: nat = match spec_array_len(format, buf@) {
            Ok((_, h)) => h,
            Err(_) => 0,
        };
        let r = decode_elems::<V>(rest, len);
        proof {
            match spec_decode_elems::<V>(rest@, len as nat) {
                Ok((vs, m)) => {
                    lemma_skip_skip(buf@, h as int, m as int);
                    assert(seq![] + vs =~= vs);
                },
                Err(_) => {},
            }
        }
        r
    }
}

} // verus!
