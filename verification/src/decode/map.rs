//! Maps: the map format family.
use super::array::prepend;
use super::{
    decode_ok, lemma_marked, lemma_skip_skip, spec_read_be, with_marker, Decode, Error,
    NbyteReader,
};
use crate::formats::{spec_from_byte, Format};
use core::marker::PhantomData;
use vstd::prelude::*;

verus! {

/// What decoding a key with `K` and then a value with `V` yields.
pub open spec fn spec_decode_kv<'a, K: Decode<'a>, V: Decode<'a>>(buf: Seq<u8>) -> Result<
    ((<K::Value as DeepView>::V, <V::Value as DeepView>::V), nat),
    Error,
> {
    match K::spec_decode(buf) {
        Err(e) => Err(e),
        Ok((k, n)) => match V::spec_decode(buf.skip(n as int)) {
            Err(e) => Err(e),
            Ok((v, m)) => Ok(((k, v), n + m)),
        },
    }
}

/// Decodes a key with `K` and then a value with `V`.
pub fn decode_kv<'a, K: Decode<'a>, V: Decode<'a>>(buf: &'a [u8]) -> (r: Result<
    ((K::Value, V::Value), &'a [u8]),
    Error,
>)
    ensures
        decode_ok(r, buf@, spec_decode_kv::<K, V>(buf@)),
{
    let (k, rest) = K::decode(buf)?;
    let (v, rest2) = V::decode(rest)?;
    proof {
        let n = match K::spec_decode(buf@) {
            Ok((_, n)) => n,
            Err(_) => 0,
        };
        let m = match V::spec_decode(rest@) {
            Ok((_, m)) => m,
            Err(_) => 0,
        };
        lemma_skip_skip(buf@, n as int, m as int);
    }
    Ok(((k, v), rest2))
}

/// What decoding `count` key-value pairs, one after another, yields.
pub open spec fn spec_decode_pairs<'a, K: Decode<'a>, V: Decode<'a>>(
    buf: Seq<u8>,
    count: nat,
) -> Result<(Seq<(<K::Value as DeepView>::V, <V::Value as DeepView>::V)>, nat), Error>
    decreases count,
{
    if count == 0 {
        Ok((seq![], 0))
    } else {
        match spec_decode_kv::<K, V>(buf) {
            Err(e) => Err(e),
            Ok((kv, n)) => match spec_decode_pairs::<K, V>(buf.skip(n as int), (count - 1) as nat) {
                Err(e) => Err(e),
                Ok((kvs, m)) => Ok((seq![kv] + kvs, n + m)),
            },
        }
    }
}

/// What reading the length of a map yields: the length and the bytes the length field took.
pub open spec fn spec_map_len(format: Format, buf: Seq<u8>) -> Result<(nat, nat), Error> {
    match format {
        Format::FixMap(n) => Ok((n as nat, 0)),
        Format::Map16 => spec_read_be(buf, 2),
        Format::Map32 => spec_read_be(buf, 4),
        _ => Err(Error::UnexpectedFormat),
    }
}

/// Reads the length of a map whose marker was `format`.
pub fn read_map_len<'a>(format: Format, buf: &'a [u8]) -> (r: Result<(usize, &'a [u8]), Error>)
    ensures
        match spec_map_len(format, buf@) {
            Ok((v, n)) => r matches Ok((x, rest)) && x == v && n <= buf@.len() && rest@ == buf@.skip(
                n as int,
            ),
            Err(e) => r == Err::<(usize, &'a [u8]), Error>(e),
        },
{
    match format {
        Format::FixMap(n) => {
            assert(buf@.skip(0) =~= buf@);
            Ok((n as usize, buf))
        },
        Format::Map16 => NbyteReader::<2>::read(buf),
        Format::Map32 => NbyteReader::<4>::read(buf),
        _ => Err(Error::UnexpectedFormat),
    }
}

/// Decodes `count` key-value pairs, one after another, stopping at the first error.
pub fn decode_pairs<'a, K: Decode<'a>, V: Decode<'a>>(buf: &'a [u8], count: usize) -> (r: Result<
    (Vec<(K::Value, V::Value)>, &'a [u8]),
    Error,
>)
    ensures
        decode_ok(r, buf@, spec_decode_pairs::<K, V>(buf@, count as nat)),
{
    let mut out: Vec<(K::Value, V::Value)> = Vec::new();
    let mut rest = buf;
    let ghost mut pos: nat = 0;
    let mut i: usize = 0;
    assert(buf@.skip(0) =~= buf@);
    assert(out.deep_view() =~= Seq::<(<K::Value as DeepView>::V, <V::Value as DeepView>::V)>::empty());
    while i < count
        invariant
            i <= count,
            pos <= buf@.len(),
            rest@ == buf@.skip(pos as int),
            spec_decode_pairs::<K, V>(buf@, count as nat) == prepend(
                out.deep_view(),
                pos,
                spec_decode_pairs::<K, V>(rest@, (count - i) as nat),
            ),
        decreases count - i,
    {
        match decode_kv::<K, V>(rest) {
            Ok((kv, r)) => {
                let ghost n: nat = match spec_decode_kv::<K, V>(rest@) {
                    Ok((_, n)) => n,
                    Err(_) => 0,
                };
                let ghost old_vals = out.deep_view();
                proof {
                    lemma_skip_skip(buf@, pos as int, n as int);
                }
                out.push(kv);
                assert(out.deep_view() =~= old_vals + seq![kv.deep_view()]);
                proof {
                    let tail = spec_decode_pairs::<K, V>(r@, (count - i - 1) as nat);
                    match tail {
                        Ok((vs, m)) => {
                            assert(old_vals + (seq![kv.deep_view()] + vs) =~= out.deep_view() + vs);
                        },
                        Err(_) => {},
                    }
                    pos = pos + n;
                }
                rest = r;
                i = i + 1;
            },
            Err(e) => {
                return Err(e);
            },
        }
    }
    Ok((out, rest))
}

/// Decodes a map whose keys `K` and values `V` decode, into a `Vec` of pairs in input order.
pub struct MapDecoder<K, V>(pub PhantomData<(K, V)>);

impl<'a, K: Decode<'a>, V: Decode<'a>> Decode<'a> for MapDecoder<K, V> {
    type Value = Vec<(K::Value, V::Value)>;

    open spec fn spec_decode(buf: Seq<u8>) -> Result<
        (Seq<(<K::Value as DeepView>::V, <V::Value as DeepView>::V)>, nat),
        Error,
    > {
        with_marker(buf, Self::spec_decode_with_format(spec_from_byte(buf[0]), buf.drop_first()))
    }

    open spec fn spec_decode_with_format(format: Format, buf: Seq<u8>) -> Result<
        (Seq<(<K::Value as DeepView>::V, <V::Value as DeepView>::V)>, nat),
        Error,
    > {
        match spec_map_len(format, buf) {
            Err(e) => Err(e),
            Ok((len, h)) => prepend(seq![], h, spec_decode_pairs::<K, V>(buf.skip(h as int), len)),
        }
    }

    fn decode(buf: &'a [u8]) -> (r: Result<(Vec<(K::Value, V::Value)>, &'a [u8]), Error>) {
        let (format, rest) = Format::decode(buf)?;
        let r = match format {
            Format::FixMap(_) | Format::Map16 | Format::Map32 => {
                Self::decode_with_format(format, rest)
            },
            _ => Err(Error::UnexpectedFormat),
        };
        proof {
            lemma_marked(buf@, rest@, r, Self::spec_decode_with_format(format, rest@));
        }
        r
    }

    fn decode_with_format(format: Format, buf: &'a [u8]) -> (r: Result<
        (Vec<(K::Value, V::Value)>, &'a [u8]),
        Error,
    >) {
        let (len, rest) = match read_map_len(format, buf) {
            Ok(x) => x,
            Err(e) => return Err(e),
        };
        let ghost h: nat = match spec_map_len(format, buf@) {
            Ok((_, h)) => h,
            Err(_) => 0,
        };
        let r = decode_pairs::<K, V>(rest, len);
        proof {
            match spec_decode_pairs::<K, V>(rest@, len as nat) {
                Ok((vs, m)) => {
                    lemma_skip_skip(buf@, h as int, m as int);
                    assert(seq![] + vs =~= vs);
                },
                Err(_) => {},
            }
        }
        r
    }
}

} // verus!
