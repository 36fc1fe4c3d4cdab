//! Nil: the nil format, and optional values.
use super::{lemma_marked, with_marker, Decode, Error};
use crate::formats::{spec_from_byte, Format};
use vstd::prelude::*;

verus! {

/// Decodes nil.
pub struct NilDecoder;

impl<'a> Decode<'a> for NilDecoder {
    type Value = ();

    open spec fn spec_decode(buf: Seq<u8>) -> Result<((), nat), Error> {
        if buf.len() == 0 {
            Err(Error::EofFormat)
        } else if buf[0] == crate::formats::NIL {
            Ok(((), 1))
        } else {
            Err(Error::UnexpectedFormat)
        }
    }

    /// The marker was already read: nothing follows it, whatever it was.
    open spec fn spec_decode_with_format(format: Format, buf: Seq<u8>) -> Result<((), nat), Error> {
        Ok(((), 0))
    }

    fn decode(buf: &'a [u8]) -> (r: Result<((), &'a [u8]), Error>) {
        let (format, rest) = Format::decode(buf)?;
        assert(rest@ =~= buf@.skip(1));
        match format {
            Format::Nil => Ok(((), rest)),
            _ => Err(Error::UnexpectedFormat),
        }
    }

    fn decode_with_format(format: Format, buf: &'a [u8]) -> (r: Result<((), &'a [u8]), Error>) {
        assert(buf@.skip(0) =~= buf@);
        Ok(((), buf))
    }
}

impl<'a> Decode<'a> for () {
    type Value = ();

    open spec fn spec_decode(buf: Seq<u8>) -> Result<((), nat), Error> {
        NilDecoder::spec_decode(buf)
    }

    open spec fn spec_decode_with_format(format: Format, buf: Seq<u8>) -> Result<((), nat), Error> {
        NilDecoder::spec_decode_with_format(format, buf)
    }

    fn decode(buf: &'a [u8]) -> (r: Result<((), &'a [u8]), Error>) {
        NilDecoder::decode(buf)
    }

    fn decode_with_format(format: Format, buf: &'a [u8]) -> (r: Result<((), &'a [u8]), Error>) {
        NilDecoder::decode_with_format(format, buf)
    }
}

impl<'a, V: Decode<'a>> Decode<'a> for Option<V> {
    type Value = Option<V::Value>;

    open spec fn spec_decode(buf: Seq<u8>) -> Result<(Option<<V::Value as DeepView>::V>, nat), Error> {
        with_marker(buf, Self::spec_decode_with_format(spec_from_byte(buf[0]), buf.drop_first()))
    }

    /// Nil is `None`; any other format is decoded by `V` as `Some`.
    open spec fn spec_decode_with_format(format: Format, buf: Seq<u8>) -> Result<
        (Option<<V::Value as DeepView>::V>, nat),
        Error,
    > {
        match format {
            Format::Nil => Ok((None, 0)),
            other => match V::spec_decode_with_format(other, buf) {
                Ok((v, n)) => Ok((Some(v), n)),
                Err(e) => Err(e),
            },
        }
    }

    fn decode(buf: &'a [u8]) -> (r: Result<(Option<V::Value>, &'a [u8]), Error>) {
        let (format, rest) = Format::decode(buf)?;
        let r = Self::decode_with_format(format, rest);
        proof {
            lemma_marked(buf@, rest@, r, Self::spec_decode_with_format(format, rest@));
        }
        r
    }

    fn decode_with_format(format: Format, buf: &'a [u8]) -> (r: Result<
        (Option<V::Value>, &'a [u8]),
        Error,
    >) {
        match format {
            Format::Nil => {
                assert(buf@.skip(0) =~= buf@);
                Ok((None, buf))
            },
            other => {
                let (v, rest) = V::decode_with_format(other, buf)?;
                Ok((Some(v), rest))
            },
        }
    }
}

/// A decoding result with its value wrapped in `Some`.
pub open spec fn some_of<T>(r: Result<(T, nat), Error>) -> Result<(Option<T>, nat), Error> {
    match r {
        Ok((v, n)) => Ok((Some(v), n)),
        Err(e) => Err(e),
    }
}

/// An optional value is `None` exactly when its marker is nil, taking only the marker; after
/// any other marker it is `Some` of exactly what the value's own decoder yields after that
/// marker, and fails exactly as that decoder does.
pub proof fn law_option_decode<'a, V: Decode<'a>>(format: Format, buf: Seq<u8>)
    ensures
        Option::<V>::spec_decode_with_format(format, buf) matches Ok((None, n)) ==> format
            == Format::Nil && n == 0,
        format == Format::Nil ==> Option::<V>::spec_decode_with_format(format, buf) == Ok::<
            (Option<<V::Value as DeepView>::V>, nat),
            Error,
        >((None, 0)),
        format != Format::Nil ==> Option::<V>::spec_decode_with_format(format, buf) == some_of(
            V::spec_decode_with_format(format, buf),
        ),
        buf.len() > 0 && buf[0] != crate::formats::NIL ==> Option::<V>::spec_decode(buf) == some_of(
            with_marker(buf, V::spec_decode_with_format(spec_from_byte(buf[0]), buf.drop_first())),
        ),
        buf.len() > 0 && buf[0] == crate::formats::NIL ==> Option::<V>::spec_decode(buf) == Ok::<
            (Option<<V::Value as DeepView>::V>, nat),
            Error,
        >((None, 1)),
{
}

/// An optional `bool` after the marker false or true is `Some` of that boolean, taking the
/// marker.
pub proof fn law_option_bool(buf: Seq<u8>)
    requires
        buf.len() > 0,
        buf[0] == crate::formats::FALSE || buf[0] == crate::formats::TRUE,
    ensures
        Option::<bool>::spec_decode(buf) == Ok::<(Option<bool>, nat), Error>(
            (Some(buf[0] == crate::formats::TRUE), 1),
        ),
{
}

} // verus!
