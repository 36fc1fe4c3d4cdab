//! Maps: the map format family.
use super::{len_fits, map_header, write_map_header, Encode, Error};
use vstd::prelude::*;

verus! {

/// Whether every key and value of `s` has a format.
pub open spec fn pairs_encodable<K: Encode, V: Encode>(s: Seq<(K, V)>) -> bool
    decreases s.len(),
{
    if s.len() == 0 {
        true
    } else {
        pairs_encodable(s.drop_last()) && s.last().0.encodable() && s.last().1.encodable()
    }
}

/// The bytes written when the pairs of `s` are encoded one after another, key then value,
/// stopping after the first pair where either has no format.
pub open spec fn pairs_encoded<K: Encode, V: Encode>(s: Seq<(K, V)>) -> Seq<u8>
    decreases s.len(),
{
    if s.len() == 0 {
        seq![]
    } else if pairs_encodable(s.drop_last()) {
        pairs_encoded(s.drop_last()) + s.last().0.encoded() + s.last().1.encoded()
    } else {
        pairs_encoded(s.drop_last())
    }
}

/// The error of the first pair of `s` where the key or the value has no format: the key's
/// when the key has none, else the value's.
pub open spec fn pairs_failure<K: Encode, V: Encode>(s: Seq<(K, V)>) -> Error
    decreases s.len(),
{
    if s.len() == 0 {
        Error::InvalidFormat
    } else if !pairs_encodable(s.drop_last()) {
        pairs_failure(s.drop_last())
    } else if !s.last().0.encodable() {
        s.last().0.failure()
    } else {
        s.last().1.failure()
    }
}

/// Once a pair without a format was met, encoding further pairs writes nothing more, and
/// the error stays that of the first such pair.
pub proof fn lemma_pairs_encoded_stops<K: Encode, V: Encode>(s: Seq<(K, V)>, k: int, m: int)
    requires
        0 <= k <= m <= s.len(),
        !pairs_encodable(s.take(k)),
    ensures
        pairs_encoded(s.take(m)) == pairs_encoded(s.take(k)),
        pairs_failure(s.take(m)) == pairs_failure(s.take(k)),
        !pairs_encodable(s.take(m)),
    decreases m - k,
{
    if m > k {
        lemma_pairs_encoded_stops(s, k, m - 1);
        assert(s.take(m).drop_last() =~= s.take(m - 1));
    }
}

/// The bytes of a map of the pairs `s`.
pub open spec fn map_encoded<K: Encode, V: Encode>(s: Seq<(K, V)>) -> Seq<u8> {
    if len_fits(s.len()) {
        map_header(s.len()) + pairs_encoded(s)
    } else {
        seq![]
    }
}

/// Whether a map of the pairs `s` has a format.
pub open spec fn map_encodable<K: Encode, V: Encode>(s: Seq<(K, V)>) -> bool {
    len_fits(s.len()) && pairs_encodable(s)
}

/// The error that encoding a map of the pairs `s` returns when it has no format.
pub open spec fn map_failure<K: Encode, V: Encode>(s: Seq<(K, V)>) -> Error {
    if len_fits(s.len()) {
        pairs_failure(s)
    } else {
        Error::InvalidFormat
    }
}

/// Appends the map of the pairs of `data`.
pub fn write_map<K: Encode, V: Encode>(buf: &mut Vec<u8>, data: &[(K, V)]) -> (r: Result<
    usize,
    Error,
>)
    ensures
        final(buf)@ == old(buf)@ + map_encoded(data@),
        r == super::encode_result(map_encodable(data@), map_encoded(data@), map_failure(data@)),
{
    let len = data.len();
    if len > 0xffff_ffff {
        assert(buf@ =~= old(buf)@ + map_encoded(data@));
        return Err(Error::InvalidFormat);
    }
    let start = buf.len();
    write_map_header(buf, len);
    let ghost s = data@;
    let ghost head = buf@;
    assert(s.take(0) =~= Seq::<(K, V)>::empty());
    let mut i: usize = 0;
    while i < len
        invariant
            len == s.len(),
            i <= len,
            s == data@,
            len_fits(len as nat),
            head == old(buf)@ + map_header(len as nat),
            buf@ == head + pairs_encoded(s.take(i as int)),
            pairs_encodable(s.take(i as int)),
        decreases len - i,
    {
        let pair = &data[i];
        let rk = pair.0.encode(buf);
        let rv = pair.1.encode(buf);
        assert(s.take(i + 1).drop_last() =~= s.take(i as int));
        i = i + 1;
        assert(buf@ =~= head + pairs_encoded(s.take(i as int)));
        if rk.is_err() || rv.is_err() {
            proof {
                lemma_pairs_encoded_stops(s, i as int, len as int);
                assert(s.take(len as int) =~= s);
            }
            assert(buf@ =~= old(buf)@ + map_encoded(data@));
            return match rk {
                Err(e) => Err(e),
                Ok(_) => rv,
            };
        }
    }
    assert(s.take(len as int) =~= s);
    assert(buf@ =~= old(buf)@ + map_encoded(data@));
    Ok(buf.len() - start)
}

/// Encodes a slice of key-value pairs as a map.
pub struct MapSliceEncoder<'data, K, V> {
    pub data: &'data [(K, V)],
}

impl<'data, K, V> MapSliceEncoder<'data, K, V> {
    pub fn new(data: &'data [(K, V)]) -> (r: Self)
        ensures
            r.data@ == data@,
    {
        MapSliceEncoder { data }
    }
}

impl<'data, K: Encode, V: Encode> Encode for MapSliceEncoder<'data, K, V> {
    open spec fn encoded(&self) -> Seq<u8> {
        map_encoded(self.data@)
    }

    open spec fn encodable(&self) -> bool {
        map_encodable(self.data@)
    }

    open spec fn failure(&self) -> Error {
        map_failure(self.data@)
    }

    fn encode(&self, buf: &mut Vec<u8>) -> (r: Result<usize, Error>) {
        write_map(buf, self.data)
    }
}

/// Encodes an owned sequence of key-value pairs as a map.
pub struct MapEncoder<K, V> {
    pub map: Vec<(K, V)>,
}

impl<K, V> MapEncoder<K, V> {
    pub fn new(map: Vec<(K, V)>) -> (r: Self)
        ensures
            r.map@ == map@,
    {
        MapEncoder { map }
    }
}

impl<K: Encode, V: Encode> Encode for MapEncoder<K, V> {
    open spec fn encoded(&self) -> Seq<u8> {
        map_encoded(self.map@)
    }

    open spec fn encodable(&self) -> bool {
        map_encodable(self.map@)
    }

    open spec fn failure(&self) -> Error {
        map_failure(self.map@)
    }

    fn encode(&self, buf: &mut Vec<u8>) -> (r: Result<usize, Error>) {
        write_map(buf, self.map.as_slice())
    }
}

/// Encodes only the header of a map of the given length; its pairs follow separately.
pub struct MapFormatEncoder(pub usize);

impl MapFormatEncoder {
    pub fn new(len: usize) -> (r: Self)
        ensures
            r.0 == len,
    {
        MapFormatEncoder(len)
    }
}

impl Encode for MapFormatEncoder {
    open spec fn encoded(&self) -> Seq<u8> {
        if len_fits(self.0 as nat) {
            map_header(self.0 as nat)
        } else {
            seq![]
        }
    }

    open spec fn encodable(&self) -> bool {
        len_fits(self.0 as nat)
    }

    open spec fn failure(&self) -> Error {
        Error::InvalidFormat
    }

    fn encode(&self, buf: &mut Vec<u8>) -> (r: Result<usize, Error>) {
        if self.0 > 0xffff_ffff {
            assert(buf@ =~= old(buf)@ + self.encoded());
            return Err(Error::InvalidFormat);
        }
        Ok(write_map_header(buf, self.0))
    }
}

} // verus!
