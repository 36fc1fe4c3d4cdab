//! Extensions: the ext format family, a type byte and opaque data.
use super::{len_fits, push_marked, Encode, Error};
use crate::bytes::{be_bytes, lemma_be_bytes_len, push_slice};
use crate::formats::{EXT16, EXT32, EXT8, FIXEXT1, FIXEXT16, FIXEXT2, FIXEXT4, FIXEXT8};
use vstd::prelude::*;

verus! {

/// The byte that carries an extension type.
pub open spec fn type_byte(kind: i8) -> u8 {
    if kind >= 0 {
        kind as u8
    } else {
        (kind + 256) as u8
    }
}

/// The header of an extension of type `kind` with `len` bytes of data: a fixext marker
/// for the lengths that have one, else the smallest ext family member.
pub open spec fn ext_header(len: nat, kind: i8) -> Seq<u8> {
    let t = type_byte(kind);
    if len == 1 {
        seq![FIXEXT1, t]
    } else if len == 2 {
        seq![FIXEXT2, t]
    } else if len == 4 {
        seq![FIXEXT4, t]
    } else if len == 8 {
        seq![FIXEXT8, t]
    } else if len == 16 {
        seq![FIXEXT16, t]
    } else if len <= 0xff {
        seq![EXT8, len as u8, t]
    } else if len <= 0xffff {
        seq![EXT16] + be_bytes(len, 2) + seq![t]
    } else {
        seq![EXT32] + be_bytes(len, 4) + seq![t]
    }
}

/// The bytes of an extension of type `kind` carrying `data`.
pub open spec fn ext_encoded(kind: i8, data: Seq<u8>) -> Seq<u8> {
    if len_fits(data.len()) {
        ext_header(data.len(), kind) + data
    } else {
        seq![]
    }
}

/// Appends the header of an extension; the data length must fit a length field.
pub fn write_ext_header(buf: &mut Vec<u8>, len: usize, kind: i8) -> (r: usize)
    requires
        len_fits(len as nat),
    ensures
        final(buf)@ == old(buf)@ + ext_header(len as nat, kind),
        r == ext_header(len as nat, kind).len(),
{
    let t: u8 = if kind >= 0 {
        kind as u8
    } else {
        (kind as i16 + 256) as u8
    };
    proof {
        lemma_be_bytes_len(len as nat, 2);
        lemma_be_bytes_len(len as nat, 4);
    }
    let n: usize = if len == 1 || len == 2 || len == 4 || len == 8 || len == 16 {
        let marker = if len == 1 {
            FIXEXT1
        } else if len == 2 {
            FIXEXT2
        } else if len == 4 {
            FIXEXT4
        } else if len == 8 {
            FIXEXT8
        } else {
            FIXEXT16
        };
        buf.push(marker);
        2
    } else if len <= 0xff {
        buf.push(EXT8);
        buf.push(len as u8);
        3
    } else if len <= 0xffff {
        push_marked(buf, EXT16, len as u64, 2);
        4
    } else {
        push_marked(buf, EXT32, len as u64, 4);
        6
    };
    buf.push(t);
    assert(buf@ =~= old(buf)@ + ext_header(len as nat, kind));
    n
}

/// The pieces of the header of an extension of type `kind` with `len` bytes of data: its
/// marker, its length field (empty after a fixext marker) and its type byte; `None` when no
/// length field can hold `len`.
pub fn ext_header_parts(len: usize, kind: i8) -> (r: Option<(u8, Vec<u8>, u8)>)
    ensures
        r is Some <==> len_fits(len as nat),
        r matches Some((m, field, t)) ==> seq![m] + field@ + seq![t] == ext_header(
            len as nat,
            kind,
        ),
{
    if len > 0xffff_ffff {
        return None;
    }
    let mut header: Vec<u8> = Vec::new();
    let n = write_ext_header(&mut header, len, kind);
    assert(header@ == ext_header(len as nat, kind));
    assert(2 <= n <= 6) by {
        lemma_be_bytes_len(len as nat, 2);
        lemma_be_bytes_len(len as nat, 4);
    }
    let mut field: Vec<u8> = Vec::new();
    let mut i: usize = 1;
    while i + 1 < n
        invariant
            1 <= i <= n - 1,
            n == header@.len(),
            field@ == header@.subrange(1, i as int),
        decreases n - i,
    {
        field.push(header[i]);
        assert(field@ =~= header@.subrange(1, i + 1));
        i = i + 1;
    }
    assert(seq![header@[0]] + field@ + seq![header@[n - 1]] =~= header@);
    Some((header[0], field, header[n - 1]))
}

/// Encodes an extension: a type and its data.
pub struct ExtensionEncoder<'data> {
    pub kind: i8,
    pub data: &'data [u8],
}

impl<'data> ExtensionEncoder<'data> {
    pub fn new(kind: i8, data: &'data [u8]) -> (r: Self)
        ensures
            r.kind == kind,
            r.data@ == data@,
    {
        Self { kind, data }
    }
}

impl<'data> Encode for ExtensionEncoder<'data> {
    open spec fn encoded(&self) -> Seq<u8> {
        ext_encoded(self.kind, self.data@)
    }

    open spec fn encodable(&self) -> bool {
        len_fits(self.data@.len())
    }

    open spec fn failure(&self) -> Error {
        Error::InvalidType
    }

    fn encode(&self, buf: &mut Vec<u8>) -> (r: Result<usize, Error>) {
        let len = self.data.len();
        if len > 0xffff_ffff {
            assert(buf@ =~= old(buf)@ + self.encoded());
            return Err(Error::InvalidType);
        }
        let start = buf.len();
        write_ext_header(buf, len, self.kind);
        push_slice(buf, self.data);
        assert(buf@ =~= old(buf)@ + self.encoded());
        Ok(buf.len() - start)
    }
}

/// An extension header takes the fixext marker of the data length when there is one (1, 2,
/// 4, 8 or 16 bytes), followed by the type byte; otherwise the narrowest of `ext 8`, `ext 16`
/// and `ext 32` that holds the length, then the length field and the type byte. The type byte
/// is the type's two's complement.
pub proof fn law_ext_header_format(len: nat, kind: i8)
    requires
        len_fits(len),
    ensures
        ({
            let h = ext_header(len, kind);
            &&& h.len() == (if len == 1 || len == 2 || len == 4 || len == 8 || len == 16 {
                2nat
            } else if len <= 0xff {
                3nat
            } else if len <= 0xffff {
                4nat
            } else {
                6nat
            })
            &&& h[0] == (if len == 1 {
                FIXEXT1
            } else if len == 2 {
                FIXEXT2
            } else if len == 4 {
                FIXEXT4
            } else if len == 8 {
                FIXEXT8
            } else if len == 16 {
                FIXEXT16
            } else if len <= 0xff {
                EXT8
            } else if len <= 0xffff {
                EXT16
            } else {
                EXT32
            })
            &&& h.last() as int == (if kind >= 0 {
                kind as int
            } else {
                kind + 0x100
            })
        }),
{
    lemma_be_bytes_len(len, 2);
    lemma_be_bytes_len(len, 4);
}

} // verus!
