//! Extension values whose data lives in a buffer of fixed size.
use vstd::prelude::*;
use vstd::slice::slice_subrange;

verus! {

/// An extension whose data is held in a buffer of `N` bytes: its type code and the first
/// `len` bytes of the buffer.
#[derive(Debug, Clone, Copy, PartialEq, Eq)]
pub struct FixedExtension<const N: usize> {
    kind: i8,
    len: usize,
    data: [u8; N],
}

impl<const N: usize> View for FixedExtension<N> {
    /// The type code and the data carried.
    type V = (i8, Seq<u8>);

    closed spec fn view(&self) -> (i8, Seq<u8>) {
        (self.kind, self.data@.take(self.len as int))
    }
}

impl<const N: usize> FixedExtension<N> {
    /// The data carried never exceeds the buffer.
    #[verifier::type_invariant]
    spec fn wf(&self) -> bool {
        self.len <= N
    }

    /// The application-defined extension type code.
    pub fn kind(&self) -> (r: i8)
        ensures
            r == self@.0,
    {
        self.kind
    }

    /// An extension of type `kind` carrying `data`, when it fits `N` bytes; `None` when it
    /// is longer.
    pub fn new(kind: i8, data: &[u8]) -> (r: Option<Self>)
        ensures
            r is Some <==> data@.len() <= N,
            r matches Some(e) ==> e@ == (kind, data@),
    {
        let len = data.len();
        if len > N {
            return None;
        }
        let mut buf = [0u8; N];
        let mut i: usize = 0;
        while i < len
            invariant
                len == data@.len() <= N,
                i <= len,
                buf@.len() == N,
                forall|j: int| 0 <= j < i ==> buf@[j] == data@[j],
            decreases len - i,
        {
            buf[i] = data[i];
            i = i + 1;
        }
        let r = FixedExtension { kind, len, data: buf };
        assert(r.data@.take(len as int) =~= data@);
        Some(r)
    }

    /// An extension of type `kind` whose data is all of `data`.
    pub fn new_fixed(kind: i8, data: [u8; N]) -> (r: Self)
        ensures
            r@ == (kind, data@),
    {
        let r = FixedExtension { kind, len: N, data };
        assert(r.data@.take(N as int) =~= data@);
        r
    }

    /// The data carried.
    pub fn as_slice(&self) -> (r: &[u8])
        ensures
            r@ == self@.1,
    {
        proof {
            use_type_invariant(self);
        }
        slice_subrange(self.data.as_slice(), 0, self.len)
    }
}

} // verus!
