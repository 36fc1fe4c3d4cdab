//! Timestamps: the extension of type `-1`, in its three layouts.
//!
//! - timestamp 32: four bytes of seconds since the epoch, unsigned;
//! - timestamp 64: eight bytes holding the nanoseconds in the upper 30 bits and the seconds
//!   in the lower 34 bits;
//! - timestamp 96: four bytes of nanoseconds, then eight bytes of seconds, signed.
//!
//! The nanoseconds of a timestamp are always below one second.
use crate::bytes::{
    be_bytes, be_value, from_twos, lemma_be_bytes_be_value, lemma_be_value_be_bytes,
    lemma_be_value_bound, lemma_from_twos_twos, lemma_pow256_values, push_be, read_be,
    twos,
};
use vstd::arithmetic::div_mod::{lemma_fundamental_div_mod, lemma_fundamental_div_mod_converse};
use vstd::prelude::*;

verus! {

/// The extension type of timestamps.
pub const TIMESTAMP_EXT_TYPE: i8 = -1;

/// One second in nanoseconds.
pub const NANOS_PER_SECOND: u32 = 1_000_000_000;

/// `2^34`: the seconds of a timestamp 64 are below it.
pub const SECONDS_64_LIMIT: u64 = 0x4_0000_0000;

/// The data of a timestamp 32.
pub open spec fn ts32_bytes(seconds: nat) -> Seq<u8> {
    be_bytes(seconds, 4)
}

/// The data of a timestamp 64.
pub open spec fn ts64_bytes(seconds: nat, nanos: nat) -> Seq<u8> {
    be_bytes(nanos * 0x4_0000_0000 + seconds, 8)
}

/// The data of a timestamp 96.
pub open spec fn ts96_bytes(seconds: int, nanos: nat) -> Seq<u8> {
    be_bytes(nanos, 4) + be_bytes(twos(seconds, 8), 8)
}

/// The seconds a timestamp 32 holds, when `data` is one.
pub open spec fn spec_ts32_from(data: Seq<u8>) -> Option<nat> {
    if data.len() == 4 {
        Some(be_value(data))
    } else {
        None
    }
}

/// The seconds and nanoseconds a timestamp 64 holds, when `data` is one.
pub open spec fn spec_ts64_from(data: Seq<u8>) -> Option<(nat, nat)> {
    if data.len() == 8 && be_value(data) / 0x4_0000_0000 < NANOS_PER_SECOND {
        Some((be_value(data) % 0x4_0000_0000, be_value(data) / 0x4_0000_0000))
    } else {
        None
    }
}

/// The seconds and nanoseconds a timestamp 96 holds, when `data` is one.
pub open spec fn spec_ts96_from(data: Seq<u8>) -> Option<(int, nat)> {
    if data.len() == 12 && be_value(data.take(4)) < NANOS_PER_SECOND {
        Some((from_twos(be_value(data.skip(4)), 8), be_value(data.take(4))))
    } else {
        None
    }
}

/// A timestamp of whole seconds in `[0, 2^32)`.
#[derive(Debug, Clone, Copy, PartialEq, Eq, Structural)]
pub struct Timestamp32 {
    seconds: u32,
}

/// A timestamp of seconds in `[0, 2^34)` and nanoseconds below a second.
#[derive(Debug, Clone, Copy, PartialEq, Eq, Structural)]
pub struct Timestamp64 {
    seconds: u64,
    nanos: u32,
}

/// A timestamp of signed 64-bit seconds and nanoseconds below a second.
#[derive(Debug, Clone, Copy, PartialEq, Eq, Structural)]
pub struct Timestamp96 {
    seconds: i64,
    nanos: u32,
}

impl View for Timestamp32 {
    /// The seconds.
    type V = nat;

    closed spec fn view(&self) -> nat {
        self.seconds as nat
    }
}

impl View for Timestamp64 {
    /// The seconds and the nanoseconds.
    type V = (nat, nat);

    closed spec fn view(&self) -> (nat, nat) {
        (self.seconds as nat, self.nanos as nat)
    }
}

impl View for Timestamp96 {
    /// The seconds and the nanoseconds.
    type V = (int, nat);

    closed spec fn view(&self) -> (int, nat) {
        (self.seconds as int, self.nanos as nat)
    }
}

impl Timestamp32 {
    pub fn new(seconds: u32) -> (r: Self)
        ensures
            r@ == seconds as nat,
    {
        Timestamp32 { seconds }
    }

    /// The seconds.
    pub fn seconds(&self) -> (r: u32)
        ensures
            r == self@,
    {
        self.seconds
    }

    /// The extension data of this timestamp.
    pub fn to_bytes(&self) -> (r: Vec<u8>)
        ensures
            r@ == ts32_bytes(self@),
    {
        let mut out: Vec<u8> = Vec::new();
        push_be(&mut out, self.seconds as u64, 4);
        assert(out@ =~= ts32_bytes(self@));
        out
    }

    /// Reads a timestamp 32 from extension data; `None` unless it is four bytes.
    pub fn from_bytes(data: &[u8]) -> (r: Option<Self>)
        ensures
            match spec_ts32_from(data@) {
                Some(s) => r matches Some(t) && t@ == s,
                None => r is None,
            },
    {
        if data.len() != 4 {
            return None;
        }
        proof {
            lemma_be_value_bound(data@);
            lemma_pow256_values();
            assert(data@.subrange(0, 4) =~= data@);
        }
        let v = read_be(data, 0, 4);
        Some(Timestamp32 { seconds: v as u32 })
    }
}

impl Timestamp64 {
    #[verifier::type_invariant]
    spec fn valid(self) -> bool {
        self.seconds < SECONDS_64_LIMIT && self.nanos < NANOS_PER_SECOND
    }

    /// A timestamp 64, when the seconds are below `2^34` and the nanoseconds below a second.
    pub fn new(seconds: u64, nanos: u32) -> (r: Option<Self>)
        ensures
            r is Some <==> (seconds < SECONDS_64_LIMIT && nanos < NANOS_PER_SECOND),
            r matches Some(t) ==> t@ == (seconds as nat, nanos as nat),
    {
        if seconds < SECONDS_64_LIMIT && nanos < NANOS_PER_SECOND {
            Some(Timestamp64 { seconds, nanos })
        } else {
            None
        }
    }

    /// The seconds.
    pub fn seconds(&self) -> (r: u64)
        ensures
            r == self@.0,
            r < SECONDS_64_LIMIT,
    {
        proof {
            use_type_invariant(self);
        }
        self.seconds
    }

    /// The nanoseconds.
    pub fn nanos(&self) -> (r: u32)
        ensures
            r == self@.1,
            r < NANOS_PER_SECOND,
    {
        proof {
            use_type_invariant(self);
        }
        self.nanos
    }

    /// The extension data of this timestamp.
    pub fn to_bytes(&self) -> (r: Vec<u8>)
        ensures
            r@ == ts64_bytes(self@.0, self@.1),
    {
        proof {
            use_type_invariant(self);
        }
        let n = self.nanos as u64;
        assert(n * 0x4_0000_0000 + self.seconds < 0x1_0000_0000_0000_0000) by (nonlinear_arith)
            requires
                n < 1_000_000_000,
                self.seconds < 0x4_0000_0000,
        ;
        let v: u64 = n * 0x4_0000_0000 + self.seconds;
        let mut out: Vec<u8> = Vec::new();
        push_be(&mut out, v, 8);
        assert(out@ =~= ts64_bytes(self@.0, self@.1));
        out
    }

    /// Reads a timestamp 64 from extension data; `None` unless it is eight bytes whose
    /// nanoseconds are below a second.
    pub fn from_bytes(data: &[u8]) -> (r: Option<Self>)
        ensures
            match spec_ts64_from(data@) {
                Some((s, n)) => r matches Some(t) && t@ == (s, n),
                None => r is None,
            },
    {
        if data.len() != 8 {
            return None;
        }
        proof {
            assert(data@.subrange(0, 8) =~= data@);
        }
        let v = read_be(data, 0, 8);
        let nanos = v / SECONDS_64_LIMIT;
        if nanos >= NANOS_PER_SECOND as u64 {
            return None;
        }
        Some(Timestamp64 { seconds: v % SECONDS_64_LIMIT, nanos: nanos as u32 })
    }
}

impl Timestamp96 {
    #[verifier::type_invariant]
    spec fn valid(self) -> bool {
        self.nanos < NANOS_PER_SECOND
    }

    /// A timestamp 96, when the nanoseconds are below a second.
    pub fn new(seconds: i64, nanos: u32) -> (r: Option<Self>)
        ensures
            r is Some <==> nanos < NANOS_PER_SECOND,
            r matches Some(t) ==> t@ == (seconds as int, nanos as nat),
    {
        if nanos < NANOS_PER_SECOND {
            Some(Timestamp96 { seconds, nanos })
        } else {
            None
        }
    }

    /// The seconds.
    pub fn seconds(&self) -> (r: i64)
        ensures
            r == self@.0,
    {
        self.seconds
    }

    /// The nanoseconds.
    pub fn nanos(&self) -> (r: u32)
        ensures
            r == self@.1,
            r < NANOS_PER_SECOND,
    {
        proof {
            use_type_invariant(self);
        }
        self.nanos
    }

    /// The extension data of this timestamp.
    pub fn to_bytes(&self) -> (r: Vec<u8>)
        ensures
            r@ == ts96_bytes(self@.0, self@.1),
    {
        let mut out: Vec<u8> = Vec::new();
        push_be(&mut out, self.nanos as u64, 4);
        let u: u64 = if self.seconds >= 0 {
            self.seconds as u64
        } else {
            crate::encode::integer::twos64(self.seconds)
        };
        push_be(&mut out, u, 8);
        assert(out@ =~= ts96_bytes(self@.0, self@.1));
        out
    }

    /// Reads a timestamp 96 from extension data; `None` unless it is twelve bytes whose
    /// nanoseconds are below a second.
    pub fn from_bytes(data: &[u8]) -> (r: Option<Self>)
        ensures
            match spec_ts96_from(data@) {
                Some((s, n)) => r matches Some(t) && t@ == (s, n),
                None => r is None,
            },
    {
        if data.len() != 12 {
            return None;
        }
        proof {
            lemma_pow256_values();
            assert(data@.subrange(0, 4) =~= data@.take(4));
            assert(data@.subrange(4, 12) =~= data@.skip(4));
            lemma_be_value_bound(data@.take(4));
            lemma_be_value_bound(data@.skip(4));
        }
        let nanos = read_be(data, 0, 4);
        if nanos >= NANOS_PER_SECOND as u64 {
            return None;
        }
        let u = read_be(data, 4, 8);
        let seconds: i64 = if u < 0x8000_0000_0000_0000 {
            u as i64
        } else {
            let low: u64 = u - 0x8000_0000_0000_0000;
            (low as i64) - 0x7fff_ffff_ffff_ffff - 1
        };
        Some(Timestamp96 { seconds, nanos: nanos as u32 })
    }
}

/// The data of a timestamp 32 reads back as its seconds.
pub proof fn law_ts32_roundtrip(seconds: nat)
    requires
        seconds <= u32::MAX,
    ensures
        spec_ts32_from(ts32_bytes(seconds)) == Some(seconds),
{
    lemma_pow256_values();
    lemma_be_value_be_bytes(seconds, 4);
}

/// The data of a timestamp 64 reads back as its seconds and nanoseconds, whenever the seconds
/// are below `2^34` and the nanoseconds below a second.
pub proof fn law_ts64_roundtrip(seconds: nat, nanos: nat)
    requires
        seconds < SECONDS_64_LIMIT,
        nanos < NANOS_PER_SECOND,
    ensures
        spec_ts64_from(ts64_bytes(seconds, nanos)) == Some((seconds, nanos)),
{
    lemma_pow256_values();
    let v = nanos * 0x4_0000_0000 + seconds;
    assert(v < 0x1_0000_0000_0000_0000) by (nonlinear_arith)
        requires
            nanos < 1_000_000_000,
            seconds < 0x4_0000_0000,
            v == nanos * 0x4_0000_0000 + seconds,
    ;
    lemma_be_value_be_bytes(v, 8);
    lemma_fundamental_div_mod_converse(v as int, 0x4_0000_0000, nanos as int, seconds as int);
}

/// The data of a timestamp 96 reads back as its seconds and nanoseconds, whenever the
/// nanoseconds are below a second.
pub proof fn law_ts96_roundtrip(seconds: int, nanos: nat)
    requires
        i64::MIN <= seconds <= i64::MAX,
        nanos < NANOS_PER_SECOND,
    ensures
        spec_ts96_from(ts96_bytes(seconds, nanos)) == Some((seconds, nanos)),
{
    lemma_pow256_values();
    lemma_from_twos_twos(seconds, 8);
    lemma_be_value_be_bytes(nanos, 4);
    lemma_be_value_be_bytes(twos(seconds, 8), 8);
    let data = ts96_bytes(seconds, nanos);
    assert(data.take(4) =~= be_bytes(nanos, 4));
    assert(data.skip(4) =~= be_bytes(twos(seconds, 8), 8));
}

/// Timestamp data that reads back as a timestamp 32 is that timestamp's data.
pub proof fn law_ts32_bytes_roundtrip(data: Seq<u8>)
    requires
        spec_ts32_from(data) is Some,
    ensures
        spec_ts32_from(data) matches Some(seconds) ==> ts32_bytes(seconds) == data,
{
    lemma_be_bytes_be_value(data);
}

/// Timestamp data that reads back as a timestamp 64 is that timestamp's data.
pub proof fn law_ts64_bytes_roundtrip(data: Seq<u8>)
    requires
        spec_ts64_from(data) is Some,
    ensures
        spec_ts64_from(data) matches Some((seconds, nanos)) ==> ts64_bytes(seconds, nanos) == data,
{
    let v = be_value(data);
    lemma_fundamental_div_mod(v as int, 0x4_0000_0000);
    assert(v == (v / 0x4_0000_0000) * 0x4_0000_0000 + v % 0x4_0000_0000) by (nonlinear_arith)
        requires
            v == 0x4_0000_0000 * (v / 0x4_0000_0000) + v % 0x4_0000_0000,
    ;
    lemma_be_bytes_be_value(data);
}

/// Timestamp data that reads back as a timestamp 96 is that timestamp's data.
pub proof fn law_ts96_bytes_roundtrip(data: Seq<u8>)
    requires
        spec_ts96_from(data) is Some,
    ensures
        spec_ts96_from(data) matches Some((seconds, nanos)) ==> ts96_bytes(seconds, nanos) == data,
{
    lemma_pow256_values();
    let u = be_value(data.skip(4));
    lemma_be_value_bound(data.skip(4));
    assert(twos(from_twos(u, 8), 8) == u);
    lemma_be_bytes_be_value(data.take(4));
    lemma_be_bytes_be_value(data.skip(4));
    assert(data.take(4) + data.skip(4) =~= data);
}

} // verus!
