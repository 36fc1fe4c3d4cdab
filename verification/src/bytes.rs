//! Big-endian byte strings: the payload layout of every fixed-width MessagePack field.
use vstd::prelude::*;

verus! {

/// `256` to the power `n`: one more than the largest value `n` bytes can hold.
pub open spec fn pow256(n: nat) -> nat
    decreases n,
{
    if n == 0 {
        1
    } else {
        256 * pow256((n - 1) as nat)
    }
}

/// The `n` low-order bytes of `v`, most significant first.
pub open spec fn be_bytes(v: nat, n: nat) -> Seq<u8>
    decreases n,
{
    if n == 0 {
        seq![]
    } else {
        be_bytes(v / 256, (n - 1) as nat).push((v % 256) as u8)
    }
}

/// The value of a byte string read most significant byte first.
pub open spec fn be_value(s: Seq<u8>) -> nat
    decreases s.len(),
{
    if s.len() == 0 {
        0
    } else {
        be_value(s.drop_last()) * 256 + s.last() as nat
    }
}

/// The two's complement representation of `v` in `n` bytes, as an unsigned number.
pub open spec fn twos(v: int, n: nat) -> nat {
    if v >= 0 {
        v as nat
    } else {
        (v + pow256(n)) as nat
    }
}

/// The signed number whose two's complement representation in `n` bytes is `u`.
pub open spec fn from_twos(u: nat, n: nat) -> int {
    if 2 * u >= pow256(n) {
        u - pow256(n)
    } else {
        u as int
    }
}

pub proof fn lemma_pow256_values()
    ensures
        pow256(0) == 1,
        pow256(1) == 0x100,
        pow256(2) == 0x1_0000,
        pow256(3) == 0x100_0000,
        pow256(4) == 0x1_0000_0000,
        pow256(8) == 0x1_0000_0000_0000_0000,
{
    reveal_with_fuel(pow256, 9);
}

pub proof fn lemma_pow256_mono(a: nat, b: nat)
    requires
        a <= b,
    ensures
        pow256(a) <= pow256(b),
        pow256(a) >= 1,
    decreases b,
{
    if b > a {
        lemma_pow256_mono(a, (b - 1) as nat);
    } else if a > 0 {
        lemma_pow256_mono((a - 1) as nat, (a - 1) as nat);
    }
}

pub proof fn lemma_be_bytes_len(v: nat, n: nat)
    ensures
        be_bytes(v, n).len() == n,
    decreases n,
{
    if n > 0 {
        lemma_be_bytes_len(v / 256, (n - 1) as nat);
    }
}

/// Reading back the `n` bytes of a value that fits in them gives the value.
pub proof fn lemma_be_value_be_bytes(v: nat, n: nat)
    requires
        v < pow256(n),
    ensures
        be_value(be_bytes(v, n)) == v,
        be_bytes(v, n).len() == n,
    decreases n,
{
    lemma_be_bytes_len(v, n);
    if n > 0 {
        lemma_be_value_be_bytes(v / 256, (n - 1) as nat);
        let s = be_bytes(v, n);
        assert(s.drop_last() =~= be_bytes(v / 256, (n - 1) as nat));
    }
}

/// A byte string denotes a value below `256` to the power of its length.
pub proof fn lemma_be_value_bound(s: Seq<u8>)
    ensures
        be_value(s) < pow256(s.len()),
    decreases s.len(),
{
    if s.len() > 0 {
        lemma_be_value_bound(s.drop_last());
    }
}

/// Writing out the value of a byte string in as many bytes gives the byte string back.
pub proof fn lemma_be_bytes_be_value(s: Seq<u8>)
    ensures
        be_bytes(be_value(s), s.len()) == s,
    decreases s.len(),
{
    if s.len() > 0 {
        lemma_be_bytes_be_value(s.drop_last());
        let v = be_value(s);
        assert(v / 256 == be_value(s.drop_last()));
        assert(be_bytes(v, s.len()) =~= s.drop_last().push(s.last()));
        assert(s.drop_last().push(s.last()) =~= s);
    }
}

/// Two's complement in `n` bytes is undone by reading the bytes back as signed.
pub proof fn lemma_from_twos_twos(v: int, n: nat)
    requires
        n > 0,
        -pow256(n) <= 2 * v < pow256(n),
    ensures
        twos(v, n) < pow256(n),
        from_twos(twos(v, n), n) == v,
{
}

/// Appends the `n` low-order bytes of `v`, most significant first.
pub fn push_be(buf: &mut Vec<u8>, v: u64, n: usize)
    ensures
        final(buf)@ == old(buf)@ + be_bytes(v as nat, n as nat),
    decreases n,
{
    if n > 0 {
        push_be(buf, v / 256, n - 1);
        buf.push((v % 256) as u8);
        assert(final(buf)@ =~= old(buf)@ + be_bytes(v as nat, n as nat));
    } else {
        assert(final(buf)@ =~= old(buf)@ + be_bytes(v as nat, n as nat));
    }
}

/// Appends every byte of `s`.
pub fn push_slice(buf: &mut Vec<u8>, s: &[u8])
    ensures
        final(buf)@ == old(buf)@ + s@,
{
    let ghost start = buf@;
    let mut i: usize = 0;
    while i < s.len()
        invariant
            i <= s@.len(),
            buf@ == start + s@.subrange(0, i as int),
        decreases s@.len() - i,
    {
        buf.push(s[i]);
        i = i + 1;
        assert(buf@ =~= start + s@.subrange(0, i as int));
    }
    assert(s@.subrange(0, i as int) =~= s@);
}

/// Reads `n` bytes starting at `start` as a big-endian number.
pub fn read_be(s: &[u8], start: usize, n: usize) -> (v: u64)
    requires
        n <= 8,
        start + n <= s@.len(),
    ensures
        v == be_value(s@.subrange(start as int, start + n)),
{
    let mut acc: u64 = 0;
    let mut i: usize = 0;
    let len = s.len();
    proof {
        lemma_pow256_values();
    }
    while i < n
        invariant
            i <= n <= 8,
            start + n <= s@.len(),
            len == s@.len(),
            acc == be_value(s@.subrange(start as int, start + i)),
            acc < pow256(i as nat),
            pow256(8) == 0x1_0000_0000_0000_0000,
        decreases n - i,
    {
        let ghost prefix = s@.subrange(start as int, start + i);
        proof {
            lemma_pow256_mono((i + 1) as nat, 8);
            assert(s@.subrange(start as int, start + i + 1).drop_last() =~= prefix);
        }
        acc = acc * 256 + s[start + i] as u64;
        i = i + 1;
    }
    acc
}

} // verus!
