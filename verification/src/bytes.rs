//! Fixed-width big-endian integers and small byte-buffer helpers.

use vstd::prelude::*;

verus! {

/// `256` to the power `n`.
pub open spec fn pow256(n: nat) -> nat
    decreases n,
{
    if n == 0 {
        1
    } else {
        256 * pow256((n - 1) as nat)
    }
}

/// The `n` low-order bytes of `x`, most significant first.
pub open spec fn be_bytes(x: nat, n: nat) -> Seq<u8>
    decreases n,
{
    if n == 0 {
        Seq::empty()
    } else {
        be_bytes(x / 256, (n - 1) as nat).push((x % 256) as u8)
    }
}

/// The number whose big-endian base-256 digits are `s`.
pub open spec fn be_value(s: Seq<u8>) -> nat
    decreases s.len(),
{
    if s.len() == 0 {
        0
    } else {
        be_value(s.drop_last()) * 256 + s.last() as nat
    }
}

/// `be_bytes` yields exactly as many bytes as asked for.
pub proof fn lemma_be_len(x: nat, n: nat)
    ensures
        be_bytes(x, n).len() == n,
    decreases n,
{
    if n > 0 {
        lemma_be_len(x / 256, (n - 1) as nat);
    }
}

/// Decoding undoes encoding, for every number that fits in `n` bytes.
pub proof fn lemma_be_value_of_bytes(x: nat, n: nat)
    requires
        x < pow256(n),
    ensures
        be_value(be_bytes(x, n)) == x,
    decreases n,
{
    if n > 0 {
        let m = (n - 1) as nat;
        lemma_be_value_of_bytes(x / 256, m);
        assert(be_bytes(x, n).drop_last() =~= be_bytes(x / 256, m));
    }
}

/// Encoding undoes decoding.
pub proof fn lemma_be_bytes_of_value(s: Seq<u8>)
    ensures
        be_bytes(be_value(s), s.len()) == s,
    decreases s.len(),
{
    if s.len() > 0 {
        lemma_be_bytes_of_value(s.drop_last());
        assert(be_value(s) / 256 == be_value(s.drop_last()));
        assert(be_value(s) % 256 == s.last() as nat);
        assert(be_bytes(be_value(s), s.len()) =~= s);
    }
}

/// A string of bytes denotes a number below the matching power of 256.
pub proof fn lemma_be_value_bound(s: Seq<u8>)
    ensures
        be_value(s) < pow256(s.len()),
    decreases s.len(),
{
    if s.len() > 0 {
        lemma_be_value_bound(s.drop_last());
    }
}

/// The powers of 256 behind the machine integers.
pub proof fn lemma_pow256_values()
    ensures
        pow256(1) == 0x100,
        pow256(2) == 0x1_0000,
        pow256(4) == 0x1_0000_0000,
        pow256(8) == 0x1_0000_0000_0000_0000,
{
    reveal_with_fuel(pow256, 9);
}

proof fn lemma_pow256_monotonic(m: nat, n: nat)
    requires
        m <= n,
    ensures
        pow256(m) <= pow256(n),
    decreases n,
{
    if m < n {
        lemma_pow256_monotonic(m, (n - 1) as nat);
    }
}

/// Two bytes denote a number most significant byte first.
pub proof fn law_two_bytes_big_endian(x: u16)
    ensures
        be_bytes(x as nat, 2).len() == 2,
        be_bytes(x as nat, 2)[0] * 0x100 + be_bytes(x as nat, 2)[1] == x,
{
    reveal_with_fuel(be_bytes, 3);
}

/// Four bytes denote a number most significant byte first.
pub proof fn law_four_bytes_big_endian(x: u32)
    ensures
        be_bytes(x as nat, 4).len() == 4,
        ({
            let b = be_bytes(x as nat, 4);
            b[0] * 0x100_0000 + b[1] * 0x1_0000 + b[2] * 0x100 + b[3] == x
        }),
{
    reveal_with_fuel(be_bytes, 5);
}

/// Eight bytes denote a number most significant byte first: the first four its high half, the last four
/// its low half.
pub proof fn law_eight_bytes_big_endian(x: u64)
    ensures
        be_bytes(x as nat, 8).len() == 8,
        be_bytes(x as nat, 8).take(4) == be_bytes((x / 0x1_0000_0000) as nat, 4),
        be_bytes(x as nat, 8).skip(4) == be_bytes((x % 0x1_0000_0000) as nat, 4),
{
    reveal_with_fuel(be_bytes, 9);
    assert(be_bytes(x as nat, 8).take(4) =~= be_bytes((x / 0x1_0000_0000) as nat, 4));
    assert(be_bytes(x as nat, 8).skip(4) =~= be_bytes((x % 0x1_0000_0000) as nat, 4));
}

/// The number that two bytes denote.
pub proof fn law_value_of_two(s: Seq<u8>)
    requires
        s.len() == 2,
    ensures
        be_value(s) == s[0] * 0x100 + s[1],
{
    reveal_with_fuel(be_value, 3);
    assert(s.drop_last().drop_last() =~= Seq::<u8>::empty());
}

/// The number that four bytes denote.
pub proof fn law_value_of_four(s: Seq<u8>)
    requires
        s.len() == 4,
    ensures
        be_value(s) == s[0] * 0x100_0000 + s[1] * 0x1_0000 + s[2] * 0x100 + s[3],
{
    reveal_with_fuel(be_value, 5);
    assert(s.drop_last().drop_last().drop_last().drop_last() =~= Seq::<u8>::empty());
}

/// Append the low `n` bytes of `x` to `buf`, most significant first.
pub fn put_be(buf: &mut Vec<u8>, x: u64, n: usize)
    ensures
        final(buf)@ == old(buf)@ + be_bytes(x as nat, n as nat),
    decreases n,
{
    if n > 0 {
        put_be(buf, x / 256, n - 1);
        buf.push((x % 256) as u8);
        proof {
            assert(old(buf)@ + be_bytes((x / 256) as nat, (n - 1) as nat).push((x % 256) as u8)
                =~= (old(buf)@ + be_bytes((x / 256) as nat, (n - 1) as nat)).push((x % 256) as u8));
        }
    }
}

/// Read the `n` bytes of `s` that start at `from` as a big-endian number.
pub fn get_be(s: &[u8], from: usize, n: usize) -> (x: u64)
    requires
        n <= 8,
        from + n <= s@.len(),
    ensures
        x == be_value(s@.subrange(from as int, from + n)),
{
    let mut x: u64 = 0;
    let mut i: usize = 0;
    assert(s@.subrange(from as int, from + 0) =~= Seq::<u8>::empty());
    while i < n
        invariant
            i <= n <= 8,
            from + n <= s.len(),
            x == be_value(s@.subrange(from as int, from + i)),
        decreases n - i,
    {
        proof {
            let done = s@.subrange(from as int, from + i);
            lemma_be_value_bound(done);
            lemma_pow256_monotonic(i as nat, 7);
            reveal_with_fuel(pow256, 8);
            assert(s@.subrange(from as int, from + i + 1).drop_last() =~= done);
        }
        x = x * 256 + s[from + i] as u64;
        i = i + 1;
    }
    x
}

/// Append all of `more` to `buf`.
pub fn put_slice(buf: &mut Vec<u8>, more: &[u8])
    ensures
        final(buf)@ == old(buf)@ + more@,
{
    buf.extend_from_slice(more);
    assert(buf@ =~= old(buf)@ + more@);
}

/// A copy of `s[from..to]`.
pub fn copy_range(s: &[u8], from: usize, to: usize) -> (out: Vec<u8>)
    requires
        from <= to <= s@.len(),
    ensures
        out@ == s@.subrange(from as int, to as int),
{
    let mut out: Vec<u8> = Vec::new();
    let mut i: usize = from;
    while i < to
        invariant
            from <= i <= to <= s@.len(),
            out@ == s@.subrange(from as int, i as int),
        decreases to - i,
    {
        out.push(s[i]);
        i = i + 1;
        assert(out@ =~= s@.subrange(from as int, i as int));
    }
    out
}

/// The 32 bytes of `s` that start at `from`, as an array.
pub fn array32(s: &[u8], from: usize) -> (out: [u8; 32])
    requires
        from + 32 <= s@.len(),
    ensures
        out@ == s@.subrange(from as int, from + 32),
{
    let mut out: [u8; 32] = [0u8;32];
    let mut i: usize = 0;
    while i < 32
        invariant
            i <= 32,
            from + 32 <= s.len(),
            out@.len() == 32,
            forall|k: int| 0 <= k < i ==> out@[k] == s@[from + k],
        decreases 32 - i,
    {
        out[i] = s[from + i];
        i = i + 1;
    }
    assert(out@ =~= s@.subrange(from as int, from + 32));
    out
}

/// Whether two byte strings are equal.
pub fn same_bytes(a: &[u8], b: &[u8]) -> (r: bool)
    ensures
        r == (a@ == b@),
{
    if a.len() != b.len() {
        return false;
    }
    let mut i: usize = 0;
    while i < a.len()
        invariant
            i <= a@.len(),
            a@.len() == b@.len(),
            forall|k: int| 0 <= k < i ==> a@[k] == b@[k],
        decreases a@.len() - i,
    {
        if a[i] != b[i] {
            return false;
        }
        i = i + 1;
    }
    assert(a@ =~= b@);
    true
}

} // verus!
