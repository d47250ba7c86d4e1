//! Big-endian integers on the wire.

use vstd::prelude::*;

verus! {

/// `256` to the power `n`.
pub open spec fn pow256(n: nat) -> nat
    decreases n,
{
    if n == 0 {
        1
    } else {
        256 * pow256((n - 1) as nat)
    }
}

/// The `n` octets that spell `v` modulo `256^n`, most significant first.
pub open spec fn be_bytes(v: nat, n: nat) -> Seq<u8>
    decreases n,
{
    if n == 0 {
        Seq::empty()
    } else {
        be_bytes(v / 256, (n - 1) as nat).push((v % 256) as u8)
    }
}

/// The number that the octets of `s` spell, most significant first.
pub open spec fn be_value(s: Seq<u8>) -> nat
    decreases s.len(),
{
    if s.len() == 0 {
        0
    } else {
        be_value(s.drop_last()) * 256 + s.last() as nat
    }
}

/// `be_bytes` yields exactly `n` octets.
pub proof fn lemma_be_bytes_len(v: nat, n: nat)
    ensures
        be_bytes(v, n).len() == n,
    decreases n,
{
    if n > 0 {
        lemma_be_bytes_len(v / 256, (n - 1) as nat);
    }
}

/// A number that fits in `n` octets is recovered from its encoding.
pub proof fn lemma_be_value_of_bytes(v: nat, n: nat)
    requires
        v < pow256(n),
    ensures
        be_value(be_bytes(v, n)) == v,
    decreases n,
{
    if n > 0 {
        let m = (n - 1) as nat;
        assert(v / 256 < pow256(m));
        lemma_be_value_of_bytes(v / 256, m);
        let s = be_bytes(v, n);
        assert(s.drop_last() =~= be_bytes(v / 256, m));
        assert(s.last() == (v % 256) as u8);
    }
}

/// The octets of a number are bounded by their count.
pub proof fn lemma_be_value_bound(s: Seq<u8>)
    ensures
        be_value(s) < pow256(s.len()),
    decreases s.len(),
{
    if s.len() > 0 {
        lemma_be_value_bound(s.drop_last());
    }
}

/// Encoding the number that octets spell gives the octets back.
pub proof fn lemma_be_bytes_of_value(s: Seq<u8>)
    ensures
        be_bytes(be_value(s), s.len()) == s,
    decreases s.len(),
{
    if s.len() > 0 {
        let dl = s.drop_last();
        lemma_be_bytes_of_value(dl);
        let v = be_value(s);
        assert(v / 256 == be_value(dl));
        assert(v % 256 == s.last() as nat);
        assert(be_bytes(v, s.len()) =~= dl.push(s.last()));
        assert(dl.push(s.last()) =~= s);
    }
}

/// The widths that the wire formats of this crate use.
pub proof fn lemma_pow256_values()
    ensures
        pow256(1) == 0x100,
        pow256(2) == 0x1_0000,
        pow256(4) == 0x1_0000_0000,
        pow256(8) == 0x1_0000_0000_0000_0000,
        pow256(16) == 0x1_0000_0000_0000_0000_0000_0000_0000_0000,
{
    reveal_with_fuel(pow256, 17);
}

/// Appends to `out` the `n` octets of `v`, most significant first.
pub fn append_be(out: &mut Vec<u8>, v: u128, n: usize)
    requires
        n <= 16,
    ensures
        final(out)@ == old(out)@ + be_bytes(v as nat, n as nat),
{
    let mut tmp: Vec<u8> = Vec::new();
    let mut j: usize = 0;
    while j < n
        invariant
            j <= n,
            tmp@.len() == j,
        decreases n - j,
    {
        tmp.push(0u8);
        j += 1;
    }
    let mut k: usize = n;
    let mut x: u128 = v;
    while k > 0
        invariant
            k <= n,
            tmp@.len() == n,
            be_bytes(v as nat, n as nat) == be_bytes(x as nat, k as nat) + tmp@.subrange(
                k as int,
                n as int,
            ),
        decreases k,
    {
        let ghost before = tmp@;
        k -= 1;
        tmp.set(k, (x % 256) as u8);
        proof {
            assert(tmp@.subrange(k as int, n as int) =~= seq![(x % 256) as u8] + before.subrange(
                k as int + 1,
                n as int,
            ));
            assert(be_bytes(x as nat, (k + 1) as nat) == be_bytes((x / 256) as nat, k as nat).push(
                (x % 256) as u8,
            ));
            assert(be_bytes((x / 256) as nat, k as nat).push((x % 256) as u8) + before.subrange(
                k as int + 1,
                n as int,
            ) =~= be_bytes((x / 256) as nat, k as nat) + tmp@.subrange(k as int, n as int));
        }
        x = x / 256;
    }
    proof {
        assert(tmp@.subrange(0, n as int) =~= tmp@);
        assert(be_bytes(x as nat, 0) + tmp@ =~= tmp@);
    }
    let mut i: usize = 0;
    while i < n
        invariant
            i <= n,
            tmp@.len() == n,
            out@ == old(out)@ + tmp@.subrange(0, i as int),
        decreases n - i,
    {
        out.push(tmp[i]);
        proof {
            assert(tmp@.subrange(0, i as int + 1) =~= tmp@.subrange(0, i as int).push(tmp@[i as int]));
        }
        i += 1;
    }
    proof {
        assert(tmp@.subrange(0, n as int) =~= tmp@);
    }
}

/// Reads the `n` octets of `s` that start at `start` as one number, most
/// significant first.
pub fn read_be(s: &[u8], start: usize, n: usize) -> (v: u128)
    requires
        n <= 16,
        start + n <= s@.len(),
    ensures
        v as nat == be_value(s@.subrange(start as int, start + n)),
{
    let len: usize = s.len();
    let mut acc: u128 = 0;
    let mut i: usize = 0;
    while i < n
        invariant
            i <= n,
            n <= 16,
            start + n <= s@.len(),
            s@.len() == len,
            acc as nat == be_value(s@.subrange(start as int, start + i)),
        decreases n - i,
    {
        let b = s[start + i];
        proof {
            let cur = s@.subrange(start as int, start + i);
            let next = s@.subrange(start as int, start + i + 1);
            assert(next.drop_last() =~= cur);
            assert(next.last() == b);
            lemma_be_value_bound(cur);
            lemma_be_value_bound(next);
            lemma_pow256_monotone((i + 1) as nat, 16);
            lemma_pow256_values();
        }
        acc = acc * 256 + b as u128;
        i += 1;
    }
    acc
}

/// Powers of 256 grow with the exponent.
pub proof fn lemma_pow256_monotone(a: nat, b: nat)
    requires
        a <= b,
    ensures
        pow256(a) <= pow256(b),
    decreases b,
{
    if a < b {
        lemma_pow256_monotone(a, (b - 1) as nat);
    }
}

} // verus!
