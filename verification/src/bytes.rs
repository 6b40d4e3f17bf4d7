//! The mathematical model of the byte encodings used by SEG-Y files:
//! unsigned values stored least significant byte first or most significant
//! byte first, and two's complement signed values.
use vstd::prelude::*;

verus! {

/// `256` raised to the power `k`: the number of values that `k` bytes can hold.
pub open spec fn pow256(k: nat) -> nat
    decreases k,
{
    if k == 0 {
        1
    } else {
        256 * pow256((k - 1) as nat)
    }
}

/// The value of `s` read least significant byte first (little-endian).
pub open spec fn le_nat(s: Seq<u8>) -> nat
    decreases s.len(),
{
    if s.len() == 0 {
        0
    } else {
        s[0] as nat + 256 * le_nat(s.drop_first())
    }
}

/// The value of `s` read most significant byte first (big-endian).
pub open spec fn be_nat(s: Seq<u8>) -> nat
    decreases s.len(),
{
    if s.len() == 0 {
        0
    } else {
        256 * be_nat(s.drop_last()) + s.last() as nat
    }
}

/// The `k` low bytes of `n`, least significant first.
pub open spec fn le_bytes(n: nat, k: nat) -> Seq<u8>
    decreases k,
{
    if k == 0 {
        Seq::empty()
    } else {
        seq![(n % 256) as u8] + le_bytes(n / 256, (k - 1) as nat)
    }
}

/// The `k` low bytes of `n`, most significant first.
pub open spec fn be_bytes(n: nat, k: nat) -> Seq<u8>
    decreases k,
{
    if k == 0 {
        Seq::empty()
    } else {
        be_bytes(n / 256, (k - 1) as nat).push((n % 256) as u8)
    }
}

/// The unsigned value of the `k` bytes of `s` from offset `off`, read most
/// significant byte first when `swapped`, least significant first otherwise.
pub open spec fn uint_at(s: Seq<u8>, off: int, k: nat, swapped: bool) -> nat {
    uint_of(s.subrange(off, off + k), swapped)
}

/// The two's complement value of the `k` bytes of `s` from offset `off`.
pub open spec fn int_at(s: Seq<u8>, off: int, k: nat, swapped: bool) -> int {
    to_signed(uint_at(s, off, k, swapped), k)
}

/// The `k` low bytes of `n`, most significant first when `swapped`, least
/// significant first otherwise.
pub open spec fn uint_bytes(n: nat, k: nat, swapped: bool) -> Seq<u8> {
    if swapped {
        be_bytes(n, k)
    } else {
        le_bytes(n, k)
    }
}

/// The `k`-byte two's complement pattern of `v`, in the byte order of `swapped`.
pub open spec fn int_bytes(v: int, k: nat, swapped: bool) -> Seq<u8> {
    uint_bytes(to_unsigned(v, k), k, swapped)
}

/// `uint_bytes` produces exactly `k` bytes.
pub broadcast proof fn lemma_uint_bytes_len(n: nat, k: nat, swapped: bool)
    ensures
        #[trigger] uint_bytes(n, k, swapped).len() == k,
{
    lemma_bytes_len(n, k);
}

/// The value of the bytes that `int_bytes` stores, read in the same byte order,
/// is the value stored, for values in range.
pub proof fn lemma_int_bytes_roundtrip(v: int, k: nat, swapped: bool)
    requires
        k > 0,
        -(pow256(k) / 2) <= v < pow256(k) / 2,
    ensures
        to_signed(uint_of(int_bytes(v, k, swapped), swapped), k) == v,
{
    lemma_signed_roundtrip(v, k);
    lemma_le_value_roundtrip(to_unsigned(v, k), k);
    lemma_be_value_roundtrip(to_unsigned(v, k), k);
}

/// The value of the bytes that `uint_bytes` stores, read in the same byte
/// order, is the value stored, for values below `256^k`.
pub proof fn lemma_uint_bytes_roundtrip(n: nat, k: nat, swapped: bool)
    requires
        n < pow256(k),
    ensures
        uint_of(uint_bytes(n, k, swapped), swapped) == n,
{
    lemma_le_value_roundtrip(n, k);
    lemma_be_value_roundtrip(n, k);
}

/// The value of the bytes `b`, read most significant byte first when
/// `swapped`, least significant first otherwise.
pub open spec fn uint_of(b: Seq<u8>, swapped: bool) -> nat {
    if swapped {
        be_nat(b)
    } else {
        le_nat(b)
    }
}

/// `s` with the bytes from offset `off` replaced by `p`.
pub open spec fn place(s: Seq<u8>, off: int, p: Seq<u8>) -> Seq<u8> {
    s.take(off) + p + s.skip(off + p.len())
}

/// Replacing bytes keeps the length, puts `p` at `off`, and leaves every byte
/// range that does not meet `p` as it was.
pub proof fn lemma_place(s: Seq<u8>, off: int, p: Seq<u8>, o: int, e: int)
    requires
        0 <= off,
        off + p.len() <= s.len(),
        0 <= o <= e <= s.len(),
    ensures
        place(s, off, p).len() == s.len(),
        o == off && e == off + p.len() ==> place(s, off, p).subrange(o, e) == p,
        e <= off || off + p.len() <= o ==> place(s, off, p).subrange(o, e) == s.subrange(o, e),
{
    let t = place(s, off, p);
    if o == off && e == off + p.len() {
        assert(t.subrange(o, e) =~= p);
    }
    if e <= off || off + p.len() <= o {
        assert(t.subrange(o, e) =~= s.subrange(o, e));
    }
}

/// Putting back the bytes that are already there changes nothing.
pub proof fn lemma_place_same(s: Seq<u8>, off: int, e: int)
    requires
        0 <= off <= e <= s.len(),
    ensures
        place(s, off, s.subrange(off, e)) == s,
{
    assert(place(s, off, s.subrange(off, e)) =~= s);
}

/// The signed value whose `k`-byte two's complement pattern is `n`.
pub open spec fn to_signed(n: nat, k: nat) -> int {
    if n < pow256(k) / 2 {
        n as int
    } else {
        n - pow256(k)
    }
}

/// The `k`-byte two's complement pattern of the signed value `v`.
pub open spec fn to_unsigned(v: int, k: nat) -> nat {
    if v < 0 {
        (v + pow256(k)) as nat
    } else {
        v as nat
    }
}

/// The powers of 256 that the fixed-width encodings use.
pub proof fn lemma_pow256_values()
    ensures
        pow256(0) == 1,
        pow256(1) == 0x100,
        pow256(2) == 0x1_0000,
        pow256(3) == 0x100_0000,
        pow256(4) == 0x1_0000_0000,
        pow256(8) == 0x1_0000_0000_0000_0000,
{
    reveal_with_fuel(pow256, 9);
}

/// `256^j <= 256^k` whenever `j <= k`.
pub proof fn lemma_pow256_monotone(j: nat, k: nat)
    requires
        j <= k,
    ensures
        pow256(j) <= pow256(k),
    decreases k,
{
    if j < k {
        lemma_pow256_monotone(j, (k - 1) as nat);
    }
}

/// `256^k` as a machine integer, for `k <= 8`.
pub fn pow256_exec(k: usize) -> (p: u128)
    requires
        k <= 8,
    ensures
        p as nat == pow256(k as nat),
{
    proof {
        lemma_pow256_values();
    }
    let mut p: u128 = 1;
    let mut i: usize = 0;
    while i < k
        invariant
            i <= k <= 8,
            p as nat == pow256(i as nat),
            pow256(8) == 0x1_0000_0000_0000_0000,
        decreases k - i,
    {
        proof {
            lemma_pow256_monotone((i + 1) as nat, 8);
        }
        p = p * 256;
        i = i + 1;
    }
    p
}

/// `k` bytes hold values below `256^k`, whatever the byte order.
pub proof fn lemma_nat_bound(s: Seq<u8>)
    ensures
        le_nat(s) < pow256(s.len()),
        be_nat(s) < pow256(s.len()),
    decreases s.len(),
{
    if s.len() > 0 {
        lemma_nat_bound(s.drop_first());
        lemma_nat_bound(s.drop_last());
    }
}

/// `le_bytes` and `be_bytes` produce exactly `k` bytes.
pub proof fn lemma_bytes_len(n: nat, k: nat)
    ensures
        le_bytes(n, k).len() == k,
        be_bytes(n, k).len() == k,
    decreases k,
{
    if k > 0 {
        lemma_bytes_len(n / 256, (k - 1) as nat);
    }
}

/// Reading back what was stored least significant byte first gives the value.
pub proof fn lemma_le_value_roundtrip(n: nat, k: nat)
    requires
        n < pow256(k),
    ensures
        le_nat(le_bytes(n, k)) == n,
    decreases k,
{
    if k > 0 {
        lemma_le_value_roundtrip(n / 256, (k - 1) as nat);
        lemma_bytes_len(n / 256, (k - 1) as nat);
        let s = le_bytes(n, k);
        assert(s.drop_first() =~= le_bytes(n / 256, (k - 1) as nat));
    }
}

/// Reading back what was stored most significant byte first gives the value.
pub proof fn lemma_be_value_roundtrip(n: nat, k: nat)
    requires
        n < pow256(k),
    ensures
        be_nat(be_bytes(n, k)) == n,
    decreases k,
{
    if k > 0 {
        lemma_be_value_roundtrip(n / 256, (k - 1) as nat);
        let s = be_bytes(n, k);
        assert(s.drop_last() =~= be_bytes(n / 256, (k - 1) as nat));
    }
}

/// Storing the value of some bytes least significant first gives the bytes back.
pub proof fn lemma_le_bytes_roundtrip(s: Seq<u8>)
    ensures
        le_bytes(le_nat(s), s.len()) == s,
    decreases s.len(),
{
    if s.len() > 0 {
        let rest = s.drop_first();
        lemma_le_bytes_roundtrip(rest);
        let n = le_nat(s);
        assert(n % 256 == s[0] as nat);
        assert(n / 256 == le_nat(rest));
        assert(le_bytes(n, s.len()) =~= s);
    }
}

/// Storing the value of some bytes most significant first gives the bytes back.
pub proof fn lemma_be_bytes_roundtrip(s: Seq<u8>)
    ensures
        be_bytes(be_nat(s), s.len()) == s,
    decreases s.len(),
{
    if s.len() > 0 {
        let rest = s.drop_last();
        lemma_be_bytes_roundtrip(rest);
        let n = be_nat(s);
        assert(n % 256 == s.last() as nat);
        assert(n / 256 == be_nat(rest));
        assert(be_bytes(n, s.len()) =~= s);
    }
}

/// Reading most significant byte first is reading the reversed bytes least
/// significant byte first.
pub proof fn lemma_be_is_reversed_le(s: Seq<u8>)
    ensures
        be_nat(s) == le_nat(s.reverse()),
    decreases s.len(),
{
    if s.len() > 0 {
        lemma_be_is_reversed_le(s.drop_last());
        assert(s.reverse().drop_first() =~= s.drop_last().reverse());
    }
}

/// Storing most significant byte first stores the least-significant-first
/// bytes in reverse order.
pub proof fn lemma_be_bytes_is_reversed_le_bytes(n: nat, k: nat)
    ensures
        be_bytes(n, k) == le_bytes(n, k).reverse(),
    decreases k,
{
    if k > 0 {
        lemma_be_bytes_is_reversed_le_bytes(n / 256, (k - 1) as nat);
        lemma_bytes_len(n / 256, (k - 1) as nat);
        assert(be_bytes(n, k) =~= le_bytes(n, k).reverse());
    }
}

/// The two's complement pattern of a value in range gives the value back.
pub proof fn lemma_signed_roundtrip(v: int, k: nat)
    requires
        k > 0,
        -(pow256(k) / 2) <= v < pow256(k) / 2,
    ensures
        to_unsigned(v, k) < pow256(k),
        to_signed(to_unsigned(v, k), k) == v,
{
    let p = pow256(k);
    assert(p == 256 * pow256((k - 1) as nat));
    assert(p / 2 == 128 * pow256((k - 1) as nat));
}

/// A `k`-byte pattern read as a signed value gives the pattern back.
pub proof fn lemma_unsigned_roundtrip(n: nat, k: nat)
    requires
        k > 0,
        n < pow256(k),
    ensures
        -(pow256(k) / 2) <= to_signed(n, k) < pow256(k) / 2,
        to_unsigned(to_signed(n, k), k) == n,
{
    let p = pow256(k);
    assert(p == 256 * pow256((k - 1) as nat));
    assert(p / 2 == 128 * pow256((k - 1) as nat));
}

/// Storing the `k` low bytes of any value and reading them back gives the
/// value modulo `256^k`, in either byte order.
pub proof fn lemma_value_mod(n: nat, k: nat)
    ensures
        le_nat(le_bytes(n, k)) == n % pow256(k),
        be_nat(be_bytes(n, k)) == n % pow256(k),
    decreases k,
{
    if k == 0 {
    } else {
        let p = pow256((k - 1) as nat);
        lemma_pow256_monotone(0, (k - 1) as nat);
        lemma_value_mod(n / 256, (k - 1) as nat);
        lemma_bytes_len(n / 256, (k - 1) as nat);
        vstd::arithmetic::div_mod::lemma_mod_breakdown(n as int, 256, p as int);
        assert(le_bytes(n, k).drop_first() =~= le_bytes(n / 256, (k - 1) as nat));
        assert(be_bytes(n, k).drop_last() =~= be_bytes(n / 256, (k - 1) as nat));
    }
}

/// Law: a signed value in range that `write_iN` stores, `read_iN` reads back
/// (`N` of 8, 16, 32 or 64 bits); the same holds of the `_sw` pair, which store
/// and read most significant byte first.
pub proof fn law_signed_write_read(v: int, k: nat)
    requires
        k > 0,
        -(pow256(k) / 2) <= v < pow256(k) / 2,
    ensures
        to_signed(le_nat(le_bytes(to_unsigned(v, k), k)), k) == v,
        to_signed(be_nat(be_bytes(to_unsigned(v, k), k)), k) == v,
{
    lemma_signed_roundtrip(v, k);
    lemma_le_value_roundtrip(to_unsigned(v, k), k);
    lemma_be_value_roundtrip(to_unsigned(v, k), k);
}

/// Law: an unsigned value that `write_uN` stores, `read_uN` reads back (`N` of
/// 8, 16, 32 or 64 bits, and 24 bits for values below `2^24`), in either byte
/// order.
pub proof fn law_unsigned_write_read(v: nat, k: nat)
    requires
        v < pow256(k),
    ensures
        le_nat(le_bytes(v, k)) == v,
        be_nat(be_bytes(v, k)) == v,
{
    lemma_le_value_roundtrip(v, k);
    lemma_be_value_roundtrip(v, k);
}

/// Law: `read_i24` after `write_i24` (and the `_sw` pair) gives the value
/// back modulo `2^24`: the three stored bytes are read without sign extension.
pub proof fn law_i24_write_read(v: int)
    requires
        -(pow256(4) / 2) <= v < pow256(4) / 2,
    ensures
        le_nat(le_bytes(to_unsigned(v, 4), 3)) == v % 0x100_0000,
        be_nat(be_bytes(to_unsigned(v, 4), 3)) == v % 0x100_0000,
        0 <= v < 0x100_0000 ==> le_nat(le_bytes(to_unsigned(v, 4), 3)) == v,
{
    lemma_pow256_values();
    lemma_value_mod(to_unsigned(v, 4), 3);
    let u = to_unsigned(v, 4) as int;
    assert(u % 0x100_0000 == v % 0x100_0000) by {
        if v < 0 {
            vstd::arithmetic::div_mod::lemma_mod_multiples_vanish(0x100, v, 0x100_0000);
            assert(u == 0x100 * 0x100_0000 + v);
        }
    }
}

/// Law: bytes that `read_iN` decodes, `write_iN` stores back unchanged
/// (likewise `read_uN`/`write_uN` and the `_sw` pairs), for `k` of 1, 2, 4 or 8
/// bytes.
pub proof fn law_read_write_bytes(s: Seq<u8>, k: nat)
    requires
        s.len() == k,
        k > 0,
    ensures
        le_bytes(le_nat(s), k) == s,
        be_bytes(be_nat(s), k) == s,
        le_bytes(to_unsigned(to_signed(le_nat(s), k), k), k) == s,
        be_bytes(to_unsigned(to_signed(be_nat(s), k), k), k) == s,
{
    lemma_nat_bound(s);
    lemma_le_bytes_roundtrip(s);
    lemma_be_bytes_roundtrip(s);
    lemma_unsigned_roundtrip(le_nat(s), k);
    lemma_unsigned_roundtrip(be_nat(s), k);
}

/// Bytes read as a signed value of their width in either byte order, and
/// stored back in that order, are the bytes themselves; likewise unsigned.
pub proof fn lemma_bytes_read_store(s: Seq<u8>, k: nat, swapped: bool)
    requires
        s.len() == k,
        k > 0,
    ensures
        -(pow256(k) / 2) <= to_signed(uint_of(s, swapped), k) < pow256(k) / 2,
        uint_of(s, swapped) < pow256(k),
        int_bytes(to_signed(uint_of(s, swapped), k), k, swapped) == s,
        uint_bytes(uint_of(s, swapped), k, swapped) == s,
{
    law_read_write_bytes(s, k);
    lemma_nat_bound(s);
    lemma_unsigned_roundtrip(uint_of(s, swapped), k);
}

} // verus!
