//! Mathematical model of the integer encodings used on the wire.
//!
//! Numbers are stored either most significant byte first (big-endian) or
//! least significant byte first (little-endian). The functions here give the
//! byte sequences as values of `Seq<u8>` and the number a byte sequence stands for.
use vstd::prelude::*;

verus! {

/// The number that `s` stands for when read most significant byte first.
pub open spec fn be_value(s: Seq<u8>) -> nat
    decreases s.len(),
{
    if s.len() == 0 {
        0
    } else {
        be_value(s.drop_last()) * 256 + s.last() as nat
    }
}

/// The `n` bytes of `v` (taken modulo 256^n), most significant byte first.
pub open spec fn be_bytes(v: nat, n: nat) -> Seq<u8>
    decreases n,
{
    if n == 0 {
        Seq::empty()
    } else {
        be_bytes(v / 256, (n - 1) as nat).push((v % 256) as u8)
    }
}

/// The `n` bytes of `v` (taken modulo 256^n), least significant byte first.
pub open spec fn le_bytes(v: nat, n: nat) -> Seq<u8>
    decreases n,
{
    if n == 0 {
        Seq::empty()
    } else {
        seq![(v % 256) as u8] + le_bytes(v / 256, (n - 1) as nat)
    }
}

/// `256` to the power `n`.
pub open spec fn pow256(n: nat) -> nat
    decreases n,
{
    if n == 0 {
        1
    } else {
        256 * pow256((n - 1) as nat)
    }
}

/// The elements of `s` in the opposite order.
pub open spec fn reversed(s: Seq<u8>) -> Seq<u8> {
    Seq::new(s.len(), |i: int| s[s.len() - 1 - i])
}

pub proof fn lemma_be_bytes_len(v: nat, n: nat)
    ensures
        be_bytes(v, n).len() == n,
    decreases n,
{
    if n > 0 {
        lemma_be_bytes_len(v / 256, (n - 1) as nat);
    }
}

pub proof fn lemma_le_bytes_len(v: nat, n: nat)
    ensures
        le_bytes(v, n).len() == n,
    decreases n,
{
    if n > 0 {
        lemma_le_bytes_len(v / 256, (n - 1) as nat);
    }
}

pub proof fn lemma_pow256_pos(n: nat)
    ensures
        pow256(n) >= 1,
    decreases n,
{
    if n > 0 {
        lemma_pow256_pos((n - 1) as nat);
    }
}

/// A value read from `n` bytes is below 256^n.
pub proof fn lemma_be_value_bound(s: Seq<u8>)
    ensures
        be_value(s) < pow256(s.len()),
    decreases s.len(),
{
    if s.len() > 0 {
        lemma_be_value_bound(s.drop_last());
        let a = be_value(s.drop_last());
        let p = pow256((s.len() - 1) as nat);
        assert(a * 256 + s.last() < p * 256) by (nonlinear_arith)
            requires
                a < p,
                s.last() < 256,
        ;
    }
}

/// Reading back the big-endian bytes of a value gives the value, when it fits.
pub proof fn lemma_be_roundtrip(v: nat, n: nat)
    requires
        v < pow256(n),
    ensures
        be_value(be_bytes(v, n)) == v,
    decreases n,
{
    if n > 0 {
        let q = v / 256;
        let p = pow256((n - 1) as nat);
        assert(q < p) by (nonlinear_arith)
            requires
                v < 256 * p,
                q == v / 256,
        ;
        lemma_be_roundtrip(q, (n - 1) as nat);
        let b = be_bytes(v, n);
        assert(b.drop_last() =~= be_bytes(q, (n - 1) as nat));
    } else {
        assert(v == 0);
    }
}

/// Writing the value that `s` stands for gives back `s`.
pub proof fn lemma_be_value_bytes(s: Seq<u8>)
    ensures
        be_bytes(be_value(s), s.len()) =~= s,
    decreases s.len(),
{
    if s.len() > 0 {
        let a = be_value(s.drop_last());
        let v = be_value(s);
        assert(v / 256 == a && v % 256 == s.last()) by (nonlinear_arith)
            requires
                v == a * 256 + s.last(),
                s.last() < 256,
        ;
        lemma_be_value_bytes(s.drop_last());
        assert(s =~= s.drop_last().push(s.last()));
    }
}

/// Big-endian bytes are little-endian bytes reversed.
pub proof fn lemma_reversed_le_is_be(v: nat, n: nat)
    ensures
        reversed(le_bytes(v, n)) =~= be_bytes(v, n),
    decreases n,
{
    lemma_le_bytes_len(v, n);
    lemma_be_bytes_len(v, n);
    if n > 0 {
        lemma_reversed_le_is_be(v / 256, (n - 1) as nat);
        lemma_le_bytes_len(v / 256, (n - 1) as nat);
        let l = le_bytes(v, n);
        let r = reversed(l);
        let b = be_bytes(v, n);
        assert forall|i: int| 0 <= i < n implies r[i] == b[i] by {
            if i < n - 1 {
                assert(r[i] == l[n - 1 - i]);
                assert(l[n - 1 - i] == le_bytes(v / 256, (n - 1) as nat)[n - 2 - i]);
                assert(reversed(le_bytes(v / 256, (n - 1) as nat))[i] == le_bytes(
                    v / 256,
                    (n - 1) as nat,
                )[n - 2 - i]);
            }
        }
    }
}

/// The value read from a prefix of the given length of `be_bytes(v, n) + rest` is `v`.
pub proof fn lemma_be_read_back(v: nat, n: nat, rest: Seq<u8>)
    requires
        v < pow256(n),
    ensures
        be_value((be_bytes(v, n) + rest).take(n as int)) == v,
{
    lemma_be_bytes_len(v, n);
    assert((be_bytes(v, n) + rest).take(n as int) =~= be_bytes(v, n));
    lemma_be_roundtrip(v, n);
}

/// The two bytes of a 16-bit value.
pub proof fn lemma_be_bytes_2(v: nat)
    requires
        v < 0x1_0000,
    ensures
        be_bytes(v, 2) =~= seq![(v / 256) as u8, (v % 256) as u8],
{
    reveal_with_fuel(be_bytes, 3);
}

/// The four bytes of a 32-bit value.
pub proof fn lemma_be_bytes_4(v: nat)
    requires
        v < 0x1_0000_0000,
    ensures
        be_bytes(v, 4) =~= seq![
            (v / 0x100_0000) as u8,
            ((v / 0x1_0000) % 256) as u8,
            ((v / 0x100) % 256) as u8,
            (v % 256) as u8,
        ],
{
    reveal_with_fuel(be_bytes, 5);
    assert(v / 256 / 256 == v / 0x1_0000);
    assert(v / 256 / 256 / 256 == v / 0x100_0000);
    assert((v / 0x100_0000) % 256 == v / 0x100_0000);
}

pub proof fn lemma_pow256_values()
    ensures
        pow256(1) == 0x100,
        pow256(2) == 0x1_0000,
        pow256(4) == 0x1_0000_0000,
        pow256(8) == 0x1_0000_0000_0000_0000,
        pow256(16) == 0x1_0000_0000_0000_0000_0000_0000_0000_0000,
{
    reveal_with_fuel(pow256, 17);
}

} // verus!
