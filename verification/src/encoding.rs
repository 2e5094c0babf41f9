//! Little-endian byte encodings of natural numbers, and the order of the
//! prime-order group that scalars live in.

use vstd::prelude::*;

verus! {

/// The order of the Ristretto group, 2^252 + 27742317777372353535851937790883648493.
pub open spec fn group_order() -> nat {
    7237005577332262213973186563042994240857116359379907606001950938285454250989nat
}

/// The natural number that a little-endian byte string encodes.
pub open spec fn le_to_nat(s: Seq<u8>) -> nat
    decreases s.len(),
{
    if s.len() == 0 {
        0
    } else {
        s[0] as nat + 256 * le_to_nat(s.drop_first())
    }
}

/// The `k`-byte little-endian encoding of `n` (the low `k` bytes of `n`).
pub open spec fn nat_to_le(n: nat, k: nat) -> Seq<u8>
    decreases k,
{
    if k == 0 {
        Seq::empty()
    } else {
        seq![(n % 256) as u8] + nat_to_le(n / 256, (k - 1) as nat)
    }
}

/// Encoding the number that a byte string encodes, at the string's own
/// length, gives back the string.
pub proof fn lemma_le_roundtrip(s: Seq<u8>)
    ensures
        nat_to_le(le_to_nat(s), s.len()) == s,
    decreases s.len(),
{
    if s.len() > 0 {
        let rest = s.drop_first();
        let n = le_to_nat(s);
        let r = le_to_nat(rest);
        assert(n == s[0] as nat + 256 * r);
        assert(n % 256 == s[0] as nat) by (nonlinear_arith)
            requires n == s[0] as nat + 256 * r, s[0] < 256;
        assert(n / 256 == r) by (nonlinear_arith)
            requires n == s[0] as nat + 256 * r, s[0] < 256;
        lemma_le_roundtrip(rest);
        assert(nat_to_le(n, s.len()) =~= s);
    }
}

/// A string of zero bytes encodes zero.
pub proof fn lemma_le_zeros(n: nat)
    ensures
        le_to_nat(Seq::new(n, |i: int| 0u8)) == 0,
    decreases n,
{
    if n > 0 {
        let z = Seq::new(n, |i: int| 0u8);
        assert(z.drop_first() =~= Seq::new((n - 1) as nat, |i: int| 0u8));
        lemma_le_zeros((n - 1) as nat);
    }
}

/// 256 to the power `k`: one more than the largest number `k` bytes encode.
pub open spec fn pow256(k: nat) -> nat
    decreases k,
{
    if k == 0 {
        1
    } else {
        256 * pow256((k - 1) as nat)
    }
}

/// A number below 256^k is what its `k`-byte encoding encodes.
pub proof fn lemma_nat_to_le_value(n: nat, k: nat)
    requires
        n < pow256(k),
    ensures
        nat_to_le(n, k).len() == k,
        le_to_nat(nat_to_le(n, k)) == n,
    decreases k,
{
    if k > 0 {
        let p = pow256((k - 1) as nat);
        assert(n / 256 < p) by (nonlinear_arith)
            requires n < 256 * p;
        lemma_nat_to_le_value(n / 256, (k - 1) as nat);
        let e = nat_to_le(n, k);
        assert(e.drop_first() =~= nat_to_le(n / 256, (k - 1) as nat));
        assert(n == n % 256 + 256 * (n / 256)) by (nonlinear_arith);
    } else {
        assert(n == 0);
    }
}

/// The group order is below 2^256, so every residue has a 32-byte encoding.
pub proof fn lemma_group_order_fits()
    ensures
        group_order() < pow256(32),
{
    reveal_with_fuel(pow256, 33);
}

/// Whether two 32-byte arrays hold the same bytes.
pub fn bytes32_eq(a: &[u8; 32], b: &[u8; 32]) -> (r: bool)
    ensures
        r == (a@ == b@),
{
    let mut i: usize = 0;
    while i < 32
        invariant
            i <= 32,
            forall|j: int| 0 <= j < i ==> a@[j] == b@[j],
        decreases 32 - i,
    {
        if a[i] != b[i] {
            return false;
        }
        i += 1;
    }
    assert(a@ =~= b@);
    true
}

} // verus!
