//! The order of byte strings: lexicographic, first byte first. Curve
//! scalars and key images are ordered by their 32 bytes in this way, which
//! is what deduplicating them by their raw bytes relies on.

use core::cmp::Ordering;
use vstd::prelude::*;

verus! {

/// `s` without its first `i` bytes.
pub open spec fn suffix(s: Seq<u8>, i: usize) -> Seq<u8> {
    s.skip(i as int)
}

/// One step along a byte string: the suffix from `i` starts with byte `i`
/// and continues with the suffix from `i + 1`.
pub proof fn lemma_suffix_step(s: Seq<u8>, i: usize)
    requires
        i < s.len() <= usize::MAX,
    ensures
        suffix(s, i).len() > 0,
        suffix(s, i)[0] == s[i as int],
        suffix(s, i).drop_first() == suffix(s, (i + 1) as usize),
{
    assert(suffix(s, i).drop_first() =~= suffix(s, (i + 1) as usize));
}

/// The suffix from the start is the whole string.
pub proof fn lemma_suffix_start(s: Seq<u8>)
    ensures
        suffix(s, 0) == s,
{
    assert(suffix(s, 0) =~= s);
}

/// The suffix from the end is empty.
pub proof fn lemma_suffix_end(s: Seq<u8>, i: usize)
    requires
        i == s.len(),
    ensures
        suffix(s, i).len() == 0,
{
}

/// The lexicographic order of two byte strings: the first byte where they
/// differ decides, and a proper prefix comes first.
pub open spec fn bytes_order(a: Seq<u8>, b: Seq<u8>) -> Ordering
    decreases a.len(),
{
    if a.len() == 0 && b.len() == 0 {
        Ordering::Equal
    } else if a.len() == 0 {
        Ordering::Less
    } else if b.len() == 0 {
        Ordering::Greater
    } else if a[0] < b[0] {
        Ordering::Less
    } else if a[0] > b[0] {
        Ordering::Greater
    } else {
        bytes_order(a.drop_first(), b.drop_first())
    }
}

/// Two byte strings of one length are equal in the order exactly when they
/// are equal, and swapping them turns `Less` into `Greater`.
pub proof fn lemma_bytes_order_laws(a: Seq<u8>, b: Seq<u8>)
    requires
        a.len() == b.len(),
    ensures
        bytes_order(a, b) == Ordering::Equal <==> a == b,
        bytes_order(a, b) == Ordering::Less <==> bytes_order(b, a) == Ordering::Greater,
    decreases a.len(),
{
    if a.len() > 0 {
        lemma_bytes_order_laws(a.drop_first(), b.drop_first());
        if a[0] == b[0] && a.drop_first() == b.drop_first() {
            assert(a =~= seq![a[0]] + a.drop_first());
            assert(b =~= seq![b[0]] + b.drop_first());
        }
    } else {
        assert(a =~= b);
    }
}

/// The first byte where two strings of one length differ decides their
/// order, compared as unsigned numbers: the smaller byte comes first.
pub proof fn lemma_bytes_order_first_difference(a: Seq<u8>, b: Seq<u8>, i: int)
    requires
        a.len() == b.len(),
        0 <= i < a.len(),
        forall|j: int| 0 <= j < i ==> a[j] == b[j],
    ensures
        a[i] < b[i] ==> bytes_order(a, b) == Ordering::Less,
        a[i] > b[i] ==> bytes_order(a, b) == Ordering::Greater,
    decreases i,
{
    if i > 0 {
        assert(a[0] == b[0]);
        assert forall|j: int| 0 <= j < i - 1 implies a.drop_first()[j] == b.drop_first()[j] by {
            assert(a[j + 1] == b[j + 1]);
        }
        lemma_bytes_order_first_difference(a.drop_first(), b.drop_first(), i - 1);
    }
}

/// Compares two 32-byte arrays in the lexicographic order.
pub fn compare_bytes32(a: &[u8; 32], b: &[u8; 32]) -> (r: Ordering)
    ensures
        r == bytes_order(a@, b@),
{
    let mut i: usize = 0;
    proof {
        lemma_suffix_start(a@);
        lemma_suffix_start(b@);
    }
    while i < 32
        invariant
            i <= 32,
            a@.len() == 32,
            b@.len() == 32,
            bytes_order(a@, b@) == bytes_order(suffix(a@, i), suffix(b@, i)),
        decreases 32 - i,
    {
        proof {
            lemma_suffix_step(a@, i);
            lemma_suffix_step(b@, i);
        }
        if a[i] < b[i] {
            return Ordering::Less;
        }
        if a[i] > b[i] {
            return Ordering::Greater;
        }
        i += 1;
    }
    proof {
        lemma_suffix_end(a@, i);
        lemma_suffix_end(b@, i);
    }
    Ordering::Equal
}

} // verus!
