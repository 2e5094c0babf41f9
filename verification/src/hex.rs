//! Lower-case hexadecimal text of byte strings, two digits per byte, most
//! significant digit first: the text form of curve scalars and key images.

use vstd::prelude::*;

verus! {

/// The lower-case hexadecimal digit of a number below 16.
pub open spec fn hex_digit(n: u8) -> char {
    if n < 10 {
        (n + 48) as char
    } else {
        (n + 87) as char
    }
}

/// The hexadecimal text of a byte string: two digits per byte, the high
/// digit first, bytes in order.
pub open spec fn hex_lower(s: Seq<u8>) -> Seq<char>
    decreases s.len(),
{
    if s.len() == 0 {
        Seq::empty()
    } else {
        hex_lower(s.drop_last()) + seq![hex_digit(s.last() / 16), hex_digit(s.last() % 16)]
    }
}

/// The sixteen lower-case hexadecimal digits, in order.
pub open spec fn hex_alphabet() -> Seq<char> {
    seq!['0', '1', '2', '3', '4', '5', '6', '7', '8', '9', 'a', 'b', 'c', 'd', 'e', 'f']
}

/// Each number below 16 is written as its own digit of the alphabet
/// `0123456789abcdef`.
pub proof fn lemma_hex_digit_alphabet(n: u8)
    requires
        n < 16,
    ensures
        hex_digit(n) == hex_alphabet()[n as int],
{
    if n == 0 { assert(hex_digit(0) == '0'); }
    else if n == 1 { assert(hex_digit(1) == '1'); }
    else if n == 2 { assert(hex_digit(2) == '2'); }
    else if n == 3 { assert(hex_digit(3) == '3'); }
    else if n == 4 { assert(hex_digit(4) == '4'); }
    else if n == 5 { assert(hex_digit(5) == '5'); }
    else if n == 6 { assert(hex_digit(6) == '6'); }
    else if n == 7 { assert(hex_digit(7) == '7'); }
    else if n == 8 { assert(hex_digit(8) == '8'); }
    else if n == 9 { assert(hex_digit(9) == '9'); }
    else if n == 10 { assert(hex_digit(10) == 'a'); }
    else if n == 11 { assert(hex_digit(11) == 'b'); }
    else if n == 12 { assert(hex_digit(12) == 'c'); }
    else if n == 13 { assert(hex_digit(13) == 'd'); }
    else if n == 14 { assert(hex_digit(14) == 'e'); }
    else { assert(hex_digit(15) == 'f'); }
}

/// The hexadecimal text of a byte string is twice as long, and byte `i` is
/// written at positions `2i` (its high four bits) and `2i + 1` (its low four
/// bits) as digits of the alphabet `0123456789abcdef`.
pub proof fn lemma_hex_lower_digits(s: Seq<u8>)
    ensures
        hex_lower(s).len() == 2 * s.len(),
        forall|i: int|
            0 <= i < s.len() ==> {
                &&& hex_lower(s)[2 * i] == hex_alphabet()[(s[i] / 16) as int]
                &&& hex_lower(s)[2 * i + 1] == hex_alphabet()[(s[i] % 16) as int]
            },
    decreases s.len(),
{
    if s.len() > 0 {
        let p = s.drop_last();
        lemma_hex_lower_digits(p);
        lemma_hex_digit_alphabet(s.last() / 16);
        lemma_hex_digit_alphabet(s.last() % 16);
        assert forall|i: int| 0 <= i < s.len() implies {
            &&& hex_lower(s)[2 * i] == hex_alphabet()[(s[i] / 16) as int]
            &&& hex_lower(s)[2 * i + 1] == hex_alphabet()[(s[i] % 16) as int]
        } by {
            if i < p.len() {
                assert(p[i] == s[i]);
            }
        }
    }
}

/// Calls `String::push`, which std documents as appending the given char to
/// the end of the string; the contract says that.
#[verifier::external_body]
fn string_push(s: &mut String, c: char)
    ensures
        final(s)@ == old(s)@.push(c),
{
    s.push(c)
}

/// The hexadecimal digit of `n`.
fn hex_digit_char(n: u8) -> (c: char)
    requires
        n < 16,
    ensures
        c == hex_digit(n),
{
    if n < 10 {
        (n + 48) as char
    } else {
        (n + 87) as char
    }
}

/// The lower-case hexadecimal text of `bytes`.
pub fn hex_string(bytes: &[u8]) -> (r: String)
    ensures
        r@ == hex_lower(bytes@),
        r@.len() == 2 * bytes@.len(),
{
    let mut out = String::new();
    let mut i: usize = 0;
    while i < bytes.len()
        invariant
            i <= bytes@.len(),
            out@ == hex_lower(bytes@.take(i as int)),
            out@.len() == 2 * i,
        decreases bytes@.len() - i,
    {
        let b = bytes[i];
        string_push(&mut out, hex_digit_char(b / 16));
        string_push(&mut out, hex_digit_char(b % 16));
        assert(bytes@.take(i + 1).drop_last() =~= bytes@.take(i as int));
        assert(bytes@.take(i + 1).last() == b);
        i += 1;
        assert(out@ =~= hex_lower(bytes@.take(i as int)));
    }
    assert(bytes@.take(i as int) =~= bytes@);
    out
}

} // verus!
