//! Pairing verification codes (a short authentication string): both devices
//! derive six decimal digits from the two binding keys, sorted, and a nonce; the
//! users compare them by eye.

use vstd::prelude::*;
use crate::bytes::be_u32;
use crate::crypto::{blake3_hash, spec_blake3};

verus! {

/// Lexicographic order on byte strings (the order of `<=` on `&[u8]`).
pub open spec fn lex_le(a: Seq<u8>, b: Seq<u8>) -> bool
    decreases a.len(),
{
    if a.len() == 0 {
        true
    } else if b.len() == 0 {
        false
    } else if a[0] < b[0] {
        true
    } else if a[0] > b[0] {
        false
    } else {
        lex_le(a.drop_first(), b.drop_first())
    }
}

/// Two byte strings ordered lexicographically, smaller first.
pub open spec fn ordered_pair(a: Seq<u8>, b: Seq<u8>) -> (Seq<u8>, Seq<u8>) {
    if lex_le(a, b) {
        (a, b)
    } else {
        (b, a)
    }
}

/// The decimal digit character of a value below 10.
pub open spec fn decimal_digit(d: int) -> char {
    (48 + d) as char
}

/// `v` (below one million) written with exactly six decimal digits, zero-padded.
pub open spec fn six_digits(v: int) -> Seq<char> {
    seq![
        decimal_digit(v / 100000 % 10),
        decimal_digit(v / 10000 % 10),
        decimal_digit(v / 1000 % 10),
        decimal_digit(v / 100 % 10),
        decimal_digit(v / 10 % 10),
        decimal_digit(v % 10),
    ]
}

/// The pairing code of two binding keys and a nonce: BLAKE3 over the smaller key,
/// the larger key and the nonce; the first four digest bytes read big-endian,
/// modulo one million, in six digits.
pub open spec fn spec_pairing_code(pub_a: Seq<u8>, binding_b: Seq<u8>, nonce: Seq<u8>) -> Seq<char> {
    let (x, y) = ordered_pair(pub_a, binding_b);
    six_digits(be_u32(spec_blake3(x + y + nonce)) % 1_000_000)
}

/// `a <= b` on byte slices.
pub fn bytes_le(a: &[u8], b: &[u8]) -> (r: bool)
    ensures
        r == lex_le(a@, b@),
{
    let mut i: usize = 0;
    assert(a@.skip(0) =~= a@);
    assert(b@.skip(0) =~= b@);
    while i < a.len() && i < b.len() && a[i] == b[i]
        invariant
            i <= a@.len(),
            i <= b@.len(),
            lex_le(a@, b@) == lex_le(a@.skip(i as int), b@.skip(i as int)),
        decreases a@.len() - i,
    {
        assert(a@.skip(i as int).drop_first() =~= a@.skip(i + 1));
        assert(b@.skip(i as int).drop_first() =~= b@.skip(i + 1));
        i = i + 1;
    }
    if i == a.len() {
        true
    } else if i == b.len() {
        false
    } else {
        a[i] < b[i]
    }
}

proof fn lemma_lex_antisymmetric(a: Seq<u8>, b: Seq<u8>)
    requires
        lex_le(a, b),
        lex_le(b, a),
    ensures
        a == b,
    decreases a.len(),
{
    if a.len() == 0 {
        assert(b.len() == 0 || !lex_le(b, a));
        assert(a =~= b);
    } else {
        lemma_lex_antisymmetric(a.drop_first(), b.drop_first());
        assert(a =~= seq![a[0]] + a.drop_first());
        assert(b =~= seq![b[0]] + b.drop_first());
    }
}

proof fn lemma_lex_total(a: Seq<u8>, b: Seq<u8>)
    ensures
        lex_le(a, b) || lex_le(b, a),
    decreases a.len(),
{
    if a.len() > 0 && b.len() > 0 && a[0] == b[0] {
        lemma_lex_total(a.drop_first(), b.drop_first());
    }
}

/// Ordering the two keys does not depend on which was given first.
pub proof fn lemma_ordered_pair_symmetric(a: Seq<u8>, b: Seq<u8>)
    ensures
        ordered_pair(a, b) == ordered_pair(b, a),
{
    lemma_lex_total(a, b);
    if lex_le(a, b) && lex_le(b, a) {
        lemma_lex_antisymmetric(a, b);
    }
}

/// The two sides of a pairing compute the same code whichever key each one passes
/// first: the code depends on the pair of keys and the nonce only.
pub proof fn lemma_pairing_code_symmetric(a: Seq<u8>, b: Seq<u8>, nonce: Seq<u8>)
    ensures
        spec_pairing_code(a, b, nonce) == spec_pairing_code(b, a, nonce),
{
    lemma_ordered_pair_symmetric(a, b);
}

/// Every pairing code is six ASCII decimal digits.
pub proof fn lemma_pairing_code_digits(a: Seq<u8>, b: Seq<u8>, nonce: Seq<u8>)
    ensures
        spec_pairing_code(a, b, nonce).len() == 6,
        forall|i: int|
            0 <= i < 6 ==> '0' <= #[trigger] spec_pairing_code(a, b, nonce)[i] <= '9',
{
}

fn digit_of(d: u32) -> (c: char)
    requires
        d < 10,
    ensures
        c == decimal_digit(d as int),
{
    ((48 + d) as u8) as char
}

/// Six zero-padded decimal digits of `v` (what `format!("{:06}", v)` prints).
pub fn format_six_digits(v: u32) -> (s: String)
    requires
        v < 1_000_000,
    ensures
        s@ == six_digits(v as int),
{
    let mut cs: Vec<char> = Vec::new();
    cs.push(digit_of(v / 100000 % 10));
    cs.push(digit_of(v / 10000 % 10));
    cs.push(digit_of(v / 1000 % 10));
    cs.push(digit_of(v / 100 % 10));
    cs.push(digit_of(v / 10 % 10));
    cs.push(digit_of(v % 10));
    assert(cs@ =~= six_digits(v as int));
    crate::text::chars_to_string(cs.as_slice())
}

/// The pairing code both devices display: six digits derived from the two binding
/// keys (in lexicographic order, so either side may pass either first) and the nonce.
pub fn pairing_code(pub_a: &[u8], binding_b: &[u8], nonce: &[u8]) -> (code: String)
    ensures
        code@ == spec_pairing_code(pub_a@, binding_b@, nonce@),
{
    let a_first = bytes_le(pub_a, binding_b);
    let (x, y) = if a_first {
        (pub_a, binding_b)
    } else {
        (binding_b, pub_a)
    };
    let mut input: Vec<u8> = crate::bytes::to_vec(x);
    crate::bytes::append_bytes(&mut input, y);
    crate::bytes::append_bytes(&mut input, nonce);
    let d = blake3_hash(input.as_slice());
    let v: u32 = (d[0] as u32) * 0x1000000 + (d[1] as u32) * 0x10000 + (d[2] as u32) * 0x100
        + (d[3] as u32);
    format_six_digits(v % 1_000_000)
}

/// `a` comes before `b` as byte strings: at the first position where they differ
/// `a` has the smaller byte, or `a` is a prefix of `b` (the order of `<=` on
/// `&[u8]`, whatever the two lengths).
pub open spec fn byte_order_before(a: Seq<u8>, b: Seq<u8>) -> bool {
    ||| (a.len() <= b.len() && b.take(a.len() as int) == a)
    ||| exists|i: int| 0 <= i < a.len() && i < b.len() && a.take(i) == b.take(i) && #[trigger] a[i] < b[i]
}

/// Byte-string order at the first difference: the key with the smaller byte there
/// is ordered first and the other is not, whatever the lengths of the keys.
pub proof fn lemma_lex_le_first_difference(a: Seq<u8>, b: Seq<u8>, i: int)
    requires
        0 <= i < a.len(),
        i < b.len(),
        a.take(i) == b.take(i),
        a[i] < b[i],
    ensures
        lex_le(a, b),
        !lex_le(b, a),
    decreases i,
{
    if i > 0 {
        assert(a[0] == a.take(i)[0] && b[0] == b.take(i)[0]);
        let a1 = a.drop_first();
        let b1 = b.drop_first();
        assert(a1.take(i - 1) =~= a.take(i).drop_first());
        assert(b1.take(i - 1) =~= b.take(i).drop_first());
        assert(a1[i - 1] == a[i] && b1[i - 1] == b[i]);
        lemma_lex_le_first_difference(a1, b1, i - 1);
    }
}

/// A key that is a prefix of the other is ordered first.
pub proof fn lemma_lex_le_prefix(a: Seq<u8>, b: Seq<u8>)
    requires
        a.len() <= b.len(),
        b.take(a.len() as int) == a,
    ensures
        lex_le(a, b),
    decreases a.len(),
{
    if a.len() > 0 {
        assert(a[0] == b.take(a.len() as int)[0]);
        assert(b.drop_first().take(a.drop_first().len() as int) =~= b.take(a.len() as int).drop_first());
        lemma_lex_le_prefix(a.drop_first(), b.drop_first());
    }
}

/// The pairing code hashes the key that comes first as a byte string (see
/// [`byte_order_before`]) followed by the other and the nonce, and both orders
/// of passing the keys give that code.
pub proof fn lemma_pairing_code_hash_order(a: Seq<u8>, b: Seq<u8>, nonce: Seq<u8>)
    requires
        byte_order_before(a, b),
    ensures
        spec_pairing_code(a, b, nonce) == six_digits(be_u32(spec_blake3(a + b + nonce)) % 1_000_000),
        spec_pairing_code(b, a, nonce) == six_digits(be_u32(spec_blake3(a + b + nonce)) % 1_000_000),
{
    if a.len() <= b.len() && b.take(a.len() as int) == a {
        lemma_lex_le_prefix(a, b);
    } else {
        let i = choose|i: int| 0 <= i < a.len() && i < b.len() && a.take(i) == b.take(i) && #[trigger] a[i] < b[i];
        lemma_lex_le_first_difference(a, b, i);
    }
    lemma_pairing_code_symmetric(a, b, nonce);
}

} // verus!
