//! Byte strings read as unsigned integers, most significant byte first.

use vstd::arithmetic::power::{lemma_pow0, lemma_pow_positive, pow};
use vstd::prelude::*;

verus! {

/// The number that `bytes` spells in base 256, most significant byte first.
/// The empty string spells zero, and leading zero bytes change nothing.
pub open spec fn be_value(bytes: Seq<u8>) -> nat
    decreases bytes.len(),
{
    if bytes.len() == 0 {
        0
    } else {
        be_value(bytes.drop_last()) * 256 + bytes.last() as nat
    }
}

/// The shortest byte string that spells `n`: no leading zero byte, except
/// that zero itself is the single byte 0.
pub open spec fn be_bytes(n: nat) -> Seq<u8>
    decreases n,
{
    if n < 256 {
        seq![n as u8]
    } else {
        be_bytes(n / 256).push((n % 256) as u8)
    }
}

/// True when every byte of `bytes` is zero.
pub open spec fn all_zero(bytes: Seq<u8>) -> bool {
    forall|i: int| 0 <= i < bytes.len() ==> bytes[i] == 0
}

/// One more unfolding of the power: 256^(e+1) = 256 * 256^e.
pub proof fn lemma_pow256_step(e: nat)
    ensures
        pow(256, e + 1) == 256 * pow(256, e),
        pow(256, e) > 0,
{
    reveal(pow);
    lemma_pow_positive(256, e);
}

/// Appending a byte shifts the value by one place.
pub proof fn lemma_be_value_push(bytes: Seq<u8>, b: u8)
    ensures
        be_value(bytes.push(b)) == be_value(bytes) * 256 + b as nat,
{
    assert(bytes.push(b).drop_last() =~= bytes);
}

/// A single byte spells its own value.
pub proof fn lemma_be_value_single(b: u8)
    ensures
        be_value(seq![b]) == b as nat,
{
    lemma_be_value_push(Seq::<u8>::empty(), b);
}

/// Two bytes spell `a * 256 + b`.
pub proof fn lemma_be_value_two(a: u8, b: u8)
    ensures
        be_value(seq![a, b]) == a as nat * 256 + b as nat,
{
    lemma_be_value_single(a);
    lemma_be_value_push(seq![a], b);
    assert(seq![a].push(b) =~= seq![a, b]);
}

/// Four bytes spell `((a * 256 + b) * 256 + c) * 256 + d`.
pub proof fn lemma_be_value_four(a: u8, b: u8, c: u8, d: u8)
    ensures
        be_value(seq![a, b, c, d]) == ((a as nat * 256 + b as nat) * 256 + c as nat) * 256
            + d as nat,
{
    lemma_be_value_two(a, b);
    lemma_be_value_push(seq![a, b], c);
    assert(seq![a, b].push(c) =~= seq![a, b, c]);
    lemma_be_value_push(seq![a, b, c], d);
    assert(seq![a, b, c].push(d) =~= seq![a, b, c, d]);
}

/// A string of `n` bytes spells a number below 256^n.
pub proof fn lemma_be_value_bound(bytes: Seq<u8>)
    ensures
        be_value(bytes) < pow(256, bytes.len()),
    decreases bytes.len(),
{
    if bytes.len() == 0 {
        lemma_pow0(256);
    } else {
        lemma_be_value_bound(bytes.drop_last());
        lemma_pow256_step(bytes.drop_last().len());
    }
}

/// The value of a concatenation: the left part is shifted past the right.
pub proof fn lemma_be_value_concat(a: Seq<u8>, b: Seq<u8>)
    ensures
        be_value(a + b) == be_value(a) * pow(256, b.len()) + be_value(b),
    decreases b.len(),
{
    if b.len() == 0 {
        lemma_pow0(256);
    } else {
        let b0 = b.drop_last();
        assert((a + b).drop_last() =~= a + b0);
        lemma_be_value_concat(a, b0);
        lemma_pow256_step(b0.len());
        let x = be_value(a) as int;
        let p = pow(256, b0.len());
        assert((x * p) * 256 == x * (256 * p)) by (nonlinear_arith);
    }
}

/// A byte string spells zero exactly when all its bytes are zero.
pub proof fn lemma_be_value_zero(bytes: Seq<u8>)
    ensures
        be_value(bytes) == 0 <==> all_zero(bytes),
    decreases bytes.len(),
{
    if bytes.len() > 0 {
        let front = bytes.drop_last();
        lemma_be_value_zero(front);
        if all_zero(bytes) {
            assert(all_zero(front));
        }
        if be_value(bytes) == 0 {
            assert forall|i: int| 0 <= i < bytes.len() implies bytes[i] == 0 by {
                if i < front.len() {
                    assert(front[i] == bytes[i]);
                }
            }
        }
    }
}

/// Leading zero bytes do not change the value.
pub proof fn lemma_be_value_leading_zeros(zeros: Seq<u8>, rest: Seq<u8>)
    requires
        all_zero(zeros),
    ensures
        be_value(zeros + rest) == be_value(rest),
{
    lemma_be_value_concat(zeros, rest);
    lemma_be_value_zero(zeros);
}

/// Two strings of one length that spell the same number are the same string.
pub proof fn lemma_be_value_injective(a: Seq<u8>, b: Seq<u8>)
    requires
        a.len() == b.len(),
        be_value(a) == be_value(b),
    ensures
        a == b,
    decreases a.len(),
{
    if a.len() > 0 {
        lemma_be_value_injective(a.drop_last(), b.drop_last());
        assert(a =~= a.drop_last().push(a.last()));
        assert(b =~= b.drop_last().push(b.last()));
    }
}

/// The shortest spelling of `n` spells `n`, is not empty, and starts with a
/// zero byte only when it is the single byte 0.
pub proof fn lemma_be_bytes_spells(n: nat)
    ensures
        be_value(be_bytes(n)) == n,
        be_bytes(n).len() >= 1,
        be_bytes(n).len() > 1 ==> be_bytes(n)[0] != 0,
        n > 0 ==> be_bytes(n)[0] != 0,
    decreases n,
{
    if n < 256 {
        let s = seq![n as u8];
        assert(be_value(s.drop_last()) == 0);
    } else {
        lemma_be_bytes_spells(n / 256);
        lemma_be_value_push(be_bytes(n / 256), (n % 256) as u8);
    }
}

/// The shortest spelling of a number below 256^k takes at most `k` bytes,
/// where `k` is at least one.
pub proof fn lemma_be_bytes_len(n: nat, k: nat)
    requires
        k >= 1,
        n < pow(256, k),
    ensures
        be_bytes(n).len() <= k,
    decreases n,
{
    if n >= 256 {
        lemma_pow256_step((k - 1) as nat);
        if k == 1 {
            lemma_pow0(256);
        } else {
            lemma_be_bytes_len(n / 256, (k - 1) as nat);
        }
    }
}

/// Tells whether a big-endian byte string spells zero.
pub fn is_zero_be(bytes: &[u8]) -> (zero: bool)
    ensures
        zero == (be_value(bytes@) == 0),
{
    let mut i: usize = 0;
    while i < bytes.len()
        invariant
            i <= bytes.len(),
            forall|j: int| 0 <= j < i ==> bytes@[j] == 0,
        decreases bytes.len() - i,
    {
        if bytes[i] != 0 {
            proof {
                lemma_be_value_zero(bytes@);
            }
            return false;
        }
        i += 1;
    }
    proof {
        lemma_be_value_zero(bytes@);
    }
    true
}

/// Tells whether two byte strings are the same.
pub fn bytes_eq(a: &[u8], b: &[u8]) -> (same: bool)
    ensures
        same == (a@ == b@),
{
    if a.len() != b.len() {
        return false;
    }
    let mut i: usize = 0;
    while i < a.len()
        invariant
            a.len() == b.len(),
            i <= a.len(),
            forall|j: int| 0 <= j < i ==> a@[j] == b@[j],
        decreases a.len() - i,
    {
        if a[i] != b[i] {
            return false;
        }
        i += 1;
    }
    assert(a@ =~= b@);
    true
}

} // verus!
