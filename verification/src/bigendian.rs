//! Unsigned numbers as big-endian byte strings.

use vstd::prelude::*;

verus! {

/// `256` to the power `k`: the number of values that `k` bytes can hold.
pub open spec fn byte_power(k: nat) -> nat
    decreases k,
{
    if k == 0 {
        1
    } else {
        256 * byte_power((k - 1) as nat)
    }
}

/// The number that a big-endian byte string stands for.
pub open spec fn be_value(s: Seq<u8>) -> nat
    decreases s.len(),
{
    if s.len() == 0 {
        0
    } else {
        be_value(s.drop_last()) * 256 + s.last() as nat
    }
}

/// The shortest big-endian byte string of `n`: empty for zero, and with a
/// non-zero first byte otherwise.
pub open spec fn minimal_be(n: nat) -> Seq<u8>
    decreases n,
{
    if n == 0 {
        Seq::empty()
    } else {
        minimal_be(n / 256).push((n % 256) as u8)
    }
}

/// The `len` least significant bytes of `n`, most significant first.
pub open spec fn fixed_be(n: nat, len: nat) -> Seq<u8>
    decreases len,
{
    if len == 0 {
        Seq::empty()
    } else {
        fixed_be(n / 256, (len - 1) as nat).push((n % 256) as u8)
    }
}

/// `k` zero bytes.
pub open spec fn zeros(k: nat) -> Seq<u8> {
    Seq::new(k, |i: int| 0u8)
}

/// The number of zero bytes that `s` starts with.
pub open spec fn leading_zero_count(s: Seq<u8>) -> nat
    decreases s.len(),
{
    if s.len() == 0 {
        0
    } else if s[0] != 0 {
        0
    } else {
        1 + leading_zero_count(s.drop_first())
    }
}

pub proof fn lemma_byte_power_positive(k: nat)
    ensures
        byte_power(k) >= 1,
    decreases k,
{
    if k > 0 {
        lemma_byte_power_positive((k - 1) as nat);
    }
}

pub proof fn lemma_byte_power_monotonic(a: nat, b: nat)
    requires
        a <= b,
    ensures
        byte_power(a) <= byte_power(b),
    decreases b,
{
    if a < b {
        lemma_byte_power_monotonic(a, (b - 1) as nat);
        lemma_byte_power_positive((b - 1) as nat);
    }
}

/// Every byte string stands for a number below `256` to the power of its
/// length.
pub proof fn lemma_be_value_bound(s: Seq<u8>)
    ensures
        be_value(s) < byte_power(s.len()),
    decreases s.len(),
{
    if s.len() > 0 {
        lemma_be_value_bound(s.drop_last());
    }
}

/// Reading back the shortest encoding of `n` gives `n`.
pub proof fn lemma_minimal_be_value(n: nat)
    ensures
        be_value(minimal_be(n)) == n,
    decreases n,
{
    if n > 0 {
        lemma_minimal_be_value(n / 256);
        assert(minimal_be(n).drop_last() =~= minimal_be(n / 256));
    }
}

/// The shortest encoding of a non-zero number starts with a non-zero byte.
pub proof fn lemma_minimal_be_leading(n: nat)
    requires
        n > 0,
    ensures
        minimal_be(n).len() > 0,
        minimal_be(n)[0] != 0,
    decreases n,
{
    if n / 256 > 0 {
        lemma_minimal_be_leading(n / 256);
    } else {
        assert(minimal_be(n / 256) =~= Seq::<u8>::empty());
    }
}

/// A number below `256^k` takes at most `k` bytes.
pub proof fn lemma_minimal_be_len_upper(n: nat, k: nat)
    requires
        n < byte_power(k),
    ensures
        minimal_be(n).len() <= k,
    decreases k,
{
    if k > 0 && n > 0 {
        lemma_minimal_be_len_upper(n / 256, (k - 1) as nat);
    }
}

/// A number of at least `256^k` takes more than `k` bytes.
pub proof fn lemma_minimal_be_len_lower(n: nat, k: nat)
    requires
        byte_power(k) <= n,
    ensures
        minimal_be(n).len() > k,
{
    lemma_minimal_be_value(n);
    lemma_be_value_bound(minimal_be(n));
    if minimal_be(n).len() <= k {
        lemma_byte_power_monotonic(minimal_be(n).len(), k);
    }
}

/// The value of a concatenation.
pub proof fn lemma_be_value_concat(a: Seq<u8>, b: Seq<u8>)
    ensures
        be_value(a + b) == be_value(a) * byte_power(b.len()) + be_value(b),
    decreases b.len(),
{
    if b.len() == 0 {
        assert(a + b =~= a);
        assert(byte_power(b.len()) == 1);
        assert(be_value(b) == 0);
    } else {
        lemma_be_value_concat(a, b.drop_last());
        assert((a + b).drop_last() =~= a + b.drop_last());
        assert((a + b).last() == b.last());
        let va = be_value(a);
        let p = byte_power((b.len() - 1) as nat);
        let vb1 = be_value(b.drop_last());
        assert(be_value(a + b) == be_value(a + b.drop_last()) * 256 + b.last() as nat);
        assert(be_value(a + b.drop_last()) == va * p + vb1);
        assert(be_value(b) == vb1 * 256 + b.last() as nat);
        assert(byte_power(b.len()) == 256 * p);
        assert(va * (256 * p) == (va * p) * 256) by (nonlinear_arith);
        assert((va * p + vb1) * 256 == (va * p) * 256 + vb1 * 256) by (nonlinear_arith);
        assert(be_value(a + b) == va * byte_power(b.len()) + be_value(b));
    }
}

pub proof fn lemma_zeros_value(k: nat)
    ensures
        be_value(zeros(k)) == 0,
    decreases k,
{
    if k > 0 {
        lemma_zeros_value((k - 1) as nat);
        assert(zeros(k).drop_last() =~= zeros((k - 1) as nat));
    }
}

/// Leading zero bytes do not change the value.
pub proof fn lemma_be_value_zero_padding(k: nat, s: Seq<u8>)
    ensures
        be_value(zeros(k) + s) == be_value(s),
{
    lemma_be_value_concat(zeros(k), s);
    lemma_zeros_value(k);
}

/// A fixed-width encoding is the shortest one padded with zero bytes.
pub proof fn lemma_fixed_be(n: nat, len: nat)
    requires
        n < byte_power(len),
    ensures
        minimal_be(n).len() <= len,
        fixed_be(n, len) =~= zeros((len - minimal_be(n).len()) as nat) + minimal_be(n),
    decreases len,
{
    lemma_minimal_be_len_upper(n, len);
    if len > 0 {
        lemma_fixed_be(n / 256, (len - 1) as nat);
        if n == 0 {
            assert(minimal_be(0) =~= Seq::<u8>::empty());
        }
    } else {
        assert(minimal_be(n) =~= Seq::<u8>::empty());
    }
}

/// Zero bytes in front add to the count of leading zeros.
pub proof fn lemma_leading_zero_count_padding(k: nat, s: Seq<u8>)
    ensures
        leading_zero_count(zeros(k) + s) == k + leading_zero_count(s),
    decreases k,
{
    if k > 0 {
        lemma_leading_zero_count_padding((k - 1) as nat, s);
        assert((zeros(k) + s).drop_first() =~= zeros((k - 1) as nat) + s);
    } else {
        assert(zeros(k) + s =~= s);
    }
}

/// The leading zeros of a byte string are zero, and the byte after them,
/// if any, is not.
pub proof fn lemma_leading_zero_count_meaning(s: Seq<u8>)
    ensures
        leading_zero_count(s) <= s.len(),
        forall|i: int| 0 <= i < leading_zero_count(s) ==> s[i] == 0,
        leading_zero_count(s) < s.len() ==> s[leading_zero_count(s) as int] != 0,
    decreases s.len(),
{
    if s.len() > 0 && s[0] == 0 {
        lemma_leading_zero_count_meaning(s.drop_first());
        assert forall|i: int| 0 <= i < leading_zero_count(s) implies s[i] == 0 by {
            if i > 0 {
                assert(s[i] == s.drop_first()[i - 1]);
            }
        }
    }
}

/// Two byte strings of the same length that stand for the same number are
/// the same.
pub proof fn lemma_be_value_injective(a: Seq<u8>, b: Seq<u8>)
    requires
        a.len() == b.len(),
        be_value(a) == be_value(b),
    ensures
        a == b,
    decreases a.len(),
{
    if a.len() > 0 {
        let va = be_value(a.drop_last());
        let vb = be_value(b.drop_last());
        assert(va * 256 + a.last() as nat == vb * 256 + b.last() as nat);
        assert(a.last() == b.last() && va == vb) by (nonlinear_arith)
            requires
                va * 256 + a.last() as nat == vb * 256 + b.last() as nat,
                a.last() < 256,
                b.last() < 256,
        ;
        lemma_be_value_injective(a.drop_last(), b.drop_last());
        assert(a =~= a.drop_last().push(a.last()));
        assert(b =~= b.drop_last().push(b.last()));
    } else {
        assert(a =~= b);
    }
}

/// A byte string that does not start with a zero byte is the shortest
/// encoding of its value.
pub proof fn lemma_minimal_be_unique(s: Seq<u8>)
    requires
        s.len() > 0,
        s[0] != 0,
    ensures
        s == minimal_be(be_value(s)),
{
    let n = be_value(s);
    let k = (s.len() - 1) as nat;
    let head = s.subrange(0, 1);
    let rest = s.subrange(1, s.len() as int);
    assert(head + rest =~= s);
    lemma_be_value_concat(head, rest);
    assert(head.drop_last() =~= Seq::<u8>::empty());
    assert(be_value(Seq::<u8>::empty()) == 0);
    assert(head.last() == s[0]);
    assert(be_value(head) == be_value(head.drop_last()) * 256 + head.last() as nat);
    assert(be_value(head) == s[0] as nat);
    lemma_byte_power_positive(k);
    assert(n >= byte_power(k)) by (nonlinear_arith)
        requires
            n == s[0] as nat * byte_power(k) + be_value(rest),
            s[0] as nat >= 1,
            byte_power(k) >= 1,
    ;
    lemma_be_value_bound(s);
    lemma_minimal_be_len_upper(n, s.len());
    lemma_minimal_be_len_lower(n, k);
    lemma_minimal_be_value(n);
    lemma_be_value_injective(s, minimal_be(n));
}

} // verus!
