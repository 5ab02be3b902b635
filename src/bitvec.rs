//! Fixed-length arrays of bits, index 0 least significant: their numeric
//! meaning, and the bit-serial algorithms shared by every width.

use vstd::prelude::*;
use vstd::arithmetic::power2::{pow2, lemma_pow2_unfold, lemma_pow2_pos, lemma_pow2_adds, lemma2_to64, lemma2_to64_rest};
use vstd::arithmetic::div_mod::{lemma_div_denominator, lemma_mod_breakdown, lemma_fundamental_div_mod_converse};
use vstd::array::array_fill_for_copy_types;
use crate::bit::{Bit, bit_val, bit_of_parity, bit_and, bit_or, bit_xor, bit_not};

verus! {

/// The unsigned value of a bit sequence: the sum of `bit_val(s[i]) * 2^i`.
pub open spec fn bits_val(s: Seq<Bit>) -> nat
    decreases s.len(),
{
    if s.len() == 0 {
        0
    } else {
        bits_val(s.drop_last()) + bit_val(s.last()) * pow2((s.len() - 1) as nat)
    }
}

/// The `n` low bits of `v` in two's complement: bit `i` is the parity of `v / 2^i`.
pub open spec fn encode_seq(v: int, n: nat) -> Seq<Bit> {
    Seq::new(n, |i: int| bit_of_parity(v / pow2(i as nat) as int))
}

/// The two's-complement reading of an unsigned `w`-bit value `u`.
pub open spec fn signed_of(u: int, w: nat) -> int {
    if u >= pow2((w - 1) as nat) {
        u - pow2(w)
    } else {
        u
    }
}

/// `x` wrapped into the unsigned range of width `w`.
pub open spec fn wrap_unsigned(x: int, w: nat) -> int {
    x % pow2(w) as int
}

/// `x` wrapped into the two's-complement range of width `w`.
pub open spec fn wrap_signed(x: int, w: nat) -> int {
    signed_of(x % pow2(w) as int, w)
}

pub proof fn lemma_bits_val_bound(s: Seq<Bit>)
    ensures
        bits_val(s) < pow2(s.len()),
    decreases s.len(),
{
    if s.len() > 0 {
        lemma_bits_val_bound(s.drop_last());
        lemma_pow2_unfold(s.len());
    } else {
        lemma2_to64();
    }
}

/// The value of a prefix one bit longer.
pub proof fn lemma_take_step(s: Seq<Bit>, i: int)
    requires
        0 <= i < s.len(),
    ensures
        bits_val(s.take(i + 1)) == bits_val(s.take(i)) + bit_val(s[i]) * pow2(i as nat),
{
    assert(s.take(i + 1).drop_last() =~= s.take(i));
}

/// A sequence splits at `k` into a low part and a high part weighted by `2^k`.
pub proof fn lemma_split(s: Seq<Bit>, k: int)
    requires
        0 <= k <= s.len(),
    ensures
        bits_val(s) == bits_val(s.take(k)) + pow2(k as nat) * bits_val(s.skip(k)),
    decreases s.len(),
{
    if k == s.len() {
        assert(s.take(k) =~= s);
        assert(s.skip(k).len() == 0);
        assert(bits_val(s.skip(k)) == 0);
        assert(pow2(k as nat) * bits_val(s.skip(k)) == 0);
    } else {
        let d = s.drop_last();
        lemma_split(d, k);
        assert(d.take(k) =~= s.take(k));
        assert(s.skip(k).drop_last() =~= d.skip(k));
        let b = bit_val(s.last()) as int;
        let hi = (s.len() - 1 - k) as nat;
        lemma_pow2_adds(k as nat, hi);
        assert(bits_val(s) == bits_val(d) + b * pow2((s.len() - 1) as nat));
        let t = s.skip(k);
        assert(t.last() == s.last());
        assert(t.len() - 1 == hi);
        assert(bits_val(t) == bits_val(t.drop_last()) + bit_val(t.last()) * pow2(hi));
        assert(bits_val(t) == bits_val(d.skip(k)) + b * pow2(hi));
        assert(pow2(k as nat) * (bits_val(d.skip(k)) + b * pow2(hi)) == pow2(k as nat)
            * bits_val(d.skip(k)) + b * (pow2(k as nat) * pow2(hi))) by (nonlinear_arith);
        assert(pow2(k as nat) * pow2(hi) == pow2((s.len() - 1) as nat));
        assert(bits_val(s) == bits_val(s.take(k)) + pow2(k as nat) * bits_val(d.skip(k)) + b * pow2(
            (s.len() - 1) as nat,
        ));
    }
}

/// The value of a suffix, one bit at a time from its low end.
pub proof fn lemma_skip_step(s: Seq<Bit>, i: int)
    requires
        0 <= i < s.len(),
    ensures
        bits_val(s.skip(i)) == bit_val(s[i]) + 2 * bits_val(s.skip(i + 1)),
{
    let t = s.skip(i);
    lemma_split(t, 1);
    let first = t.take(1);
    assert(bits_val(first.drop_last()) == 0);
    assert(first.last() == s[i]);
    assert(t.skip(1) =~= s.skip(i + 1));
    lemma2_to64();
}

/// Sequences of one length with one value are equal.
pub proof fn lemma_bits_val_injective(s: Seq<Bit>, t: Seq<Bit>)
    requires
        s.len() == t.len(),
        bits_val(s) == bits_val(t),
    ensures
        s == t,
    decreases s.len(),
{
    if s.len() > 0 {
        let n = (s.len() - 1) as nat;
        let p = pow2(n) as int;
        lemma_pow2_pos(n);
        lemma_bits_val_bound(s.drop_last());
        lemma_bits_val_bound(t.drop_last());
        lemma_fundamental_div_mod_converse(
            bits_val(s) as int,
            p,
            bit_val(s.last()) as int,
            bits_val(s.drop_last()) as int,
        );
        lemma_fundamental_div_mod_converse(
            bits_val(t) as int,
            p,
            bit_val(t.last()) as int,
            bits_val(t.drop_last()) as int,
        );
        lemma_bits_val_injective(s.drop_last(), t.drop_last());
        assert(s.last() == t.last());
        assert(s =~= t.drop_last().push(t.last()));
        assert(t =~= t.drop_last().push(t.last()));
    } else {
        assert(s =~= t);
    }
}

/// The encoding of `v` reads back as `v` reduced modulo `2^n`.
pub proof fn lemma_encode_val(v: int, n: nat)
    requires
        0 <= v,
    ensures
        bits_val(encode_seq(v, n)) == v % pow2(n) as int,
    decreases n,
{
    lemma_pow2_pos(n);
    if n == 0 {
        lemma2_to64();
    } else {
        let m = (n - 1) as nat;
        lemma_encode_val(v, m);
        assert(encode_seq(v, n).drop_last() =~= encode_seq(v, m));
        lemma_pow2_pos(m);
        lemma_pow2_unfold(n);
        lemma_mod_breakdown(v, pow2(m) as int, 2);
        assert(pow2(m) * ((v / pow2(m) as int) % 2) == ((v / pow2(m) as int) % 2) * pow2(m))
            by (nonlinear_arith);
    }
}

/// The bits of `v`, least significant first.
pub fn encode<const N: usize>(v: u64) -> (r: [Bit; N])
    ensures
        r@ == encode_seq(v as int, N as nat),
{
    let mut r: [Bit; N] = array_fill_for_copy_types(Bit::Zero);
    let mut rem: u64 = v;
    let mut i: usize = 0;
    proof {
        lemma2_to64();
    }
    while i < N
        invariant
            i <= N,
            r@.len() == N,
            rem as int == v as int / pow2(i as nat) as int,
            forall|j: int| 0 <= j < i ==> r@[j] == encode_seq(v as int, N as nat)[j],
        decreases N - i,
    {
        r[i] = if rem % 2 == 1 {
            Bit::One
        } else {
            Bit::Zero
        };
        proof {
            lemma_pow2_pos(i as nat);
            lemma_div_denominator(v as int, pow2(i as nat) as int, 2);
            lemma_pow2_unfold((i + 1) as nat);
        }
        rem = rem / 2;
        i = i + 1;
    }
    assert(r@ =~= encode_seq(v as int, N as nat));
    r
}

/// The unsigned value of an array of at most 64 bits.
pub fn decode<const N: usize>(a: &[Bit; N]) -> (r: u64)
    requires
        N <= 64,
    ensures
        r as nat == bits_val(a@),
{
    let mut r: u64 = 0;
    let mut i: usize = N;
    assert(a@.skip(N as int).len() == 0);
    while i > 0
        invariant
            i <= N <= 64,
            a@.len() == N,
            r as nat == bits_val(a@.skip(i as int)),
        decreases i,
    {
        i = i - 1;
        proof {
            lemma_skip_step(a@, i as int);
            lemma_bits_val_bound(a@.skip(i + 1));
            lemma2_to64();
            if N - i - 1 < 63 {
                vstd::arithmetic::power2::lemma_pow2_strictly_increases((N - i - 1) as nat, 63);
            }
            let rest = a@.skip(i + 1);
            assert(rest.len() == N - i - 1);
            assert(r as nat == bits_val(rest));
            assert(pow2(rest.len()) <= pow2(63));
            lemma2_to64_rest();
            assert(r < 0x8000_0000_0000_0000u64);
        }
        let b: u64 = if a[i] == Bit::One {
            1
        } else {
            0
        };
        r = 2 * r + b;
    }
    assert(a@.skip(0) =~= a@);
    r
}

/// One stage of a ripple-carry adder: the sum bit and the carry out.
pub fn full_adder(a: Bit, b: Bit, carry: Bit) -> (r: (Bit, Bit))
    ensures
        r.0 == bit_xor(bit_xor(a, b), carry),
        r.1 == bit_or(bit_or(bit_and(a, b), bit_and(a, carry)), bit_and(b, carry)),
        bit_val(r.0) + 2 * bit_val(r.1) == bit_val(a) + bit_val(b) + bit_val(carry),
{
    let sum = a.xor(&b).xor(&carry);
    let new_carry = a.and(&b).or(&a.and(&carry)).or(&b.and(&carry));
    (sum, new_carry)
}

/// One stage of a ripple-borrow subtractor: the difference bit and the borrow out.
pub fn full_subtractor(a: Bit, b: Bit, borrow: Bit) -> (r: (Bit, Bit))
    ensures
        r.0 == bit_xor(bit_xor(a, b), borrow),
        r.1 == bit_or(bit_and(b, bit_not(a)), bit_and(borrow, bit_not(bit_xor(a, b)))),
        bit_val(a) - bit_val(b) - bit_val(borrow) == bit_val(r.0) - 2 * bit_val(r.1),
{
    let diff = a.xor(&b).xor(&borrow);
    let new_borrow = b.and(&a.not()).or(&borrow.and(&a.xor(&b).not()));
    (diff, new_borrow)
}

/// Bit-serial addition modulo `2^N`: a full adder per position from the
/// least significant upward, the last carry dropped.
pub fn ripple_add<const N: usize>(a: &[Bit; N], b: &[Bit; N]) -> (r: [Bit; N])
    ensures
        bits_val(r@) as int == wrap_unsigned(bits_val(a@) + bits_val(b@) as int, N as nat),
{
    let mut r: [Bit; N] = *a;
    let mut carry = Bit::Zero;
    let mut i: usize = 0;
    proof {
        lemma2_to64();
        assert(r@.take(0).len() == 0);
        assert(a@.take(0).len() == 0);
        assert(b@.take(0).len() == 0);
    }
    while i < N
        invariant
            i <= N,
            r@.len() == N,
            a@.len() == N,
            b@.len() == N,
            bits_val(r@.take(i as int)) + bit_val(carry) * pow2(i as nat) == bits_val(a@.take(i as int))
                + bits_val(b@.take(i as int)),
        decreases N - i,
    {
        let (sum, new_carry) = full_adder(a[i], b[i], carry);
        let ghost before = r@;
        r[i] = sum;
        proof {
            assert(r@.take(i as int) =~= before.take(i as int));
            lemma_take_step(r@, i as int);
            lemma_take_step(a@, i as int);
            lemma_take_step(b@, i as int);
            lemma_pow2_unfold((i + 1) as nat);
            let p = pow2(i as nat) as int;
            assert(bit_val(sum) * p + bit_val(new_carry) * (2 * p) == bit_val(a@[i as int]) * p
                + bit_val(b@[i as int]) * p + bit_val(carry) * p) by (nonlinear_arith)
                requires
                    bit_val(sum) + 2 * bit_val(new_carry) == bit_val(a@[i as int]) + bit_val(
                        b@[i as int],
                    ) + bit_val(carry),
            ;
            assert(r@[i as int] == sum);
            assert(pow2((i + 1) as nat) == 2 * p);
            assert(bits_val(r@.take(i + 1)) + bit_val(new_carry) * pow2((i + 1) as nat) == bits_val(
                a@.take(i + 1),
            ) + bits_val(b@.take(i + 1)));
        }
        carry = new_carry;
        i = i + 1;
    }
    proof {
        assert(r@.take(N as int) =~= r@);
        assert(a@.take(N as int) =~= a@);
        assert(b@.take(N as int) =~= b@);
        lemma_bits_val_bound(r@);
        lemma_fundamental_div_mod_converse(
            bits_val(a@) + bits_val(b@) as int,
            pow2(N as nat) as int,
            bit_val(carry) as int,
            bits_val(r@) as int,
        );
    }
    r
}

/// Bit-serial subtraction modulo `2^N`: a full subtractor per position from
/// the least significant upward, the last borrow dropped.
pub fn ripple_sub<const N: usize>(a: &[Bit; N], b: &[Bit; N]) -> (r: [Bit; N])
    ensures
        bits_val(r@) as int == wrap_unsigned(bits_val(a@) - bits_val(b@), N as nat),
{
    let mut r: [Bit; N] = *a;
    let mut borrow = Bit::Zero;
    let mut i: usize = 0;
    proof {
        lemma2_to64();
        assert(r@.take(0).len() == 0);
        assert(a@.take(0).len() == 0);
        assert(b@.take(0).len() == 0);
    }
    while i < N
        invariant
            i <= N,
            r@.len() == N,
            a@.len() == N,
            b@.len() == N,
            bits_val(r@.take(i as int)) - bit_val(borrow) * pow2(i as nat) == bits_val(
                a@.take(i as int),
            ) - bits_val(b@.take(i as int)),
        decreases N - i,
    {
        let (diff, new_borrow) = full_subtractor(a[i], b[i], borrow);
        let ghost before = r@;
        r[i] = diff;
        proof {
            assert(r@.take(i as int) =~= before.take(i as int));
            lemma_take_step(r@, i as int);
            lemma_take_step(a@, i as int);
            lemma_take_step(b@, i as int);
            lemma_pow2_unfold((i + 1) as nat);
            let p = pow2(i as nat) as int;
            assert(bit_val(diff) * p - bit_val(new_borrow) * (2 * p) == bit_val(a@[i as int]) * p
                - bit_val(b@[i as int]) * p - bit_val(borrow) * p) by (nonlinear_arith)
                requires
                    bit_val(a@[i as int]) - bit_val(b@[i as int]) - bit_val(borrow) == bit_val(
                        diff,
                    ) - 2 * bit_val(new_borrow),
            ;
            assert(r@[i as int] == diff);
            assert(pow2((i + 1) as nat) == 2 * p);
            assert(bits_val(r@.take(i + 1)) - bit_val(new_borrow) * pow2((i + 1) as nat) == bits_val(
                a@.take(i + 1),
            ) - bits_val(b@.take(i + 1)));
        }
        borrow = new_borrow;
        i = i + 1;
    }
    proof {
        assert(r@.take(N as int) =~= r@);
        assert(a@.take(N as int) =~= a@);
        assert(b@.take(N as int) =~= b@);
        lemma_bits_val_bound(r@);
        let m = pow2(N as nat) as int;
        assert(-(bit_val(borrow) as int) * m == -(bit_val(borrow) * m)) by (nonlinear_arith);
        lemma_fundamental_div_mod_converse(
            bits_val(a@) - bits_val(b@),
            pow2(N as nat) as int,
            -(bit_val(borrow) as int),
            bits_val(r@) as int,
        );
    }
    r
}

/// Position-wise conjunction.
pub open spec fn and_seq(a: Seq<Bit>, b: Seq<Bit>) -> Seq<Bit> {
    Seq::new(a.len(), |i: int| bit_and(a[i], b[i]))
}

/// Position-wise inclusive or.
pub open spec fn or_seq(a: Seq<Bit>, b: Seq<Bit>) -> Seq<Bit> {
    Seq::new(a.len(), |i: int| bit_or(a[i], b[i]))
}

/// Position-wise exclusive or.
pub open spec fn xor_seq(a: Seq<Bit>, b: Seq<Bit>) -> Seq<Bit> {
    Seq::new(a.len(), |i: int| bit_xor(a[i], b[i]))
}

/// Every bit flipped.
pub open spec fn not_seq(a: Seq<Bit>) -> Seq<Bit> {
    Seq::new(a.len(), |i: int| bit_not(a[i]))
}

/// Logical shift toward the high end by `k`: the low `k` positions become
/// `Zero`, and nothing wraps around.
pub open spec fn shl_seq(s: Seq<Bit>, k: nat) -> Seq<Bit> {
    Seq::new(s.len(), |j: int| if j >= k { s[j - k] } else { Bit::Zero })
}

/// Logical shift toward the low end by `k`: the high `k` positions become
/// `Zero`, and nothing wraps around.
pub open spec fn shr_seq(s: Seq<Bit>, k: nat) -> Seq<Bit> {
    Seq::new(s.len(), |j: int| if j + k < s.len() { s[j + k] } else { Bit::Zero })
}

/// Circular shift toward the high end by `k` positions, `k` taken modulo the length.
pub open spec fn rotl_seq(s: Seq<Bit>, k: int) -> Seq<Bit> {
    Seq::new(s.len(), |j: int| s[(j - k) % (s.len() as int)])
}

/// Circular shift toward the low end by `k` positions, `k` taken modulo the length.
pub open spec fn rotr_seq(s: Seq<Bit>, k: int) -> Seq<Bit> {
    Seq::new(s.len(), |j: int| s[(j + k) % (s.len() as int)])
}

/// The positions in reverse order.
pub open spec fn rev_seq(s: Seq<Bit>) -> Seq<Bit> {
    Seq::new(s.len(), |j: int| s[s.len() - 1 - j])
}

/// How many positions hold `b`.
pub open spec fn count_bit(s: Seq<Bit>, b: Bit) -> nat
    decreases s.len(),
{
    if s.len() == 0 {
        0
    } else {
        count_bit(s.drop_last(), b) + if s.last() == b {
            1nat
        } else {
            0nat
        }
    }
}

/// The first `n` bits of `s`, with `Zero` where `s` is too short.
pub open spec fn fit_seq(s: Seq<Bit>, n: nat) -> Seq<Bit> {
    Seq::new(n, |i: int| if i < s.len() { s[i] } else { Bit::Zero })
}

/// Flipping every bit gives the complement to `2^len - 1`.
pub proof fn lemma_not_val(s: Seq<Bit>)
    ensures
        bits_val(not_seq(s)) + bits_val(s) + 1 == pow2(s.len()),
    decreases s.len(),
{
    if s.len() == 0 {
        lemma2_to64();
    } else {
        let d = s.drop_last();
        lemma_not_val(d);
        assert(not_seq(s).drop_last() =~= not_seq(d));
        lemma_pow2_unfold(s.len());
        let p = pow2((s.len() - 1) as nat);
        assert(not_seq(s).last() == bit_not(s.last()));
        if s.last() == Bit::One {
            assert(bit_val(not_seq(s).last()) == 0);
            assert(bit_val(s.last()) == 1);
        } else {
            assert(bit_val(not_seq(s).last()) == 1);
            assert(bit_val(s.last()) == 0);
        }
        assert(bit_val(not_seq(s).last()) * p + bit_val(s.last()) * p == p);
    }
}

/// A sequence of `Zero` bits has value 0.
pub proof fn lemma_zeros_val(s: Seq<Bit>)
    requires
        forall|i: int| 0 <= i < s.len() ==> s[i] == Bit::Zero,
    ensures
        bits_val(s) == 0,
    decreases s.len(),
{
    if s.len() > 0 {
        lemma_zeros_val(s.drop_last());
    }
}

/// Each position holds exactly one of the two bits.
pub proof fn lemma_count_total(s: Seq<Bit>)
    ensures
        count_bit(s, Bit::One) + count_bit(s, Bit::Zero) == s.len(),
    decreases s.len(),
{
    if s.len() > 0 {
        lemma_count_total(s.drop_last());
    }
}

/// The count over a prefix one bit longer.
proof fn lemma_count_step(s: Seq<Bit>, b: Bit, i: int)
    requires
        0 <= i < s.len(),
    ensures
        count_bit(s.take(i + 1), b) == count_bit(s.take(i), b) + if s[i] == b {
            1nat
        } else {
            0nat
        },
{
    assert(s.take(i + 1).drop_last() =~= s.take(i));
}

/// Rotating right by `k` undoes rotating left by `k`.
pub proof fn lemma_rotate_inverse(s: Seq<Bit>, k: int)
    requires
        s.len() > 0,
    ensures
        rotr_seq(rotl_seq(s, k), k) == s,
        rotl_seq(rotr_seq(s, k), k) == s,
{
    let n = s.len() as int;
    assert forall|j: int| 0 <= j < n implies rotr_seq(rotl_seq(s, k), k)[j] == s[j] by {
        let m = (j + k) % n;
        let q = (j + k) / n;
        vstd::arithmetic::div_mod::lemma_fundamental_div_mod(j + k, n);
        assert(n * (-q) == -(n * q)) by (nonlinear_arith);
        assert(m - k == n * (-q) + j);
        vstd::arithmetic::div_mod::lemma_mod_multiples_vanish(-q, j, n);
        vstd::arithmetic::div_mod::lemma_small_mod(j as nat, n as nat);
    }
    assert forall|j: int| 0 <= j < n implies rotl_seq(rotr_seq(s, k), k)[j] == s[j] by {
        let m = (j - k) % n;
        let q = (j - k) / n;
        vstd::arithmetic::div_mod::lemma_fundamental_div_mod(j - k, n);
        assert(n * (-q) == -(n * q)) by (nonlinear_arith);
        assert(m + k == n * (-q) + j);
        vstd::arithmetic::div_mod::lemma_mod_multiples_vanish(-q, j, n);
        vstd::arithmetic::div_mod::lemma_small_mod(j as nat, n as nat);
    }
    assert(rotr_seq(rotl_seq(s, k), k) =~= s);
    assert(rotl_seq(rotr_seq(s, k), k) =~= s);
}

/// A rotation by `k` is the rotation by `k` modulo the length.
pub proof fn lemma_rotate_mod(s: Seq<Bit>, k: int)
    requires
        s.len() > 0,
    ensures
        rotl_seq(s, k) == rotl_seq(s, k % (s.len() as int)),
        rotr_seq(s, k) == rotr_seq(s, k % (s.len() as int)),
{
    let n = s.len() as int;
    vstd::arithmetic::div_mod::lemma_fundamental_div_mod(k, n);
    let q = k / n;
    assert(n * (-q) == -(n * q)) by (nonlinear_arith);
    assert forall|j: int| 0 <= j < n implies #[trigger] ((j - k) % n) == (j - k % n) % n by {
        assert(j - k == n * (-q) + (j - k % n));
        vstd::arithmetic::div_mod::lemma_mod_multiples_vanish(-q, j - k % n, n);
    }
    assert forall|j: int| 0 <= j < n implies #[trigger] ((j + k) % n) == (j + k % n) % n by {
        assert(j + k == n * q + (j + k % n));
        vstd::arithmetic::div_mod::lemma_mod_multiples_vanish(q, j + k % n, n);
    }
    assert(rotl_seq(s, k) =~= rotl_seq(s, k % n));
    assert(rotr_seq(s, k) =~= rotr_seq(s, k % n));
}

/// Reversing twice gives the sequence back.
pub proof fn lemma_reverse_involution(s: Seq<Bit>)
    ensures
        rev_seq(rev_seq(s)) == s,
{
    assert(rev_seq(rev_seq(s)) =~= s);
}

/// A shift by the full length or more leaves only `Zero` bits, of value 0.
pub proof fn lemma_shift_saturates(s: Seq<Bit>, k: nat)
    requires
        k >= s.len(),
    ensures
        bits_val(shl_seq(s, k)) == 0,
        bits_val(shr_seq(s, k)) == 0,
{
    lemma_zeros_val(shl_seq(s, k));
    lemma_zeros_val(shr_seq(s, k));
}

/// A logical right shift by `k` divides the value by `2^k`.
pub proof fn lemma_shr_val(s: Seq<Bit>, k: nat)
    ensures
        bits_val(shr_seq(s, k)) == bits_val(s) / pow2(k),
{
    let n = s.len();
    let t = shr_seq(s, k);
    lemma_pow2_pos(k);
    lemma_bits_val_bound(s);
    if k >= n {
        lemma_zeros_val(t);
        if k > n {
            vstd::arithmetic::power2::lemma_pow2_strictly_increases(n, k);
        }
        vstd::arithmetic::div_mod::lemma_basic_div(bits_val(s) as int, pow2(k) as int);
    } else {
        let m = (n - k) as int;
        lemma_split(t, m);
        assert(t.take(m) =~= s.skip(k as int));
        lemma_zeros_val(t.skip(m));
        lemma_split(s, k as int);
        lemma_bits_val_bound(s.take(k as int));
        let hi = bits_val(s.skip(k as int)) as int;
        assert(pow2(k) * hi == hi * pow2(k)) by (nonlinear_arith);
        lemma_fundamental_div_mod_converse(
            bits_val(s) as int,
            pow2(k) as int,
            bits_val(s.skip(k as int)) as int,
            bits_val(s.take(k as int)) as int,
        );
    }
}

/// A logical left shift by `k` multiplies the value by `2^k`, modulo `2^len`.
pub proof fn lemma_shl_val(s: Seq<Bit>, k: nat)
    ensures
        bits_val(shl_seq(s, k)) as int == (bits_val(s) * pow2(k)) as int % pow2(s.len()) as int,
{
    let n = s.len();
    let t = shl_seq(s, k);
    let v = bits_val(s) as int;
    lemma_pow2_pos(n);
    lemma_pow2_pos(k);
    if k >= n {
        lemma_zeros_val(t);
        lemma_pow2_adds((k - n) as nat, n);
        let q = v * pow2((k - n) as nat);
        assert(v * pow2(k) == q * pow2(n)) by (nonlinear_arith)
            requires
                pow2(k) == pow2((k - n) as nat) * pow2(n),
                q == v * pow2((k - n) as nat),
        ;
        lemma_fundamental_div_mod_converse(v * pow2(k), pow2(n) as int, q, 0);
    } else {
        let m = (n - k) as int;
        lemma_split(t, k as int);
        lemma_zeros_val(t.take(k as int));
        assert(t.skip(k as int) =~= s.take(m));
        lemma_split(s, m);
        let lo = bits_val(s.take(m)) as int;
        let hi = bits_val(s.skip(m)) as int;
        lemma_bits_val_bound(s.take(m));
        lemma_pow2_adds(m as nat, k);
        assert(v * pow2(k) == hi * pow2(n) + lo * pow2(k)) by (nonlinear_arith)
            requires
                v == lo + pow2(m as nat) * hi,
                pow2(n) == pow2(m as nat) * pow2(k),
        ;
        assert(lo * pow2(k) < pow2(n)) by (nonlinear_arith)
            requires
                0 <= lo < pow2(m as nat),
                pow2(k) > 0,
                pow2(n) == pow2(m as nat) * pow2(k),
        ;
        assert(lo * pow2(k) >= 0) by (nonlinear_arith)
            requires
                0 <= lo,
                pow2(k) > 0,
        ;
        lemma_fundamental_div_mod_converse(v * pow2(k), pow2(n) as int, hi, lo * pow2(k));
        assert(bits_val(t) as int == pow2(k) * bits_val(s.take(m)));
        assert(pow2(k) * lo == lo * pow2(k)) by (nonlinear_arith);
    }
}

/// Position-wise conjunction of two arrays.
pub fn and_bits<const N: usize>(a: &[Bit; N], b: &[Bit; N]) -> (r: [Bit; N])
    ensures
        r@ == and_seq(a@, b@),
{
    let mut r: [Bit; N] = *a;
    let mut i: usize = 0;
    while i < N
        invariant
            i <= N,
            r@.len() == N,
            a@.len() == N,
            b@.len() == N,
            forall|j: int| 0 <= j < i ==> r@[j] == bit_and(a@[j], b@[j]),
        decreases N - i,
    {
        r[i] = a[i].and(&b[i]);
        i = i + 1;
    }
    assert(r@ =~= and_seq(a@, b@));
    r
}

/// Position-wise inclusive or of two arrays.
pub fn or_bits<const N: usize>(a: &[Bit; N], b: &[Bit; N]) -> (r: [Bit; N])
    ensures
        r@ == or_seq(a@, b@),
{
    let mut r: [Bit; N] = *a;
    let mut i: usize = 0;
    while i < N
        invariant
            i <= N,
            r@.len() == N,
            a@.len() == N,
            b@.len() == N,
            forall|j: int| 0 <= j < i ==> r@[j] == bit_or(a@[j], b@[j]),
        decreases N - i,
    {
        r[i] = a[i].or(&b[i]);
        i = i + 1;
    }
    assert(r@ =~= or_seq(a@, b@));
    r
}

/// Position-wise exclusive or of two arrays.
pub fn xor_bits<const N: usize>(a: &[Bit; N], b: &[Bit; N]) -> (r: [Bit; N])
    ensures
        r@ == xor_seq(a@, b@),
{
    let mut r: [Bit; N] = *a;
    let mut i: usize = 0;
    while i < N
        invariant
            i <= N,
            r@.len() == N,
            a@.len() == N,
            b@.len() == N,
            forall|j: int| 0 <= j < i ==> r@[j] == bit_xor(a@[j], b@[j]),
        decreases N - i,
    {
        r[i] = a[i].xor(&b[i]);
        i = i + 1;
    }
    assert(r@ =~= xor_seq(a@, b@));
    r
}

/// Every bit of an array flipped.
pub fn not_bits<const N: usize>(a: &[Bit; N]) -> (r: [Bit; N])
    ensures
        r@ == not_seq(a@),
{
    let mut r: [Bit; N] = *a;
    let mut i: usize = 0;
    while i < N
        invariant
            i <= N,
            r@.len() == N,
            a@.len() == N,
            forall|j: int| 0 <= j < i ==> r@[j] == bit_not(a@[j]),
        decreases N - i,
    {
        r[i] = a[i].not();
        i = i + 1;
    }
    assert(r@ =~= not_seq(a@));
    r
}

/// Logical shift of an array toward its high end.
pub fn shift_left_bits<const N: usize>(a: &[Bit; N], k: usize) -> (r: [Bit; N])
    ensures
        r@ == shl_seq(a@, k as nat),
{
    let mut r: [Bit; N] = *a;
    let mut j: usize = 0;
    while j < N
        invariant
            j <= N,
            r@.len() == N,
            a@.len() == N,
            forall|t: int| 0 <= t < j ==> r@[t] == shl_seq(a@, k as nat)[t],
        decreases N - j,
    {
        r[j] = if j >= k {
            a[j - k]
        } else {
            Bit::Zero
        };
        j = j + 1;
    }
    assert(r@ =~= shl_seq(a@, k as nat));
    r
}

/// Logical shift of an array toward its low end.
pub fn shift_right_bits<const N: usize>(a: &[Bit; N], k: usize) -> (r: [Bit; N])
    ensures
        r@ == shr_seq(a@, k as nat),
{
    let mut r: [Bit; N] = *a;
    let mut j: usize = 0;
    while j < N
        invariant
            j <= N,
            r@.len() == N,
            a@.len() == N,
            forall|t: int| 0 <= t < j ==> r@[t] == shr_seq(a@, k as nat)[t],
        decreases N - j,
    {
        r[j] = if k < N - j {
            a[j + k]
        } else {
            Bit::Zero
        };
        j = j + 1;
    }
    assert(r@ =~= shr_seq(a@, k as nat));
    r
}

/// Circular shift of an array toward its high end.
pub fn rotate_left_bits<const N: usize>(a: &[Bit; N], k: usize) -> (r: [Bit; N])
    requires
        0 < N <= 64,
    ensures
        r@ == rotl_seq(a@, k as int),
{
    let m: usize = k % N;
    let mut r: [Bit; N] = *a;
    let mut j: usize = 0;
    while j < N
        invariant
            0 < N <= 64,
            m < N,
            m == k % N,
            j <= N,
            r@.len() == N,
            a@.len() == N,
            forall|t: int| 0 <= t < j ==> r@[t] == a@[(t + N - m) % (N as int)],
        decreases N - j,
    {
        r[j] = a[(j + N - m) % N];
        j = j + 1;
    }
    proof {
        let n = N as int;
        assert forall|t: int| 0 <= t < n implies #[trigger] ((t + n - m) % n) == (t - k) % n by {
            vstd::arithmetic::div_mod::lemma_fundamental_div_mod(k as int, n);
            let q = k as int / n;
            assert(n * (q + 1) == n * q + n) by (nonlinear_arith);
            assert(t + n - m == n * (q + 1) + (t - k));
            vstd::arithmetic::div_mod::lemma_mod_multiples_vanish(q + 1, t - k, n);
        }
        assert(r@ =~= rotl_seq(a@, k as int));
    }
    r
}

/// Circular shift of an array toward its low end.
pub fn rotate_right_bits<const N: usize>(a: &[Bit; N], k: usize) -> (r: [Bit; N])
    requires
        0 < N <= 64,
    ensures
        r@ == rotr_seq(a@, k as int),
{
    let m: usize = k % N;
    let mut r: [Bit; N] = *a;
    let mut j: usize = 0;
    while j < N
        invariant
            0 < N <= 64,
            m < N,
            m == k % N,
            j <= N,
            r@.len() == N,
            a@.len() == N,
            forall|t: int| 0 <= t < j ==> r@[t] == a@[(t + m) % (N as int)],
        decreases N - j,
    {
        r[j] = a[(j + m) % N];
        j = j + 1;
    }
    proof {
        let n = N as int;
        assert forall|t: int| 0 <= t < n implies #[trigger] ((t + m) % n) == (t + k) % n by {
            vstd::arithmetic::div_mod::lemma_fundamental_div_mod(k as int, n);
            let q = k as int / n;
            assert(t + k == n * q + (t + m));
            vstd::arithmetic::div_mod::lemma_mod_multiples_vanish(q, t + m, n);
        }
        assert(r@ =~= rotr_seq(a@, k as int));
    }
    r
}

/// The positions of an array in reverse order.
pub fn reverse_bits_of<const N: usize>(a: &[Bit; N]) -> (r: [Bit; N])
    ensures
        r@ == rev_seq(a@),
{
    let mut r: [Bit; N] = *a;
    let mut j: usize = 0;
    while j < N
        invariant
            j <= N,
            r@.len() == N,
            a@.len() == N,
            forall|t: int| 0 <= t < j ==> r@[t] == a@[N - 1 - t],
        decreases N - j,
    {
        r[j] = a[N - 1 - j];
        j = j + 1;
    }
    assert(r@ =~= rev_seq(a@));
    r
}

/// How many positions of an array hold `b`.
pub fn count_bits<const N: usize>(a: &[Bit; N], b: Bit) -> (r: u32)
    requires
        N <= 64,
    ensures
        r as nat == count_bit(a@, b),
{
    let mut c: u32 = 0;
    let mut i: usize = 0;
    assert(a@.take(0).len() == 0);
    while i < N
        invariant
            i <= N <= 64,
            a@.len() == N,
            c as nat == count_bit(a@.take(i as int), b),
            c <= i,
        decreases N - i,
    {
        proof {
            lemma_count_step(a@, b, i as int);
        }
        if a[i] == b {
            c = c + 1;
        }
        i = i + 1;
    }
    assert(a@.take(N as int) =~= a@);
    c
}

/// An array of `N` bits from a slice: its first `N` bits, with `Zero` in
/// the positions that the slice is too short to fill.
pub fn fit_bits<const N: usize>(bits: &[Bit]) -> (r: [Bit; N])
    ensures
        r@ == fit_seq(bits@, N as nat),
{
    let mut r: [Bit; N] = array_fill_for_copy_types(Bit::Zero);
    let mut i: usize = 0;
    while i < N
        invariant
            i <= N,
            r@.len() == N,
            forall|t: int| 0 <= t < i ==> r@[t] == fit_seq(bits@, N as nat)[t],
        decreases N - i,
    {
        r[i] = if i < bits.len() {
            bits[i]
        } else {
            Bit::Zero
        };
        i = i + 1;
    }
    assert(r@ =~= fit_seq(bits@, N as nat));
    r
}

} // verus!
