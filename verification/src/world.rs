//! Integer parts of the WORLD vocoder: the xorshift128 noise source, the
//! FFT bit-reversal permutation and the number of aperiodicity bands.
use vstd::prelude::*;

verus! {

/// State `(x, y, z, w)` of the xorshift128 generator.
pub type Xorshift128 = (u32, u32, u32, u32);

/// One xorshift128 step: the new state, whose last word is the output.
pub open spec fn xorshift128_step(s: Xorshift128) -> Xorshift128 {
    let (x, y, z, w) = s;
    let t = x ^ (x << 11u32);
    (y, z, w, (w ^ (w >> 19u32)) ^ (t ^ (t >> 8u32)))
}

/// The state after `n` steps.
pub open spec fn xorshift128_steps(s: Xorshift128, n: nat) -> Xorshift128
    decreases n,
{
    if n == 0 {
        s
    } else {
        xorshift128_step(xorshift128_steps(s, (n - 1) as nat))
    }
}

/// Sum of the top 28 bits of the next `n` outputs.
pub open spec fn randn_sum_of(s: Xorshift128, n: nat) -> int
    decreases n,
{
    if n == 0 {
        0
    } else {
        randn_sum_of(s, (n - 1) as nat) + (xorshift128_steps(s, n).3 >> 4u32) as int
    }
}

/// The seed state of WORLD's noise generator.
pub open spec fn randn_seed() -> Xorshift128 {
    (123456789, 362436069, 521288629, 88675123)
}

/// WORLD's xorshift128 noise generator, advanced one step at a time.
pub struct RandnState {
    pub x: u32,
    pub y: u32,
    pub z: u32,
    pub w: u32,
}

impl RandnState {
    /// The state as a tuple.
    pub open spec fn state(&self) -> Xorshift128 {
        (self.x, self.y, self.z, self.w)
    }

    /// A generator at WORLD's seed.
    pub fn new() -> (r: Self)
        ensures
            r.state() == randn_seed(),
    {
        RandnState { x: 123456789, y: 362436069, z: 521288629, w: 88675123 }
    }

    /// Advances by one step and returns the output word.
    pub fn next_u32(&mut self) -> (r: u32)
        ensures
            final(self).state() == xorshift128_step(old(self).state()),
            r == final(self).state().3,
    {
        let t = self.x ^ (self.x << 11u32);
        self.x = self.y;
        self.y = self.z;
        self.z = self.w;
        self.w = (self.w ^ (self.w >> 19u32)) ^ (t ^ (t >> 8u32));
        self.w
    }

    /// Advances by twelve steps and returns the sum of the top 28 bits of
    /// their outputs; `sum / 2^28 - 6` is then an approximately normal sample.
    pub fn randn_sum(&mut self) -> (r: u32)
        ensures
            final(self).state() == xorshift128_steps(old(self).state(), 12),
            r == randn_sum_of(old(self).state(), 12),
    {
        let ghost s0 = self.state();
        let first = self.next_u32();
        let mut tmp: u32 = first >> 4u32;
        proof {
            assert(first >> 4u32 <= 268435455) by (bit_vector);
            assert(xorshift128_steps(s0, 1) == xorshift128_step(xorshift128_steps(s0, 0)));
            assert(randn_sum_of(s0, 1) == randn_sum_of(s0, 0) + (xorshift128_steps(s0, 1).3
                >> 4u32) as int);
        }
        let mut k: u32 = 1;
        while k < 12
            invariant
                1 <= k <= 12,
                self.state() == xorshift128_steps(s0, k as nat),
                tmp == randn_sum_of(s0, k as nat),
                tmp <= k * 268435455,
            decreases 12 - k,
        {
            let v = self.next_u32();
            proof {
                assert(v >> 4u32 <= 268435455) by (bit_vector);
                assert(xorshift128_steps(s0, (k + 1) as nat) == xorshift128_step(
                    xorshift128_steps(s0, k as nat),
                ));
            }
            tmp = tmp + (v >> 4u32);
            k = k + 1;
        }
        tmp
    }
}

/// WORLD's noise generator as the native analysis steps it: twelve
/// xorshift128 steps unrolled in blocks of four.
#[derive(Clone, Copy)]
pub struct NativeRandnState {
    x: u32,
    y: u32,
    z: u32,
    w: u32,
}

impl NativeRandnState {
    /// The state as a tuple.
    pub closed spec fn state(&self) -> Xorshift128 {
        (self.x, self.y, self.z, self.w)
    }

    /// A generator at WORLD's seed.
    pub fn new() -> (r: Self)
        ensures
            r.state() == randn_seed(),
    {
        NativeRandnState { x: 123456789, y: 362436069, z: 521288629, w: 88675123 }
    }

    /// Advances by twelve steps at once and returns the wrapping sum of the
    /// top 28 bits of their outputs.
    pub fn randn_sum(&mut self) -> (r: u32)
        ensures
            final(self).state() == xorshift128_steps(old(self).state(), 12),
            r == randn_sum_of(old(self).state(), 12),
    {
        let x = self.x;
        let y = self.y;
        let z = self.z;
        let w = self.w;

        let t1 = x ^ (x << 11u32);
        let t2 = y ^ (y << 11u32);
        let t3 = z ^ (z << 11u32);
        let t4 = w ^ (w << 11u32);

        let w1 = (w ^ (w >> 19u32)) ^ (t1 ^ (t1 >> 8u32));
        let w2 = (w1 ^ (w1 >> 19u32)) ^ (t2 ^ (t2 >> 8u32));
        let w3 = (w2 ^ (w2 >> 19u32)) ^ (t3 ^ (t3 >> 8u32));
        let w4 = (w3 ^ (w3 >> 19u32)) ^ (t4 ^ (t4 >> 8u32));

        let t5 = w1 ^ (w1 << 11u32);
        let t6 = w2 ^ (w2 << 11u32);
        let t7 = w3 ^ (w3 << 11u32);
        let t8 = w4 ^ (w4 << 11u32);

        let w5 = (w4 ^ (w4 >> 19u32)) ^ (t5 ^ (t5 >> 8u32));
        let w6 = (w5 ^ (w5 >> 19u32)) ^ (t6 ^ (t6 >> 8u32));
        let w7 = (w6 ^ (w6 >> 19u32)) ^ (t7 ^ (t7 >> 8u32));
        let w8 = (w7 ^ (w7 >> 19u32)) ^ (t8 ^ (t8 >> 8u32));

        let t9 = w5 ^ (w5 << 11u32);
        let t10 = w6 ^ (w6 << 11u32);
        let t11 = w7 ^ (w7 << 11u32);
        let t12 = w8 ^ (w8 << 11u32);

        let w9 = (w8 ^ (w8 >> 19u32)) ^ (t9 ^ (t9 >> 8u32));
        let w10 = (w9 ^ (w9 >> 19u32)) ^ (t10 ^ (t10 >> 8u32));
        let w11 = (w10 ^ (w10 >> 19u32)) ^ (t11 ^ (t11 >> 8u32));
        let w12 = (w11 ^ (w11 >> 19u32)) ^ (t12 ^ (t12 >> 8u32));

        self.x = w9;
        self.y = w10;
        self.z = w11;
        self.w = w12;

        let ghost s0 = (x, y, z, w);
        proof {
            lemma_unrolled_steps(s0, w1, w2, w3, w4, w5, w6, w7, w8, w9, w10, w11, w12);
            assert(w1 >> 4u32 <= 268435455 && w2 >> 4u32 <= 268435455 && w3 >> 4u32 <= 268435455 && w4
                >> 4u32 <= 268435455 && w5 >> 4u32 <= 268435455 && w6 >> 4u32 <= 268435455 && w7
                >> 4u32 <= 268435455 && w8 >> 4u32 <= 268435455 && w9 >> 4u32 <= 268435455 && w10
                >> 4u32 <= 268435455 && w11 >> 4u32 <= 268435455 && w12 >> 4u32 <= 268435455)
                by (bit_vector);
        }
        let sum = (w1 >> 4u32).wrapping_add(w2 >> 4u32).wrapping_add(w3 >> 4u32).wrapping_add(
            w4 >> 4u32,
        ).wrapping_add(w5 >> 4u32).wrapping_add(w6 >> 4u32).wrapping_add(w7 >> 4u32).wrapping_add(
            w8 >> 4u32,
        ).wrapping_add(w9 >> 4u32).wrapping_add(w10 >> 4u32).wrapping_add(w11 >> 4u32).wrapping_add(
            w12 >> 4u32,
        );
        sum
    }
}

/// The twelve words the unrolled generator computes are the outputs of
/// twelve consecutive xorshift128 steps.
proof fn lemma_unrolled_steps(
    s0: Xorshift128,
    w1: u32,
    w2: u32,
    w3: u32,
    w4: u32,
    w5: u32,
    w6: u32,
    w7: u32,
    w8: u32,
    w9: u32,
    w10: u32,
    w11: u32,
    w12: u32,
)
    requires
        ({
            let (x, y, z, w) = s0;
            let t1 = x ^ (x << 11u32);
            let t2 = y ^ (y << 11u32);
            let t3 = z ^ (z << 11u32);
            let t4 = w ^ (w << 11u32);
            let t5 = w1 ^ (w1 << 11u32);
            let t6 = w2 ^ (w2 << 11u32);
            let t7 = w3 ^ (w3 << 11u32);
            let t8 = w4 ^ (w4 << 11u32);
            let t9 = w5 ^ (w5 << 11u32);
            let t10 = w6 ^ (w6 << 11u32);
            let t11 = w7 ^ (w7 << 11u32);
            let t12 = w8 ^ (w8 << 11u32);
            &&& w1 == (w ^ (w >> 19u32)) ^ (t1 ^ (t1 >> 8u32))
            &&& w2 == (w1 ^ (w1 >> 19u32)) ^ (t2 ^ (t2 >> 8u32))
            &&& w3 == (w2 ^ (w2 >> 19u32)) ^ (t3 ^ (t3 >> 8u32))
            &&& w4 == (w3 ^ (w3 >> 19u32)) ^ (t4 ^ (t4 >> 8u32))
            &&& w5 == (w4 ^ (w4 >> 19u32)) ^ (t5 ^ (t5 >> 8u32))
            &&& w6 == (w5 ^ (w5 >> 19u32)) ^ (t6 ^ (t6 >> 8u32))
            &&& w7 == (w6 ^ (w6 >> 19u32)) ^ (t7 ^ (t7 >> 8u32))
            &&& w8 == (w7 ^ (w7 >> 19u32)) ^ (t8 ^ (t8 >> 8u32))
            &&& w9 == (w8 ^ (w8 >> 19u32)) ^ (t9 ^ (t9 >> 8u32))
            &&& w10 == (w9 ^ (w9 >> 19u32)) ^ (t10 ^ (t10 >> 8u32))
            &&& w11 == (w10 ^ (w10 >> 19u32)) ^ (t11 ^ (t11 >> 8u32))
            &&& w12 == (w11 ^ (w11 >> 19u32)) ^ (t12 ^ (t12 >> 8u32))
        }),
    ensures
        xorshift128_steps(s0, 12) == (w9, w10, w11, w12),
        randn_sum_of(s0, 12) == (w1 >> 4u32) as int + (w2 >> 4u32) as int + (w3 >> 4u32) as int + (w4
            >> 4u32) as int + (w5 >> 4u32) as int + (w6 >> 4u32) as int + (w7 >> 4u32) as int + (w8
            >> 4u32) as int + (w9 >> 4u32) as int + (w10 >> 4u32) as int + (w11 >> 4u32) as int + (w12
            >> 4u32) as int,
{
    let (x, y, z, w) = s0;
    reveal_with_fuel(xorshift128_steps, 13);
    reveal_with_fuel(randn_sum_of, 13);
    assert(xorshift128_steps(s0, 1) == (y, z, w, w1));
    assert(xorshift128_steps(s0, 2) == (z, w, w1, w2));
    assert(xorshift128_steps(s0, 3) == (w, w1, w2, w3));
    assert(xorshift128_steps(s0, 4) == (w1, w2, w3, w4));
    assert(xorshift128_steps(s0, 5) == (w2, w3, w4, w5));
    assert(xorshift128_steps(s0, 6) == (w3, w4, w5, w6));
    assert(xorshift128_steps(s0, 7) == (w4, w5, w6, w7));
    assert(xorshift128_steps(s0, 8) == (w5, w6, w7, w8));
    assert(xorshift128_steps(s0, 9) == (w6, w7, w8, w9));
    assert(xorshift128_steps(s0, 10) == (w7, w8, w9, w10));
    assert(xorshift128_steps(s0, 11) == (w8, w9, w10, w11));
    assert(xorshift128_steps(s0, 12) == (w9, w10, w11, w12));
}

/// The low `bits` bits of `n` in reverse order, shifted in from the right
/// onto `acc` (bits that leave a machine word are lost).
pub open spec fn bit_reverse_acc(n: usize, bits: nat, acc: usize) -> usize
    decreases bits,
{
    if bits == 0 {
        acc
    } else {
        bit_reverse_acc(n >> 1usize, (bits - 1) as nat, (acc << 1usize) | (n & 1usize))
    }
}

/// `2^b`.
pub open spec fn two_pow(b: nat) -> nat
    decreases b,
{
    if b == 0 {
        1
    } else {
        2 * two_pow((b - 1) as nat)
    }
}

/// The low `b` bits of `n`, reversed, as a number.
pub open spec fn reversed_bits(n: nat, b: nat) -> nat
    decreases b,
{
    if b == 0 {
        0
    } else {
        (n % 2) * two_pow((b - 1) as nat) + reversed_bits(n / 2, (b - 1) as nat)
    }
}

/// Reverses the low `bits` bits of `n`, as the FFT's bit-reversal
/// permutation does.
pub fn bit_reverse(n: usize, bits: usize) -> (r: usize)
    ensures
        r == bit_reverse_acc(n, bits as nat, 0),
        two_pow(bits as nat) <= usize::MAX + 1 ==> r == reversed_bits(n as nat, bits as nat),
{
    proof {
        if two_pow(bits as nat) <= usize::MAX + 1 {
            lemma_bit_reverse_acc(n, bits as nat, 0);
        }
    }
    let mut reversed: usize = 0;
    let mut m = n;
    let mut k: usize = 0;
    while k < bits
        invariant
            k <= bits,
            bit_reverse_acc(m, (bits - k) as nat, reversed) == bit_reverse_acc(n, bits as nat, 0),
        decreases bits - k,
    {
        reversed = (reversed << 1usize) | (m & 1usize);
        m = m >> 1usize;
        k = k + 1;
    }
    reversed
}

proof fn lemma_shift_in_bit(acc: usize, n: usize)
    requires
        2 * acc + 1 <= usize::MAX,
    ensures
        (acc << 1usize) | (n & 1usize) == 2 * acc + n % 2,
        n >> 1usize == n / 2,
{
    assert((acc << 1usize) | (n & 1usize) == (acc << 1usize) + (n & 1usize)) by (bit_vector);
    assert(n & 1usize == n % 2) by (bit_vector);
    vstd::arithmetic::power2::lemma2_to64();
    vstd::bits::lemma_usize_shl_is_mul(acc, 1);
    vstd::bits::lemma_usize_shr_is_div(n, 1);
}

proof fn lemma_two_pow_positive(b: nat)
    ensures
        two_pow(b) >= 1,
    decreases b,
{
    if b > 0 {
        lemma_two_pow_positive((b - 1) as nat);
    }
}

/// Shifting the bits onto `acc` appends the reversed bits below it, as long
/// as nothing leaves the machine word.
proof fn lemma_bit_reverse_acc(n: usize, b: nat, acc: usize)
    requires
        (acc + 1) * two_pow(b) <= usize::MAX + 1,
    ensures
        bit_reverse_acc(n, b, acc) == acc * two_pow(b) + reversed_bits(n as nat, b),
    decreases b,
{
    if b == 0 {
        assert(two_pow(0) == 1);
        assert(acc * 1 == acc);
    } else {
        let p = two_pow((b - 1) as nat);
        lemma_two_pow_positive((b - 1) as nat);
        assert(two_pow(b) == 2 * p);
        assert((acc + 1) * two_pow(b) == (2 * acc + 2) * p) by (nonlinear_arith)
            requires
                two_pow(b) == 2 * p,
        ;
        assert(2 * acc + 1 <= usize::MAX) by (nonlinear_arith)
            requires
                (2 * acc + 2) * p <= usize::MAX + 1,
                p >= 1,
        ;
        lemma_shift_in_bit(acc, n);
        let acc2 = (acc << 1usize) | (n & 1usize);
        let n2 = n >> 1usize;
        assert(acc2 == 2 * acc + n % 2);
        assert(n2 == n / 2);
        assert((acc2 + 1) * p <= usize::MAX + 1) by (nonlinear_arith)
            requires
                acc2 + 1 <= 2 * acc + 2,
                (2 * acc + 2) * p <= usize::MAX + 1,
                p >= 1,
        ;
        lemma_bit_reverse_acc(n2, (b - 1) as nat, acc2);
        assert(bit_reverse_acc(n, b, acc) == bit_reverse_acc(n2, (b - 1) as nat, acc2));
        assert(reversed_bits(n as nat, b) == (n % 2) * p + reversed_bits(n2 as nat, (b - 1) as nat));
        assert(acc2 * p + reversed_bits(n2 as nat, (b - 1) as nat) == acc * two_pow(b)
            + reversed_bits(n as nat, b)) by (nonlinear_arith)
            requires
                two_pow(b) == 2 * p,
                acc2 == 2 * acc + n % 2,
                reversed_bits(n as nat, b) == (n % 2) * p + reversed_bits(n2 as nat, (b - 1) as nat),
        ;
    }
}

proof fn lemma_reversed_bits_bound(n: nat, b: nat)
    ensures
        reversed_bits(n, b) < two_pow(b),
    decreases b,
{
    if b > 0 {
        lemma_reversed_bits_bound(n / 2, (b - 1) as nat);
        assert((n % 2) * two_pow((b - 1) as nat) <= two_pow((b - 1) as nat)) by (nonlinear_arith)
            requires
                n % 2 <= 1,
        ;
    }
}

/// Reversing a number whose top bit is `x` puts `x` at the bottom.
proof fn lemma_reversed_top_bit(x: nat, y: nat, b: nat)
    requires
        b >= 1,
        x <= 1,
        y < two_pow((b - 1) as nat),
    ensures
        reversed_bits(x * two_pow((b - 1) as nat) + y, b) == 2 * reversed_bits(y, (b - 1) as nat)
            + x,
    decreases b,
{
    let m = x * two_pow((b - 1) as nat) + y;
    if b == 1 {
        assert(two_pow(0) == 1);
        assert(y == 0);
        assert(x * 1 == x);
        assert(m == x);
        assert(reversed_bits(m, 1) == (m % 2) * two_pow(0) + reversed_bits(m / 2, 0));
    } else {
        let q = two_pow((b - 2) as nat);
        assert(two_pow((b - 1) as nat) == 2 * q);
        let k = x * q;
        assert(m == 2 * k + y) by (nonlinear_arith)
            requires
                m == x * (2 * q) + y,
                k == x * q,
        ;
        assert(m % 2 == y % 2 && m / 2 == k + y / 2) by (nonlinear_arith)
            requires
                m == 2 * k + y,
                k >= 0,
                y >= 0,
        ;
        assert(y / 2 < q) by (nonlinear_arith)
            requires
                y < 2 * q,
        ;
        lemma_reversed_top_bit(x, y / 2, (b - 1) as nat);
        assert(reversed_bits(y, (b - 1) as nat) == (y % 2) * q + reversed_bits(y / 2, (b - 2) as nat));
        assert(reversed_bits(m, b) == (m % 2) * two_pow((b - 1) as nat) + reversed_bits(m / 2, (b - 1) as nat));
        assert((y % 2) * (2 * q) == 2 * ((y % 2) * q)) by (nonlinear_arith);
    }
}

proof fn lemma_reversed_bits_involution(n: nat, b: nat)
    requires
        n < two_pow(b),
    ensures
        reversed_bits(reversed_bits(n, b), b) == n,
    decreases b,
{
    if b > 0 {
        let p = two_pow((b - 1) as nat);
        assert(n / 2 < p) by (nonlinear_arith)
            requires
                n < 2 * p,
        ;
        lemma_reversed_bits_bound(n / 2, (b - 1) as nat);
        lemma_reversed_top_bit(n % 2, reversed_bits(n / 2, (b - 1) as nat), b);
        lemma_reversed_bits_involution(n / 2, (b - 1) as nat);
    }
}

/// Reversing the low `bits` bits twice gives back every number below
/// `2^bits`: the FFT's bit-reversal permutation is its own inverse.
pub proof fn law_bit_reverse_involution(n: usize, bits: usize)
    requires
        two_pow(bits as nat) <= usize::MAX + 1,
        n < two_pow(bits as nat),
    ensures
        bit_reverse_acc(bit_reverse_acc(n, bits as nat, 0), bits as nat, 0) == n,
{
    let b = bits as nat;
    lemma_bit_reverse_acc(n, b, 0);
    let r = bit_reverse_acc(n, b, 0);
    lemma_bit_reverse_acc(r, b, 0);
    lemma_reversed_bits_involution(n as nat, b);
}

/// Number of aperiodicity bands for sample rate `fs`: one per 3 kHz band
/// between 3 kHz and the smaller of 15 kHz and 3 kHz below Nyquist, and at
/// least one.
pub open spec fn number_of_aperiodicities(fs: int) -> int {
    let bands = (fs - 6000) / 6000;
    if bands > 5 {
        5
    } else if bands < 1 {
        1
    } else {
        bands
    }
}

/// Number of coded aperiodicity bands for sample rate `fs`.
pub fn get_number_of_aperiodicities(fs: i32) -> (r: i32)
    ensures
        r == number_of_aperiodicities(fs as int),
{
    if fs >= 36000 {
        5
    } else if fs < 12000 {
        1
    } else {
        ((fs - 6000) / 6000) as i32
    }
}

/// The WORLD synthesis stage. It carries no state of its own.
pub struct AcousticSynthesizer;

impl AcousticSynthesizer {
    /// A synthesizer.
    pub fn new() -> (r: Self) {
        AcousticSynthesizer
    }
}

} // verus!
