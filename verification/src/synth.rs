//! Deterministic pseudo-random source for synthetic escapement signals.
//!
//! The generator is SplitMix64: the state advances by a fixed odd increment
//! and each output is a bijective mix of the new state, so a seed fully
//! determines the noise stream and different seeds start different streams.

use vstd::prelude::*;
use vstd::arithmetic::div_mod::{
    lemma_add_mod_noop, lemma_mod_equivalence, lemma_mul_mod_noop_left, lemma_mul_mod_noop_right,
};

verus! {

/// Increment added to the state on every step (the 64-bit golden ratio).
pub const SPLITMIX_GAMMA: u64 = 0x9E37_79B9_7F4A_7C15;

/// First multiplier of the output mix.
pub const SPLITMIX_MUL1: u64 = 0xBF58_476D_1CE4_E5B9;

/// Second multiplier of the output mix.
pub const SPLITMIX_MUL2: u64 = 0x94D0_49BB_1331_11EB;

/// The output mix applied to a state: two xor-shift / multiply rounds and a
/// final xor-shift.
pub open spec fn splitmix_mix(z: u64) -> u64 {
    let a = (z ^ (z >> 30u64)).wrapping_mul(SPLITMIX_MUL1);
    let b = (a ^ (a >> 27u64)).wrapping_mul(SPLITMIX_MUL2);
    b ^ (b >> 31u64)
}

/// The state after one step from `state`.
pub open spec fn splitmix_step(state: u64) -> u64 {
    state.wrapping_add(SPLITMIX_GAMMA)
}

/// Deterministic SplitMix64 PRNG, used to make synthetic test noise
/// reproducible.
pub struct SplitMix64 {
    state: u64,
}

impl View for SplitMix64 {
    type V = u64;

    /// The generator is exactly its 64-bit state.
    closed spec fn view(&self) -> u64 {
        self.state
    }
}

impl SplitMix64 {
    /// A generator whose state is `seed`.
    pub fn new(seed: u64) -> (r: Self)
        ensures
            r@ == seed,
    {
        SplitMix64 { state: seed }
    }

    /// Advance the state and return the mix of the new state.
    pub fn next_u64(&mut self) -> (r: u64)
        ensures
            final(self)@ == splitmix_step(old(self)@),
            r == splitmix_mix(final(self)@),
    {
        self.state = self.state.wrapping_add(SPLITMIX_GAMMA);
        let mut z = self.state;
        z = (z ^ (z >> 30)).wrapping_mul(SPLITMIX_MUL1);
        z = (z ^ (z >> 27)).wrapping_mul(SPLITMIX_MUL2);
        z ^ (z >> 31)
    }
}

/// `x ^ (x >> 30)` loses no information.
proof fn lemma_xorshift30_injective(x: u64, y: u64)
    requires
        x ^ (x >> 30u64) == y ^ (y >> 30u64),
    ensures
        x == y,
{
    assert(x ^ (x >> 30u64) == y ^ (y >> 30u64) ==> x == y) by (bit_vector);
}

/// `x ^ (x >> 27)` loses no information.
proof fn lemma_xorshift27_injective(x: u64, y: u64)
    requires
        x ^ (x >> 27u64) == y ^ (y >> 27u64),
    ensures
        x == y,
{
    assert(x ^ (x >> 27u64) == y ^ (y >> 27u64) ==> x == y) by (bit_vector);
}

/// `x ^ (x >> 31)` loses no information.
proof fn lemma_xorshift31_injective(x: u64, y: u64)
    requires
        x ^ (x >> 31u64) == y ^ (y >> 31u64),
    ensures
        x == y,
{
    assert(x ^ (x >> 31u64) == y ^ (y >> 31u64) ==> x == y) by (bit_vector);
}

/// Multiplying by `c` modulo 2^64 is undone by multiplying by `inv`, when
/// `c * inv` is 1 modulo 2^64.
proof fn lemma_wrapping_mul_cancels(x: u64, c: u64, inv: u64)
    requires
        (c as int * inv as int) % 0x1_0000_0000_0000_0000int == 1,
    ensures
        x.wrapping_mul(c).wrapping_mul(inv) == x,
{
    let m: int = 0x1_0000_0000_0000_0000int;
    let xc: int = (x as int * c as int) % m;
    assert(x.wrapping_mul(c) as int == xc);
    lemma_mul_mod_noop_left(x as int * c as int, inv as int, m);
    assert((xc * inv as int) % m == (x as int * c as int * inv as int) % m);
    assert(x as int * c as int * inv as int == x as int * (c as int * inv as int)) by (nonlinear_arith);
    lemma_mul_mod_noop_right(x as int, c as int * inv as int, m);
    assert((x as int * (c as int * inv as int)) % m == (x as int * 1) % m);
    assert(x.wrapping_mul(c).wrapping_mul(inv) as int == (xc * inv as int) % m);
}

/// The output mix is a bijection on 64-bit values: distinct states never mix
/// to the same output.
pub proof fn lemma_mix_injective(x: u64, y: u64)
    requires
        splitmix_mix(x) == splitmix_mix(y),
    ensures
        x == y,
{
    let ax = (x ^ (x >> 30u64)).wrapping_mul(SPLITMIX_MUL1);
    let ay = (y ^ (y >> 30u64)).wrapping_mul(SPLITMIX_MUL1);
    let bx = (ax ^ (ax >> 27u64)).wrapping_mul(SPLITMIX_MUL2);
    let b_y = (ay ^ (ay >> 27u64)).wrapping_mul(SPLITMIX_MUL2);
    lemma_xorshift31_injective(bx, b_y);
    assert((0x94D0_49BB_1331_11EBint * 0x3196_42B2_D24D_8EC3int) % 0x1_0000_0000_0000_0000int == 1)
        by (nonlinear_arith);
    assert((0xBF58_476D_1CE4_E5B9int * 0x96DE_1B17_3F11_9089int) % 0x1_0000_0000_0000_0000int == 1)
        by (nonlinear_arith);
    lemma_wrapping_mul_cancels(ax ^ (ax >> 27u64), SPLITMIX_MUL2, 0x3196_42B2_D24D_8EC3u64);
    lemma_wrapping_mul_cancels(ay ^ (ay >> 27u64), SPLITMIX_MUL2, 0x3196_42B2_D24D_8EC3u64);
    lemma_xorshift27_injective(ax, ay);
    lemma_wrapping_mul_cancels(x ^ (x >> 30u64), SPLITMIX_MUL1, 0x96DE_1B17_3F11_9089u64);
    lemma_wrapping_mul_cancels(y ^ (y >> 30u64), SPLITMIX_MUL1, 0x96DE_1B17_3F11_9089u64);
    lemma_xorshift30_injective(x, y);
}

/// Different seeds start different noise streams: the first outputs of two
/// generators seeded differently are never equal.
pub proof fn lemma_distinct_seeds_distinct_first_output(seed1: u64, seed2: u64)
    requires
        seed1 != seed2,
    ensures
        splitmix_mix(splitmix_step(seed1)) != splitmix_mix(splitmix_step(seed2)),
{
    if splitmix_mix(splitmix_step(seed1)) == splitmix_mix(splitmix_step(seed2)) {
        lemma_mix_injective(splitmix_step(seed1), splitmix_step(seed2));
        assert(seed1 == seed2);
    }
}

/// The state of a generator seeded with `seed` after `k` calls of
/// `next_u64`.
pub open spec fn splitmix_state_at(seed: u64, k: nat) -> u64
    decreases k,
{
    if k == 0 {
        seed
    } else {
        splitmix_step(splitmix_state_at(seed, (k - 1) as nat))
    }
}

/// The value returned by the `k`-th call (counting from 0) of `next_u64` on a
/// generator seeded with `seed`.
pub open spec fn splitmix_output(seed: u64, k: nat) -> u64 {
    splitmix_mix(splitmix_state_at(seed, k + 1))
}

/// After `k` steps the state is `seed + k * SPLITMIX_GAMMA` modulo 2^64.
proof fn lemma_state_closed_form(seed: u64, k: nat)
    ensures
        splitmix_state_at(seed, k) as int == (seed as int + k * SPLITMIX_GAMMA as int)
            % 0x1_0000_0000_0000_0000int,
    decreases k,
{
    let m: int = 0x1_0000_0000_0000_0000int;
    if k == 0 {
        assert((seed as int + 0 * SPLITMIX_GAMMA as int) % m == seed as int);
    } else {
        let prev = splitmix_state_at(seed, (k - 1) as nat);
        lemma_state_closed_form(seed, (k - 1) as nat);
        let a: int = seed as int + (k - 1) * SPLITMIX_GAMMA as int;
        assert(splitmix_state_at(seed, k) == prev.wrapping_add(SPLITMIX_GAMMA));
        assert(prev.wrapping_add(SPLITMIX_GAMMA) as int == (prev as int + SPLITMIX_GAMMA as int)
            % m);
        lemma_add_mod_noop(a, SPLITMIX_GAMMA as int, m);
        assert((SPLITMIX_GAMMA as int) % m == SPLITMIX_GAMMA as int);
        assert(a + SPLITMIX_GAMMA as int == seed as int + k * SPLITMIX_GAMMA as int)
            by (nonlinear_arith)
            requires
                a == seed as int + (k - 1) * SPLITMIX_GAMMA as int,
        ;
    }
}

/// The generator has full period: because the increment is odd, a state
/// never recurs within 2^64 steps, so the states after `i` and after `j`
/// steps differ whenever `0 < j - i < 2^64`.
pub proof fn lemma_states_distinct(seed: u64, i: nat, j: nat)
    requires
        i < j,
        j - i < 0x1_0000_0000_0000_0000int,
    ensures
        splitmix_state_at(seed, i) != splitmix_state_at(seed, j),
{
    let m: int = 0x1_0000_0000_0000_0000int;
    let g: int = SPLITMIX_GAMMA as int;
    let g_inv: int = 0xF1DE_83E1_9937_733Dint;
    lemma_state_closed_form(seed, i);
    lemma_state_closed_form(seed, j);
    if splitmix_state_at(seed, i) == splitmix_state_at(seed, j) {
        let a: int = seed as int + i * g;
        let b: int = seed as int + j * g;
        let d: int = j - i;
        lemma_mod_equivalence(b, a, m);
        assert(b - a == d * g) by (nonlinear_arith)
            requires
                a == seed as int + i * g,
                b == seed as int + j * g,
                d == j - i,
        ;
        assert((d * g) % m == 0);
        assert((g * g_inv) % m == 1) by (nonlinear_arith)
            requires
                g == 0x9E37_79B9_7F4A_7C15int,
                g_inv == 0xF1DE_83E1_9937_733Dint,
                m == 0x1_0000_0000_0000_0000int,
        ;
        lemma_mul_mod_noop_left(d * g, g_inv, m);
        assert(((d * g) % m * g_inv) % m == 0);
        assert(d * g * g_inv == d * (g * g_inv)) by (nonlinear_arith);
        lemma_mul_mod_noop_right(d, g * g_inv, m);
        assert((d * (g * g_inv)) % m == (d * 1) % m);
        assert(d % m == d);
        assert(false);
    }
}

/// Within one full period the noise stream never repeats a value: the
/// `i`-th and `j`-th outputs of a generator differ whenever
/// `0 <= i < j < 2^64`, since the states differ and the mix is a bijection.
pub proof fn lemma_outputs_distinct(seed: u64, i: nat, j: nat)
    requires
        i < j < 0x1_0000_0000_0000_0000int,
    ensures
        splitmix_output(seed, i) != splitmix_output(seed, j),
{
    lemma_states_distinct(seed, i + 1, j + 1);
    if splitmix_output(seed, i) == splitmix_output(seed, j) {
        lemma_mix_injective(splitmix_state_at(seed, i + 1), splitmix_state_at(seed, j + 1));
    }
}

} // verus!
