//! The TEA rounds as mathematical functions on pairs of 32-bit words, and the
//! facts that make decryption the inverse of encryption.
use vstd::arithmetic::div_mod::lemma_add_mod_noop;
use vstd::prelude::*;

verus! {

/// The constant added to the round accumulator once per round.
pub const DELTA: u32 = 0x9E3779B9;

/// The value mixed into one half of the state from the other half `v`, using
/// key words `ka`, `kb` and the accumulator `sum`; every `+` wraps.
pub open spec fn mix(v: u32, ka: u32, kb: u32, sum: u32) -> u32 {
    ((v << 4u32) + ka) as u32 ^ (v + sum) as u32 ^ ((v >> 5u32) + kb) as u32
}

/// The accumulator after `n` encryption rounds: `n * DELTA` modulo 2^32.
pub open spec fn sum_at(n: nat) -> u32
    decreases n,
{
    if n == 0 {
        0
    } else {
        (sum_at((n - 1) as nat) + DELTA) as u32
    }
}

/// One encryption round with accumulator `sum`, applied to `(x, y)`.
pub open spec fn round(k: Seq<u32>, sum: u32, x: u32, y: u32) -> (u32, u32) {
    let x2 = (x + mix(y, k[0], k[1], sum)) as u32;
    let y2 = (y + mix(x2, k[2], k[3], sum)) as u32;
    (x2, y2)
}

/// One decryption round with accumulator `sum`, applied to `(x, y)`.
pub open spec fn unround(k: Seq<u32>, sum: u32, x: u32, y: u32) -> (u32, u32) {
    let y2 = (y - mix(x, k[2], k[3], sum)) as u32;
    let x2 = (x - mix(y2, k[0], k[1], sum)) as u32;
    (x2, y2)
}

/// The state after `n` encryption rounds under key words `k`, starting from
/// `(x, y)` with the accumulator at zero.
pub open spec fn encrypt_rounds(k: Seq<u32>, n: nat, x: u32, y: u32) -> (u32, u32)
    decreases n,
{
    if n == 0 {
        (x, y)
    } else {
        let p = encrypt_rounds(k, (n - 1) as nat, x, y);
        round(k, sum_at(n), p.0, p.1)
    }
}

/// The state after `n` decryption rounds under key words `k`, starting from
/// `(x, y)` with the accumulator at `sum`, which drops by `DELTA` each round.
pub open spec fn decrypt_rounds(k: Seq<u32>, n: nat, sum: u32, x: u32, y: u32) -> (u32, u32)
    decreases n,
{
    if n == 0 {
        (x, y)
    } else {
        let p = unround(k, sum, x, y);
        decrypt_rounds(k, (n - 1) as nat, (sum - DELTA) as u32, p.0, p.1)
    }
}

proof fn lemma_add_sub(a: u32, b: u32)
    ensures
        ((a + b) as u32 - b) as u32 == a,
        ((a - b) as u32 + b) as u32 == a,
{
    assert(((a + b) as u32 - b) as u32 == a && ((a - b) as u32 + b) as u32 == a) by (bit_vector);
}

/// Taking the accumulator one round back undoes the step that reached it.
pub proof fn lemma_sum_step_back(n: nat)
    ensures
        (sum_at(n + 1) - DELTA) as u32 == sum_at(n),
{
    lemma_add_sub(sum_at(n), DELTA);
}

/// A decryption round undoes the encryption round with the same accumulator,
/// and the other way round.
pub proof fn lemma_round_inverse(k: Seq<u32>, sum: u32, x: u32, y: u32)
    ensures
        ({
            let p = round(k, sum, x, y);
            unround(k, sum, p.0, p.1) == (x, y)
        }),
        ({
            let p = unround(k, sum, x, y);
            round(k, sum, p.0, p.1) == (x, y)
        }),
{
    let x2 = (x + mix(y, k[0], k[1], sum)) as u32;
    lemma_add_sub(y, mix(x2, k[2], k[3], sum));
    lemma_add_sub(x, mix(y, k[0], k[1], sum));
    let y3 = (y - mix(x, k[2], k[3], sum)) as u32;
    lemma_add_sub(x, mix(y3, k[0], k[1], sum));
    lemma_add_sub(y, mix(x, k[2], k[3], sum));
}

/// Decrypting `n` rounds from the accumulator that `n` encryption rounds
/// reach undoes those rounds.
pub proof fn lemma_decrypt_encrypt(k: Seq<u32>, n: nat, x: u32, y: u32)
    ensures
        ({
            let c = encrypt_rounds(k, n, x, y);
            decrypt_rounds(k, n, sum_at(n), c.0, c.1) == (x, y)
        }),
    decreases n,
{
    if n > 0 {
        let m = (n - 1) as nat;
        let p = encrypt_rounds(k, m, x, y);
        lemma_round_inverse(k, sum_at(n), p.0, p.1);
        lemma_sum_step_back(m);
        lemma_decrypt_encrypt(k, m, x, y);
    }
}

/// Encrypting `n` rounds undoes `n` decryption rounds started from the
/// accumulator that `n` encryption rounds reach.
pub proof fn lemma_encrypt_decrypt(k: Seq<u32>, n: nat, x: u32, y: u32)
    ensures
        ({
            let p = decrypt_rounds(k, n, sum_at(n), x, y);
            encrypt_rounds(k, n, p.0, p.1) == (x, y)
        }),
    decreases n,
{
    if n > 0 {
        let m = (n - 1) as nat;
        let q = unround(k, sum_at(n), x, y);
        lemma_sum_step_back(m);
        lemma_encrypt_decrypt(k, m, q.0, q.1);
        lemma_round_inverse(k, sum_at(n), x, y);
    }
}

/// The accumulator after `n` rounds is `n * DELTA` reduced modulo 2^32.
pub proof fn lemma_sum_closed(n: nat)
    ensures
        sum_at(n) as int == (n * DELTA) % 0x1_0000_0000,
    decreases n,
{
    if n > 0 {
        let m = (n - 1) as nat;
        lemma_sum_closed(m);
        assert(n * DELTA == m * DELTA + DELTA) by (nonlinear_arith)
            requires
                n == m + 1,
        ;
        lemma_add_mod_noop(m * DELTA, DELTA as int, 0x1_0000_0000);
        let prev = sum_at(m);
        assert((prev + DELTA) as u32 as int == (prev + DELTA) % 0x1_0000_0000) by (bit_vector);
        assert(DELTA as int % 0x1_0000_0000 == DELTA as int);
    }
}

/// The decryption seeds `DELTA << 4`, `DELTA << 5` and `DELTA << 6` are the
/// accumulators after 16, 32 and 64 encryption rounds.
pub proof fn lemma_seeds()
    ensures
        sum_at(16) == DELTA << 4u32,
        sum_at(32) == DELTA << 5u32,
        sum_at(64) == DELTA << 6u32,
{
    lemma_sum_closed(16);
    lemma_sum_closed(32);
    lemma_sum_closed(64);
    assert(DELTA << 4u32 == 0xE3779B90u32) by (bit_vector);
    assert(DELTA << 5u32 == 0xC6EF3720u32) by (bit_vector);
    assert(DELTA << 6u32 == 0x8DDE6E40u32) by (bit_vector);
}

} // verus!
