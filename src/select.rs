//! Deterministic choice of a clip index for a key, by modular exponentiation.

use vstd::prelude::*;
use vstd::arithmetic::div_mod::{lemma_fundamental_div_mod, lemma_fundamental_div_mod_converse};
use crate::error::SoundError;

verus! {

/// The value after `n` rounds of `result = (result * (base mod m)) mod m`,
/// starting from 1.
pub open spec fn pow_mod_rounds(base: int, n: nat, m: int) -> int
    decreases n,
{
    if n == 0 {
        1
    } else {
        (pow_mod_rounds(base, (n - 1) as nat, m) * (base % m)) % m
    }
}

/// Iterative modular exponentiation; a modulus of one gives 0 and a
/// non-positive exponent runs no round.
pub open spec fn modular_pow_spec(base: int, exponent: int, modulus: int) -> int {
    if modulus == 1 {
        0
    } else if exponent <= 0 {
        1
    } else {
        pow_mod_rounds(base, exponent as nat, modulus)
    }
}

/// The clip index for `key`: the key code, raised to at least 1, is the
/// exponent, the configured key count the base and the bank length the modulus.
pub open spec fn select_index_spec(key: int, total_keys: int, bank_len: int) -> int {
    let exponent = if key < 1 { 1 } else { key };
    modular_pow_spec(total_keys, exponent, bank_len) % bank_len
}

proof fn lemma_rounds_in_range(base: int, n: nat, m: int)
    requires
        m >= 2,
    ensures
        0 <= pow_mod_rounds(base, n, m) < m,
    decreases n,
{
    if n > 0 {
        lemma_rounds_in_range(base, (n - 1) as nat, m);
    }
}

/// A modular power with a modulus above zero lies in `[0, modulus)`.
pub proof fn lemma_modular_pow_in_range(base: int, exponent: int, modulus: int)
    requires
        modulus > 0,
    ensures
        0 <= modular_pow_spec(base, exponent, modulus) < modulus,
{
    if modulus != 1 && exponent > 0 {
        lemma_rounds_in_range(base, exponent as nat, modulus);
    }
}

/// For every key and key count, a bank of at least one clip gets an index
/// inside the bank.
pub proof fn lemma_select_in_range(key: int, total_keys: int, bank_len: int)
    requires
        bank_len > 0,
    ensures
        0 <= select_index_spec(key, total_keys, bank_len) < bank_len,
{
}

/// With a single clip every key selects index 0.
pub proof fn lemma_single_clip_selects_zero(key: int, total_keys: int)
    ensures
        select_index_spec(key, total_keys, 1) == 0,
{
}

/// Two selections with the same key, key count and bank length agree.
pub proof fn lemma_select_deterministic(
    key: int,
    total_keys: int,
    bank_len: int,
    first: int,
    second: int,
)
    requires
        first == select_index_spec(key, total_keys, bank_len),
        second == select_index_spec(key, total_keys, bank_len),
    ensures
        first == second,
{
}

/// `base mod modulus` in the Euclidean sense, for any sign of `base`.
fn reduce(base: i64, modulus: u64) -> (r: u64)
    requires
        modulus > 0,
    ensures
        r as int == base as int % modulus as int,
{
    if base >= 0 {
        (base as u64) % modulus
    } else {
        let n: u128 = (-(base as i128)) as u128;
        let m: u128 = modulus as u128;
        let rem: u128 = n % m;
        if rem == 0 {
            proof {
                let q = n as int / m as int;
                lemma_fundamental_div_mod(n as int, m as int);
                assert(n as int == q * m as int) by (nonlinear_arith)
                    requires
                        n as int == m as int * q + 0,
                ;
                assert(base as int == (-q) * m as int + 0) by (nonlinear_arith)
                    requires
                        n as int == q * m as int,
                        base as int == -(n as int),
                ;
                lemma_fundamental_div_mod_converse(base as int, m as int, -q, 0);
            }
            0
        } else {
            let r: u128 = m - rem;
            proof {
                let q = n as int / m as int;
                lemma_fundamental_div_mod(n as int, m as int);
                assert(n as int == q * m as int + rem as int) by (nonlinear_arith)
                    requires
                        n as int == m as int * q + rem as int,
                ;
                assert(base as int == (-q - 1) * m as int + r as int) by (nonlinear_arith)
                    requires
                        n as int == q * m as int + rem as int,
                        base as int == -(n as int),
                        r as int == m as int - rem as int,
                ;
                lemma_fundamental_div_mod_converse(base as int, m as int, -q - 1, r as int);
            }
            r as u64
        }
    }
}

/// Modular exponentiation over wide integers: `exponent` rounds of
/// multiply-and-reduce, 0 for a modulus of one.
fn modular_pow_wide(base: i64, exponent: i64, modulus: u64) -> (r: u64)
    requires
        modulus > 0,
    ensures
        r as int == modular_pow_spec(base as int, exponent as int, modulus as int),
        r < modulus,
{
    proof {
        lemma_modular_pow_in_range(base as int, exponent as int, modulus as int);
    }
    if modulus == 1 {
        return 0;
    }
    let base_mod: u128 = reduce(base, modulus) as u128;
    let m: u128 = modulus as u128;
    let mut result: u128 = 1;
    let mut i: i64 = 0;
    while i < exponent
        invariant
            m == modulus as u128,
            m >= 2,
            base_mod as int == base as int % modulus as int,
            0 <= i,
            exponent > 0 ==> i <= exponent,
            exponent <= 0 ==> i == 0,
            result < m,
            result as int == pow_mod_rounds(base as int, i as nat, modulus as int),
        decreases exponent - i,
    {
        assert(result * base_mod < m * m) by (nonlinear_arith)
            requires
                result < m,
                base_mod < m,
        ;
        assert(m * m <= 0xffff_ffff_ffff_ffffu128 * 0xffff_ffff_ffff_ffffu128) by (nonlinear_arith)
            requires
                m <= 0xffff_ffff_ffff_ffffu128,
        ;
        result = (result * base_mod) % m;
        i = i + 1;
    }
    result as u64
}

/// `base` to the power `exponent`, modulo `modulus`, by repeated
/// multiply-and-reduce; 0 when `modulus` is one.
pub fn modular_pow(base: i32, exponent: i32, modulus: i32) -> (r: i32)
    requires
        modulus > 0,
    ensures
        r as int == modular_pow_spec(base as int, exponent as int, modulus as int),
        0 <= r < modulus,
{
    modular_pow_wide(base as i64, exponent as i64, modulus as u64) as i32
}

/// The clip index for a key code in a bank of `bank_len` clips, or
/// `EmptyBank` when the bank holds no clip.
pub fn select_index(key: i32, total_keys: i32, bank_len: usize) -> (r: Result<usize, SoundError>)
    ensures
        bank_len == 0 <==> r == Err::<usize, SoundError>(SoundError::EmptyBank),
        bank_len > 0 ==> (r matches Ok(i) && i as int == select_index_spec(
            key as int,
            total_keys as int,
            bank_len as int,
        )),
        r matches Ok(i) ==> i < bank_len,
{
    if bank_len == 0 {
        return Err(SoundError::EmptyBank);
    }
    let exponent: i32 = if key < 1 { 1 } else { key };
    let index = modular_pow_wide(total_keys as i64, exponent as i64, bank_len as u64);
    Ok((index as usize) % bank_len)
}

} // verus!
