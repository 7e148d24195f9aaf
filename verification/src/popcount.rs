//! Population count: how many bits of a 64-bit mask are set.
//!
//! `count_bits` is the mathematical definition; the executable counters all
//! return exactly that value, so they agree with each other on every input.
use vstd::prelude::*;
use vstd::arithmetic::power2::{pow2, lemma2_to64, lemma_pow2_adds, lemma_pow2_pos};
use vstd::arithmetic::div_mod::{lemma_div_denominator, lemma_basic_div, lemma_multiply_divide_lt};

verus! {

/// Number of 1-bits in the binary representation of `n`.
pub open spec fn count_bits(n: nat) -> nat
    decreases n,
{
    if n == 0 {
        0
    } else {
        n % 2 + count_bits(n / 2)
    }
}

/// A number below `pow2(k)` has at most `k` set bits.
pub proof fn lemma_count_bits_bound(x: nat, k: nat)
    requires
        x < pow2(k),
    ensures
        count_bits(x) <= k,
    decreases k,
{
    if k == 0 {
        assert(pow2(0) == 1) by {
            lemma2_to64();
        }
    } else {
        assert(pow2(k) == 2 * pow2((k - 1) as nat)) by {
            lemma_pow2_adds((k - 1) as nat, 1);
            lemma2_to64();
        }
        lemma_count_bits_bound(x / 2, (k - 1) as nat);
    }
}

/// Splitting off the low `k` bits splits the count.
pub proof fn lemma_count_bits_split(x: u64, k: u64)
    requires
        k <= 63,
    ensures
        count_bits(x as nat) == count_bits((x & (((1u64 << k) - 1) as u64)) as nat) + count_bits(
            (x >> k) as nat,
        ),
    decreases k,
{
    if k == 0 {
        assert(x & ((((1u64 << 0u64) - 1)) as u64) == 0 && x >> 0u64 == x) by (bit_vector);
    } else {
        let x1 = x >> 1u64;
        lemma_count_bits_split(x1, (k - 1) as u64);
        let low = x & (((1u64 << k) - 1) as u64);
        let low1 = x1 & (((1u64 << ((k - 1) as u64)) - 1) as u64);
        assert(x1 == x / 2 && x % 2 == (x & 1) && low % 2 == (x & 1) && low / 2 == low1 && (x
            >> k) == (x1 >> ((k - 1) as u64))) by (bit_vector)
            requires
                1 <= k <= 63 && x1 == x >> 1u64 && low == x & (((1u64 << k) - 1) as u64) && low1 == x1 & (((
                1u64 << ((k - 1) as u64)) - 1) as u64),
        ;
        assert(count_bits(x as nat) == (x as nat) % 2 + count_bits((x as nat) / 2));
        assert(count_bits(low as nat) == (low as nat) % 2 + count_bits((low as nat) / 2));
    }
}

/// Clearing the lowest set bit lowers the count by one.
pub proof fn lemma_count_bits_clear_lowest(m: u64)
    requires
        m > 0,
    ensures
        count_bits((m & (m - 1) as u64) as nat) + 1 == count_bits(m as nat),
    decreases m,
{
    let c = m & (m - 1) as u64;
    if m % 2 == 1 {
        assert(c == (m - 1) as u64 && (m - 1) as u64 % 2 == 0 && ((m - 1) as u64) / 2 == m / 2)
            by (bit_vector)
            requires
                m % 2 == 1 && c == m & ((m - 1) as u64),
        ;
        assert(count_bits(c as nat) == count_bits((m as nat) / 2));
    } else {
        let h = m >> 1u64;
        assert(h == m / 2 && h > 0 && c % 2 == 0 && c / 2 == (h & ((h - 1) as u64)) && h < m)
            by (bit_vector)
            requires
                m % 2 == 0 && m > 0 && c == m & ((m - 1) as u64) && h == m >> 1u64,
        ;
        lemma_count_bits_clear_lowest(h);
        assert(count_bits(c as nat) == count_bits((c as nat) / 2));
        assert(count_bits(m as nat) == count_bits((m as nat) / 2));
    }
}

/// Bit-by-bit population count: tests each of the 64 bit positions in turn.
pub fn popcnt0(number: u64) -> (r: u8)
    ensures
        r as nat == count_bits(number as nat),
{
    let mut sum: u8 = 0;
    proof {
        lemma2_to64();
    }
    for i in 0..64u64
        invariant
            sum as nat + count_bits((number as nat) / pow2(i as nat)) == count_bits(number as nat),
            sum <= i,
    {
        proof {
            lemma_step_bit(number, i);
        }
        if number & (1u64 << i) > 0 {
            sum += 1;
        }
    }
    proof {
        lemma2_to64();
        lemma_basic_div(number as int, pow2(64) as int);
    }
    sum
}

/// One step of the bit-by-bit count: bit `i` of `x` is the parity of
/// `x / pow2(i)`, and dropping it leaves `x / pow2(i + 1)`.
proof fn lemma_step_bit(x: u64, i: u64)
    requires
        i < 64,
    ensures
        (x & (1u64 << i) > 0) <==> ((x as nat) / pow2(i as nat)) % 2 == 1,
        ((x as nat) / pow2(i as nat)) / 2 == (x as nat) / pow2((i + 1) as nat),
        count_bits((x as nat) / pow2(i as nat)) == ((x as nat) / pow2(i as nat)) % 2 + count_bits(
            ((x as nat) / pow2(i as nat)) / 2,
        ),
{
    vstd::bits::lemma_u64_shr_is_div(x, i);
    assert((x & (1u64 << i) > 0) <==> (x >> i) % 2 == 1) by (bit_vector)
        requires
            i < 64,
    ;
    lemma_pow2_pos(i as nat);
    lemma2_to64();
    lemma_div_denominator(x as int, pow2(i as nat) as int, 2);
    lemma_pow2_adds(i as nat, 1);
    let q = (x as nat) / pow2(i as nat);
    if q == 0 {
        assert(count_bits(q) == q % 2 + count_bits(q / 2));
    }
}

/// Shift-and-test population count: consumes the number one bit at a time.
pub fn popcnt1(number: u64) -> (r: u8)
    ensures
        r as nat == count_bits(number as nat),
{
    let mut cnt: u8 = 0;
    let mut mask = number;
    while mask > 0
        invariant
            cnt as nat + count_bits(mask as nat) == count_bits(number as nat),
        decreases mask,
    {
        proof {
            lemma2_to64();
            lemma_count_bits_bound(number as nat, 64);
            assert(mask & 1 == mask % 2 && mask >> 1u64 == mask / 2) by (bit_vector);
        }
        if (mask & 1) == 1 {
            cnt += 1;
        }
        mask >>= 1;
    }
    cnt
}

/// Clear-lowest-set-bit population count: one iteration per set bit.
pub fn popcnt2(number: u64) -> (r: u8)
    ensures
        r as nat == count_bits(number as nat),
{
    let mut cnt: u8 = 0;
    let mut mask = number;
    while mask > 0
        invariant
            cnt as nat + count_bits(mask as nat) == count_bits(number as nat),
        decreases mask,
    {
        proof {
            lemma2_to64();
            lemma_count_bits_bound(number as nat, 64);
            lemma_count_bits_clear_lowest(mask);
            assert(mask & ((mask - 1) as u64) < mask) by (bit_vector)
                requires
                    mask > 0,
            ;
        }
        cnt += 1;
        mask &= mask - 1;
    }
    cnt
}

pub const BIT_COUNTS: [u8; 256] = [
    0, 1, 1, 2, 1, 2, 2, 3, 1, 2, 2, 3, 2, 3, 3, 4,
    1, 2, 2, 3, 2, 3, 3, 4, 2, 3, 3, 4, 3, 4, 4, 5,
    1, 2, 2, 3, 2, 3, 3, 4, 2, 3, 3, 4, 3, 4, 4, 5,
    2, 3, 3, 4, 3, 4, 4, 5, 3, 4, 4, 5, 4, 5, 5, 6,
    1, 2, 2, 3, 2, 3, 3, 4, 2, 3, 3, 4, 3, 4, 4, 5,
    2, 3, 3, 4, 3, 4, 4, 5, 3, 4, 4, 5, 4, 5, 5, 6,
    2, 3, 3, 4, 3, 4, 4, 5, 3, 4, 4, 5, 4, 5, 5, 6,
    3, 4, 4, 5, 4, 5, 5, 6, 4, 5, 5, 6, 5, 6, 6, 7,
    1, 2, 2, 3, 2, 3, 3, 4, 2, 3, 3, 4, 3, 4, 4, 5,
    2, 3, 3, 4, 3, 4, 4, 5, 3, 4, 4, 5, 4, 5, 5, 6,
    2, 3, 3, 4, 3, 4, 4, 5, 3, 4, 4, 5, 4, 5, 5, 6,
    3, 4, 4, 5, 4, 5, 5, 6, 4, 5, 5, 6, 5, 6, 6, 7,
    2, 3, 3, 4, 3, 4, 4, 5, 3, 4, 4, 5, 4, 5, 5, 6,
    3, 4, 4, 5, 4, 5, 5, 6, 4, 5, 5, 6, 5, 6, 6, 7,
    3, 4, 4, 5, 4, 5, 5, 6, 4, 5, 5, 6, 5, 6, 6, 7,
    4, 5, 5, 6, 5, 6, 6, 7, 5, 6, 6, 7, 6, 7, 7, 8,
];

/// Every entry of the table is the bit count of its index.
#[verifier::rlimit(100)]
proof fn lemma_table_entries()
    ensures
        forall|i: int| 0 <= i < 256 ==> #[trigger] BIT_COUNTS@[i] as nat == count_bits(i as nat),
{
    reveal_with_fuel(count_bits, 11);
    assert(forall|i: int| 0 <= i < 256 ==> #[trigger] BIT_COUNTS@[i] as nat == count_bits(
        i as nat,
    ));
}

/// Table-driven population count: looks each of the 8 bytes up in
/// `BIT_COUNTS` and sums the entries.
pub fn cache_bits(number: u64) -> (r: u8)
    ensures
        r as nat == count_bits(number as nat),
{
    let mut sum: u8 = 0;
    let mut rem = number;
    proof {
        lemma2_to64();
    }
    for j in 0..8u64
        invariant
            sum as nat + count_bits(rem as nat) == count_bits(number as nat),
            sum <= 8 * j,
            (rem as nat) < pow2((64 - 8 * j) as nat),
    {
        proof {
            lemma_table_entries();
            lemma_count_bits_split(rem, 8);
            assert((((1u64 << 8u64) - 1) as u64) == 0xFF && ((rem & 0xFF) as u8) as u64 == (rem
                & 0xFF) && rem >> 8u64 == rem / 256) by (bit_vector);
            lemma2_to64();
            lemma_count_bits_bound((rem & 0xFF) as nat, 8);
            lemma_pow2_adds((56 - 8 * j) as nat, 8);
            lemma_pow2_pos((56 - 8 * j) as nat);
            lemma_multiply_divide_lt(rem as int, 256, pow2((56 - 8 * j) as nat) as int);
        }
        let b = (rem & 0xFF) as u8;
        sum += BIT_COUNTS[b as usize];
        rem >>= 8;
    }
    proof {
        lemma2_to64();
    }
    sum
}

} // verus!
