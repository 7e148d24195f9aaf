//! How many destinations each move mask holds.
//!
//! A king has 8 moves in the open, 5 on an edge and 3 in a corner; a knight
//! has between 2 (corner) and 8; a rook on an empty board always has 14.
//! These are proved here from the mask definitions and `count_bits`.
use vstd::prelude::*;

use crate::masks::{FILE_A, RANK_1, bit64, file_of, rank_of, vertical_mask, horizontal_mask};
use crate::masks::{king_mask, knight_mask, rook_mask, on_file_edge, on_rank_edge, is_corner};
use crate::masks::{lemma_king_mask_bit, lemma_knight_mask_bit, lemma_rook_mask_bit};
use crate::popcount::{count_bits, lemma_count_bits_split};

verus! {

/// A single-bit mask has exactly one set bit.
pub proof fn lemma_count_single(p: u64)
    requires
        p < 64,
    ensures
        count_bits((1u64 << p) as nat) == 1,
    decreases p,
{
    if p == 0 {
        assert(1u64 << 0u64 == 1) by (bit_vector);
        assert(count_bits(1) == 1 + count_bits(0));
    } else {
        lemma_count_single((p - 1) as u64);
        let s = 1u64 << p;
        assert(s % 2 == 0 && s / 2 == 1u64 << ((p - 1) as u64) && s > 0) by (bit_vector)
            requires
                0 < p < 64 && s == 1u64 << p,
        ;
        assert(count_bits(s as nat) == count_bits((s as nat) / 2));
    }
}

/// Counting distributes over a union of disjoint masks.
pub proof fn lemma_count_or_disjoint(a: u64, b: u64)
    requires
        a & b == 0,
    ensures
        count_bits((a | b) as nat) == count_bits(a as nat) + count_bits(b as nat),
    decreases a,
{
    if a == 0 {
        assert(0u64 | b == b) by (bit_vector);
    } else {
        let a1 = a >> 1u64;
        let b1 = b >> 1u64;
        assert(a1 & b1 == 0 && a1 == a / 2 && b1 == b / 2 && a1 < a && (a | b) / 2 == a1 | b1 && (a
            | b) % 2 == a % 2 + b % 2) by (bit_vector)
            requires
                a & b == 0 && a > 0 && a1 == a >> 1u64 && b1 == b >> 1u64,
        ;
        lemma_count_or_disjoint(a1, b1);
        assert(count_bits((a | b) as nat) == ((a | b) as nat) % 2 + count_bits(
            ((a | b) as nat) / 2,
        ));
        assert(count_bits(a as nat) == (a as nat) % 2 + count_bits((a as nat) / 2));
        assert(count_bits(b as nat) == (b as nat) % 2 + count_bits((b as nat) / 2));
    }
}

/// A shift that loses no bits keeps the count.
pub proof fn lemma_count_shl(x: u64, k: u64)
    requires
        k <= 63,
        x <= u64::MAX >> k,
    ensures
        count_bits((x << k) as nat) == count_bits(x as nat),
    decreases k,
{
    if k == 0 {
        assert(x << 0u64 == x) by (bit_vector);
    } else {
        let y = x << ((k - 1) as u64);
        assert(x <= u64::MAX >> ((k - 1) as u64) && (x << k) == y << 1u64 && (y << 1u64) % 2 == 0
            && (y << 1u64) / 2 == y) by (bit_vector)
            requires
                1 <= k <= 63 && x <= u64::MAX >> k && y == x << ((k - 1) as u64),
        ;
        lemma_count_shl(x, (k - 1) as u64);
        assert(count_bits((y << 1u64) as nat) == ((y << 1u64) as nat) % 2 + count_bits(
            ((y << 1u64) as nat) / 2,
        ));
    }
}

/// The two base masks each hold eight squares.
proof fn lemma_count_base_masks()
    ensures
        count_bits(FILE_A as nat) == 8,
        count_bits(RANK_1 as nat) == 8,
{
    reveal_with_fuel(count_bits, 10);
    assert((((1u64 << 8u64) - 1) as u64) == 0xFF
        && 0x0101010101010101u64 & 0xFF == 1 && 0x0101010101010101u64 >> 8u64 == 0x01010101010101u64
        && 0x01010101010101u64 & 0xFF == 1 && 0x01010101010101u64 >> 8u64 == 0x010101010101u64
        && 0x010101010101u64 & 0xFF == 1 && 0x010101010101u64 >> 8u64 == 0x0101010101u64
        && 0x0101010101u64 & 0xFF == 1 && 0x0101010101u64 >> 8u64 == 0x01010101u64
        && 0x01010101u64 & 0xFF == 1 && 0x01010101u64 >> 8u64 == 0x010101u64
        && 0x010101u64 & 0xFF == 1 && 0x010101u64 >> 8u64 == 0x0101u64
        && 0x0101u64 & 0xFF == 1 && 0x0101u64 >> 8u64 == 0x01u64) by (bit_vector);
    lemma_count_bits_split(0x0101010101010101u64, 8);
    lemma_count_bits_split(0x01010101010101u64, 8);
    lemma_count_bits_split(0x010101010101u64, 8);
    lemma_count_bits_split(0x0101010101u64, 8);
    lemma_count_bits_split(0x01010101u64, 8);
    lemma_count_bits_split(0x010101u64, 8);
    lemma_count_bits_split(0x0101u64, 8);
}

/// Every file mask holds eight squares.
pub proof fn lemma_count_vertical(n: u64)
    requires
        1 <= n <= 8,
    ensures
        count_bits(vertical_mask(n) as nat) == 8,
{
    lemma_count_base_masks();
    assert(FILE_A <= u64::MAX >> ((n - 1) as u64)) by (bit_vector)
        requires
            1 <= n <= 8,
    ;
    lemma_count_shl(FILE_A, (n - 1) as u64);
}

/// Every rank mask holds eight squares.
pub proof fn lemma_count_horizontal(n: u64)
    requires
        1 <= n <= 8,
    ensures
        count_bits(horizontal_mask(n) as nat) == 8,
{
    lemma_count_base_masks();
    assert(RANK_1 <= u64::MAX >> ((8 * (n - 1)) as u64)) by (bit_vector)
        requires
            1 <= n <= 8,
    ;
    lemma_count_shl(RANK_1, (8 * (n - 1)) as u64);
}

/// A rook on an empty board always has exactly 14 destinations: 7 on its
/// file and 7 on its rank, the origin excluded.
pub proof fn lemma_rook_move_count(pos: u64)
    requires
        pos < 64,
    ensures
        count_bits(rook_mask(pos) as nat) == 14,
{
    let f = (file_of(pos) + 1) as u64;
    let r = (rank_of(pos) + 1) as u64;
    let v = vertical_mask(f);
    let h = horizontal_mask(r);
    let s = 1u64 << pos;
    lemma_count_vertical(f);
    lemma_count_horizontal(r);
    lemma_count_single(pos);
    assert(v == FILE_A << (pos % 8) && h == RANK_1 << ((8 * (pos / 8)) as u64));
    assert((v ^ h) & s == 0 && ((v ^ h) | s) == (v | h) && v & (h & !v) == 0 && (v | (h & !v)) == (
    v | h) && (h & !v) & s == 0 && ((h & !v) | s) == h) by (bit_vector)
        requires
            pos < 64 && s == 1u64 << pos && v == FILE_A << (pos % 8) && h == RANK_1 << ((8 * (pos
                / 8)) as u64),
    ;
    lemma_count_or_disjoint(v ^ h, s);
    lemma_count_or_disjoint(v, h & !v);
    lemma_count_or_disjoint(h & !v, s);
}

/// A king has 8 moves from an interior square, 5 from a non-corner edge
/// square, and 3 from a corner.
#[verifier::rlimit(60)]
pub proof fn lemma_king_move_count(pos: u64)
    requires
        pos < 64,
    ensures
        is_corner(pos) ==> count_bits(king_mask(pos) as nat) == 3,
        (on_file_edge(pos) != on_rank_edge(pos)) ==> count_bits(king_mask(pos) as nat) == 5,
        (!on_file_edge(pos) && !on_rank_edge(pos)) ==> count_bits(king_mask(pos) as nat) == 8,
{
    let f = file_of(pos);
    let r = rank_of(pos);
    let k = 1u64 << pos;
    let ka = k & !vertical_mask(1);
    let kh = k & !vertical_mask(8);
    let t1 = kh << 9;
    let t2 = k << 8;
    let t3 = ka << 7;
    let t4 = kh << 1;
    let t5 = ka >> 1;
    let t6 = kh >> 7;
    let t7 = k >> 8;
    let t8 = ka >> 9;
    let m2 = t1 | t2;
    let m3 = m2 | t3;
    let m4 = m3 | t4;
    let m5 = m4 | t5;
    let m6 = m5 | t6;
    let m7 = m6 | t7;
    let m8 = m7 | t8;
    assert(king_mask(pos) == m8);
    assert(t1 == (if pos % 8 < 7 && pos / 8 < 7 { 1u64 << ((pos + 9) as u64) } else { 0u64 })
        && t2 == (if pos / 8 < 7 { 1u64 << ((pos + 8) as u64) } else { 0u64 })
        && t3 == (if pos % 8 > 0 && pos / 8 < 7 { 1u64 << ((pos + 7) as u64) } else { 0u64 })
        && t4 == (if pos % 8 < 7 { 1u64 << ((pos + 1) as u64) } else { 0u64 })
        && t5 == (if pos % 8 > 0 { 1u64 << ((pos - 1) as u64) } else { 0u64 })
        && t6 == (if pos % 8 < 7 && pos / 8 > 0 { 1u64 << ((pos - 7) as u64) } else { 0u64 })
        && t7 == (if pos / 8 > 0 { 1u64 << ((pos - 8) as u64) } else { 0u64 })
        && t8 == (if pos % 8 > 0 && pos / 8 > 0 { 1u64 << ((pos - 9) as u64) } else { 0u64 }))
        by (bit_vector)
        requires
            pos < 64 && k == 1u64 << pos && ka == k & !(0x0101010101010101u64 << 0u64) && kh == k
                & !(0x0101010101010101u64 << 7u64) && t1 == kh << 9u64 && t2 == k << 8u64 && t3
                == ka << 7u64 && t4 == kh << 1u64 && t5 == ka >> 1u64 && t6 == kh >> 7u64 && t7
                == k >> 8u64 && t8 == ka >> 9u64,
    ;
    assert(t1 & t2 == 0 && m2 & t3 == 0 && m3 & t4 == 0 && m4 & t5 == 0 && m5 & t6 == 0 && m6
        & t7 == 0 && m7 & t8 == 0) by (bit_vector)
        requires
            pos < 64 && k == 1u64 << pos && ka == k & !(0x0101010101010101u64 << 0u64) && kh == k
                & !(0x0101010101010101u64 << 7u64) && t1 == kh << 9u64 && t2 == k << 8u64 && t3
                == ka << 7u64 && t4 == kh << 1u64 && t5 == ka >> 1u64 && t6 == kh >> 7u64 && t7
                == k >> 8u64 && t8 == ka >> 9u64 && m2 == t1 | t2 && m3 == m2 | t3 && m4 == m3
                | t4 && m5 == m4 | t5 && m6 == m5 | t6 && m7 == m6 | t7,
    ;
    assert(count_bits(t1 as nat) == (if f < 7 && r < 7 { 1nat } else { 0nat })) by {
        if f < 7 && r < 7 {
            lemma_count_single((pos + 9) as u64);
        }
    }
    assert(count_bits(t2 as nat) == (if r < 7 { 1nat } else { 0nat })) by {
        if r < 7 {
            lemma_count_single((pos + 8) as u64);
        }
    }
    assert(count_bits(t3 as nat) == (if f > 0 && r < 7 { 1nat } else { 0nat })) by {
        if f > 0 && r < 7 {
            lemma_count_single((pos + 7) as u64);
        }
    }
    assert(count_bits(t4 as nat) == (if f < 7 { 1nat } else { 0nat })) by {
        if f < 7 {
            lemma_count_single((pos + 1) as u64);
        }
    }
    assert(count_bits(t5 as nat) == (if f > 0 { 1nat } else { 0nat })) by {
        if f > 0 {
            lemma_count_single((pos - 1) as u64);
        }
    }
    assert(count_bits(t6 as nat) == (if f < 7 && r > 0 { 1nat } else { 0nat })) by {
        if f < 7 && r > 0 {
            lemma_count_single((pos - 7) as u64);
        }
    }
    assert(count_bits(t7 as nat) == (if r > 0 { 1nat } else { 0nat })) by {
        if r > 0 {
            lemma_count_single((pos - 8) as u64);
        }
    }
    assert(count_bits(t8 as nat) == (if f > 0 && r > 0 { 1nat } else { 0nat })) by {
        if f > 0 && r > 0 {
            lemma_count_single((pos - 9) as u64);
        }
    }
    lemma_count_or_disjoint(t1, t2);
    lemma_count_or_disjoint(m2, t3);
    lemma_count_or_disjoint(m3, t4);
    lemma_count_or_disjoint(m4, t5);
    lemma_count_or_disjoint(m5, t6);
    lemma_count_or_disjoint(m6, t7);
    lemma_count_or_disjoint(m7, t8);
}

/// A knight has 2, 3, 4, 6 or 8 moves depending on how close it stands to
/// the edges; from a corner it has exactly 2.
#[verifier::rlimit(60)]
pub proof fn lemma_knight_move_count(pos: u64)
    requires
        pos < 64,
    ensures
        ({
            let c = count_bits(knight_mask(pos) as nat);
            c == 2 || c == 3 || c == 4 || c == 6 || c == 8
        }),
        is_corner(pos) ==> count_bits(knight_mask(pos) as nat) == 2,
{
    let f = file_of(pos);
    let r = rank_of(pos);
    let k = 1u64 << pos;
    let ka = k & !vertical_mask(1);
    let kh = k & !vertical_mask(8);
    let kb = k & !vertical_mask(2);
    let kf = k & !vertical_mask(7);
    let t1 = kh << 17;
    let t2 = ka << 15;
    let t3 = (kh & kf) << 10;
    let t4 = (ka & kb) << 6;
    let t5 = (kh & kf) >> 6;
    let t6 = (ka & kb) >> 10;
    let t7 = kh >> 15;
    let t8 = ka >> 17;
    let m2 = t1 | t2;
    let m3 = m2 | t3;
    let m4 = m3 | t4;
    let m5 = m4 | t5;
    let m6 = m5 | t6;
    let m7 = m6 | t7;
    let m8 = m7 | t8;
    assert(knight_mask(pos) == m8);
    assert(t1 == (if pos % 8 < 7 && pos / 8 < 6 { 1u64 << ((pos + 17) as u64) } else { 0u64 })
        && t2 == (if pos % 8 > 0 && pos / 8 < 6 { 1u64 << ((pos + 15) as u64) } else { 0u64 })
        && t3 == (if pos % 8 < 6 && pos / 8 < 7 { 1u64 << ((pos + 10) as u64) } else { 0u64 })
        && t4 == (if pos % 8 > 1 && pos / 8 < 7 { 1u64 << ((pos + 6) as u64) } else { 0u64 })
        && t5 == (if pos % 8 < 6 && pos / 8 > 0 { 1u64 << ((pos - 6) as u64) } else { 0u64 })
        && t6 == (if pos % 8 > 1 && pos / 8 > 0 { 1u64 << ((pos - 10) as u64) } else { 0u64 })
        && t7 == (if pos % 8 < 7 && pos / 8 > 1 { 1u64 << ((pos - 15) as u64) } else { 0u64 })
        && t8 == (if pos % 8 > 0 && pos / 8 > 1 { 1u64 << ((pos - 17) as u64) } else { 0u64 }))
        by (bit_vector)
        requires
            pos < 64 && k == 1u64 << pos && ka == k & !(0x0101010101010101u64 << 0u64) && kh == k
                & !(0x0101010101010101u64 << 7u64) && kb == k & !(0x0101010101010101u64 << 1u64)
                && kf == k & !(0x0101010101010101u64 << 6u64) && t1 == kh << 17u64 && t2 == ka
                << 15u64 && t3 == (kh & kf) << 10u64 && t4 == (ka & kb) << 6u64 && t5 == (kh
                & kf) >> 6u64 && t6 == (ka & kb) >> 10u64 && t7 == kh >> 15u64 && t8 == ka
                >> 17u64,
    ;
    assert(t1 & t2 == 0 && m2 & t3 == 0 && m3 & t4 == 0 && m4 & t5 == 0 && m5 & t6 == 0 && m6
        & t7 == 0 && m7 & t8 == 0) by (bit_vector)
        requires
            pos < 64 && k == 1u64 << pos && ka == k & !(0x0101010101010101u64 << 0u64) && kh == k
                & !(0x0101010101010101u64 << 7u64) && kb == k & !(0x0101010101010101u64 << 1u64)
                && kf == k & !(0x0101010101010101u64 << 6u64) && t1 == kh << 17u64 && t2 == ka
                << 15u64 && t3 == (kh & kf) << 10u64 && t4 == (ka & kb) << 6u64 && t5 == (kh
                & kf) >> 6u64 && t6 == (ka & kb) >> 10u64 && t7 == kh >> 15u64 && t8 == ka
                >> 17u64 && m2 == t1 | t2 && m3 == m2 | t3 && m4 == m3 | t4 && m5 == m4 | t5
                && m6 == m5 | t6 && m7 == m6 | t7,
    ;
    assert(count_bits(t1 as nat) == (if f < 7 && r < 6 { 1nat } else { 0nat })) by {
        if f < 7 && r < 6 {
            lemma_count_single((pos + 17) as u64);
        }
    }
    assert(count_bits(t2 as nat) == (if f > 0 && r < 6 { 1nat } else { 0nat })) by {
        if f > 0 && r < 6 {
            lemma_count_single((pos + 15) as u64);
        }
    }
    assert(count_bits(t3 as nat) == (if f < 6 && r < 7 { 1nat } else { 0nat })) by {
        if f < 6 && r < 7 {
            lemma_count_single((pos + 10) as u64);
        }
    }
    assert(count_bits(t4 as nat) == (if f > 1 && r < 7 { 1nat } else { 0nat })) by {
        if f > 1 && r < 7 {
            lemma_count_single((pos + 6) as u64);
        }
    }
    assert(count_bits(t5 as nat) == (if f < 6 && r > 0 { 1nat } else { 0nat })) by {
        if f < 6 && r > 0 {
            lemma_count_single((pos - 6) as u64);
        }
    }
    assert(count_bits(t6 as nat) == (if f > 1 && r > 0 { 1nat } else { 0nat })) by {
        if f > 1 && r > 0 {
            lemma_count_single((pos - 10) as u64);
        }
    }
    assert(count_bits(t7 as nat) == (if f < 7 && r > 1 { 1nat } else { 0nat })) by {
        if f < 7 && r > 1 {
            lemma_count_single((pos - 15) as u64);
        }
    }
    assert(count_bits(t8 as nat) == (if f > 0 && r > 1 { 1nat } else { 0nat })) by {
        if f > 0 && r > 1 {
            lemma_count_single((pos - 17) as u64);
        }
    }
    lemma_count_or_disjoint(t1, t2);
    lemma_count_or_disjoint(m2, t3);
    lemma_count_or_disjoint(m3, t4);
    lemma_count_or_disjoint(m4, t5);
    lemma_count_or_disjoint(m5, t6);
    lemma_count_or_disjoint(m6, t7);
    lemma_count_or_disjoint(m7, t8);
}

/// No piece's move mask ever holds the piece's own square.
pub proof fn lemma_no_self_inclusion(pos: u64)
    requires
        pos < 64,
    ensures
        !bit64(king_mask(pos), pos),
        !bit64(knight_mask(pos), pos),
        !bit64(rook_mask(pos), pos),
{
    lemma_king_mask_bit(pos, pos);
    lemma_knight_mask_bit(pos, pos);
    lemma_rook_mask_bit(pos, pos);
}

} // verus!
