//! Spec-level model of the 8x8 board: squares, files, ranks, and the
//! file/rank masks the move generators are built from.
use vstd::prelude::*;

verus! {

/// Mask of file 1 (the a-file): bit 8k set for k = 0..7.
pub const FILE_A: u64 = 0x0101010101010101;

/// Mask of rank 1: the low 8 bits set.
pub const RANK_1: u64 = 0x00000000000000FF;

/// True when bit `i` of `m` is set (`i` < 64 for the bits of the board).
pub open spec fn bit64(m: u64, i: u64) -> bool {
    (m >> i) & 1 == 1
}

/// File of a square, 0-based: square `sq` lies on file `sq % 8`.
pub open spec fn file_of(sq: u64) -> u64 {
    sq % 8
}

/// Rank of a square, 0-based: square `sq` lies on rank `sq / 8`.
pub open spec fn rank_of(sq: u64) -> u64 {
    sq / 8
}

/// Mask of every square on file `n` (1-based, 1..=8).
pub open spec fn vertical_mask(n: u64) -> u64 {
    FILE_A << ((n - 1) as u64)
}

/// Mask of every square on rank `n` (1-based, 1..=8).
pub open spec fn horizontal_mask(n: u64) -> u64 {
    RANK_1 << ((8 * (n - 1)) as u64)
}

/// Bit `i` of file `n`'s mask is set exactly on the squares of file `n`.
pub proof fn lemma_vertical_mask_bit(n: u64, i: u64)
    by (bit_vector)
    requires
        1 <= n <= 8,
        i < 64,
    ensures
        bit64(vertical_mask(n), i) <==> file_of(i) == n - 1,
{
}

/// Bit `i` of rank `n`'s mask is set exactly on the squares of rank `n`.
pub proof fn lemma_horizontal_mask_bit(n: u64, i: u64)
    by (bit_vector)
    requires
        1 <= n <= 8,
        i < 64,
    ensures
        bit64(horizontal_mask(n), i) <==> rank_of(i) == n - 1,
{
}

/// Absolute difference of two coordinates.
pub open spec fn abs_diff(a: u64, b: u64) -> int {
    if a >= b {
        a - b
    } else {
        b - a
    }
}

/// A king on `from` can move to `to`: an adjacent square (at most one file
/// and one rank away, not the origin itself).
pub open spec fn king_dest(from: u64, to: u64) -> bool {
    &&& to != from
    &&& abs_diff(file_of(from), file_of(to)) <= 1
    &&& abs_diff(rank_of(from), rank_of(to)) <= 1
}

/// A knight on `from` can move to `to`: one file and two ranks away, or two
/// files and one rank away.
pub open spec fn knight_dest(from: u64, to: u64) -> bool {
    let df = abs_diff(file_of(from), file_of(to));
    let dr = abs_diff(rank_of(from), rank_of(to));
    (df == 1 && dr == 2) || (df == 2 && dr == 1)
}

/// A rook on `from` can move to `to` on an empty board: any other square of
/// the same file or the same rank.
pub open spec fn rook_dest(from: u64, to: u64) -> bool {
    to != from && (file_of(to) == file_of(from) || rank_of(to) == rank_of(from))
}

/// The king move mask: eight directional shifts of the king's bit, the
/// horizontal ones guarded against wrapping across the board edge.
pub open spec fn king_mask(pos: u64) -> u64 {
    let k = 1u64 << pos;
    let ka = k & !vertical_mask(1);
    let kh = k & !vertical_mask(8);
    (kh << 9) | (k << 8) | (ka << 7) | (kh << 1) | (ka >> 1) | (kh >> 7) | (k >> 8) | (ka >> 9)
}

/// The knight move mask: eight jump shifts, guarded against wrapping across
/// one or two files.
pub open spec fn knight_mask(pos: u64) -> u64 {
    let k = 1u64 << pos;
    let ka = k & !vertical_mask(1);
    let kh = k & !vertical_mask(8);
    let kb = k & !vertical_mask(2);
    let kf = k & !vertical_mask(7);
    (kh << 17) | (ka << 15) | ((kh & kf) << 10) | ((ka & kb) << 6) | ((kh & kf) >> 6) | ((ka & kb)
        >> 10) | (kh >> 15) | (ka >> 17)
}

/// The rook move mask: the rook's file XOR its rank, which cancels the one
/// shared square, the rook's own.
pub open spec fn rook_mask(pos: u64) -> u64 {
    vertical_mask((file_of(pos) + 1) as u64) ^ horizontal_mask((rank_of(pos) + 1) as u64)
}

/// Bit `d` of the king mask is set exactly on the king's destinations.
pub proof fn lemma_king_mask_bit(pos: u64, d: u64)
    by (bit_vector)
    requires
        pos < 64,
        d < 64,
    ensures
        bit64(king_mask(pos), d) <==> king_dest(pos, d),
{
}

/// Bit `d` of the knight mask is set exactly on the knight's destinations.
pub proof fn lemma_knight_mask_bit(pos: u64, d: u64)
    by (bit_vector)
    requires
        pos < 64,
        d < 64,
    ensures
        bit64(knight_mask(pos), d) <==> knight_dest(pos, d),
{
}

/// Bit `d` of the rook mask is set exactly on the rook's destinations.
pub proof fn lemma_rook_mask_bit(pos: u64, d: u64)
    by (bit_vector)
    requires
        pos < 64,
        d < 64,
    ensures
        bit64(rook_mask(pos), d) <==> rook_dest(pos, d),
{
}

/// The square lies on the board's left or right edge (file 1 or file 8).
pub open spec fn on_file_edge(pos: u64) -> bool {
    file_of(pos) == 0 || file_of(pos) == 7
}

/// The square lies on the board's bottom or top edge (rank 1 or rank 8).
pub open spec fn on_rank_edge(pos: u64) -> bool {
    rank_of(pos) == 0 || rank_of(pos) == 7
}

/// The square is one of the four corners.
pub open spec fn is_corner(pos: u64) -> bool {
    on_file_edge(pos) && on_rank_edge(pos)
}

} // verus!
