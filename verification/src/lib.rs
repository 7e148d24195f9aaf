//! Move-mask bitboards for chess pieces on an empty 8x8 board.
//!
//! A board is a `u64`, one bit per square: bit `i` stands for the square on
//! file `(i % 8) + 1` and rank `(i / 8) + 1`. The generators return, for a
//! king, knight or rook on a given square, the mask of every square it could
//! move to on an empty board, and the population counters report how many
//! such squares there are.
use vstd::prelude::*;

pub mod masks;
pub mod popcount;
pub mod counting;
pub mod decimal;

use crate::masks::{bit64, file_of, rank_of, vertical_mask, horizontal_mask, FILE_A, RANK_1};
pub use crate::popcount::{popcnt0, popcnt1, popcnt2, cache_bits};
use crate::masks::{king_dest, knight_dest, rook_dest, king_mask, knight_mask, rook_mask};
use crate::masks::{lemma_vertical_mask_bit, lemma_horizontal_mask_bit};
use crate::masks::{lemma_king_mask_bit, lemma_knight_mask_bit, lemma_rook_mask_bit};
use crate::popcount::count_bits;
use crate::decimal::{dec_str, push_char, push_decimal};

verus! {

/// A board mask: one bit per square of the 8x8 board.
#[derive(Debug, Default)]
pub struct Chess(pub u64);

impl Chess {
    /// The raw 64-bit value of the mask.
    pub fn to_int(&self) -> (r: u64)
        ensures
            r == self.0,
    {
        self.0
    }

    /// The bitwise complement: every square not in this mask.
    pub fn not(&self) -> (r: Self)
        ensures
            r.0 == !self.0,
    {
        Self(!self.0)
    }

    /// Mask of every square on file `n` (1..=8).
    pub fn vertical(n: u8) -> (r: Self)
        requires
            0 < n < 9,
        ensures
            r.0 == vertical_mask(n as u64),
            forall|i: u64| i < 64 ==> (#[trigger] bit64(r.0, i) <==> file_of(i) == n - 1),
    {
        let r = Self(FILE_A << (n - 1));
        proof {
            assert forall|i: u64| i < 64 implies (bit64(r.0, i) <==> file_of(i) == n - 1) by {
                lemma_vertical_mask_bit(n as u64, i);
            }
        }
        r
    }

    /// Mask of every square on rank `n` (1..=8).
    pub fn horizontal(n: u8) -> (r: Self)
        requires
            0 < n < 9,
        ensures
            r.0 == horizontal_mask(n as u64),
            forall|i: u64| i < 64 ==> (#[trigger] bit64(r.0, i) <==> rank_of(i) == n - 1),
    {
        let r = Self(RANK_1 << (8 * (n - 1)));
        proof {
            assert forall|i: u64| i < 64 implies (bit64(r.0, i) <==> rank_of(i) == n - 1) by {
                lemma_horizontal_mask_bit(n as u64, i);
            }
        }
        r
    }

    /// Mask of every square not on file `n`: the complement of `vertical(n)`.
    pub fn exc_vertical(n: u8) -> (r: Self)
        requires
            0 < n < 9,
        ensures
            r.0 == !vertical_mask(n as u64),
    {
        Self::vertical(n).not()
    }

    /// Mask of every square not on rank `n`: the complement of `horizontal(n)`.
    pub fn exc_horizontal(n: u8) -> (r: Self)
        requires
            0 < n < 9,
        ensures
            r.0 == !horizontal_mask(n as u64),
    {
        Self::horizontal(n).not()
    }

    /// Every square a king on square `pos` could move to.
    pub fn king_moves(pos: u8) -> (r: Self)
        requires
            pos < 64,
        ensures
            r.0 == king_mask(pos as u64),
            forall|d: u64| d < 64 ==> (#[trigger] bit64(r.0, d) <==> king_dest(pos as u64, d)),
    {
        let king = 1_u64 << pos;
        let k_a = king & Self::exc_vertical(1).0;
        let k_h = king & Self::exc_vertical(8).0;
        let moves = (k_h << 9)  // up right
         | (king << 8)  // up
         | (k_a << 7)  // up left
         | (k_h << 1)  // right
         | (k_a >> 1)  // left
         | (k_h >> 7)  // down right
         | (king >> 8)  // down
         | (k_a >> 9);  // down left
        proof {
            assert forall|d: u64| d < 64 implies (bit64(moves, d) <==> king_dest(
                pos as u64,
                d,
            )) by {
                lemma_king_mask_bit(pos as u64, d);
            }
        }
        Self(moves)
    }

    /// Every square a knight on square `pos` could jump to.
    pub fn knight_moves(pos: u8) -> (r: Self)
        requires
            pos < 64,
        ensures
            r.0 == knight_mask(pos as u64),
            forall|d: u64| d < 64 ==> (#[trigger] bit64(r.0, d) <==> knight_dest(pos as u64, d)),
    {
        let knight = 1_u64 << pos;
        let k_a = knight & Self::exc_vertical(1).0;
        let k_h = knight & Self::exc_vertical(8).0;
        let k_b = knight & Self::exc_vertical(2).0;
        let k_f = knight & Self::exc_vertical(7).0;
        let mask = (k_h << 17)  // up-right
         | (k_a << 15)  // up-left
         | ((k_h & k_f) << 10)  // right-up
         | ((k_a & k_b) << 6)  // left-up
         | ((k_h & k_f) >> 6)  // right-down
         | ((k_a & k_b) >> 10)  // left-down
         | (k_h >> 15)  // down-right
         | (k_a >> 17);  // down-left
        proof {
            assert forall|d: u64| d < 64 implies (bit64(mask, d) <==> knight_dest(
                pos as u64,
                d,
            )) by {
                lemma_knight_mask_bit(pos as u64, d);
            }
        }
        Self(mask)
    }

    /// Every square a rook on square `pos` could slide to on an empty board.
    pub fn rook_moves(pos: u8) -> (r: Self)
        requires
            pos < 64,
        ensures
            r.0 == rook_mask(pos as u64),
            forall|d: u64| d < 64 ==> (#[trigger] bit64(r.0, d) <==> rook_dest(pos as u64, d)),
    {
        let rook_v = pos % 8 + 1;
        let rook_h = pos / 8 + 1;
        let mask = Chess::vertical(rook_v).0 ^ Chess::horizontal(rook_h).0;
        proof {
            assert forall|d: u64| d < 64 implies (bit64(mask, d) <==> rook_dest(
                pos as u64,
                d,
            )) by {
                lemma_rook_mask_bit(pos as u64, d);
            }
        }
        Self(mask)
    }

    /// How many squares this mask holds: its population count.
    pub fn number_of_positions(&self) -> (r: u8)
        ensures
            r as nat == count_bits(self.0 as nat),
    {
        cache_bits(self.0)
    }

    /// The mask's raw value written in decimal.
    pub fn to_decimal(&self) -> (r: String)
        ensures
            r@ == dec_str(self.0 as nat),
    {
        let mut s = String::new();
        push_decimal(&mut s, self.0);
        proof {
            assert(s@ =~= dec_str(self.0 as nat));
        }
        s
    }

    /// The canonical two-line form: the destination count on one line, the
    /// mask's decimal value on the next, separated by a CRLF line break.
    pub fn fixture_form(&self) -> (r: String)
        ensures
            r@ == dec_str(count_bits(self.0 as nat)) + seq!['\r', '\n'] + dec_str(self.0 as nat),
    {
        let mut s = String::new();
        let count = self.number_of_positions();
        push_decimal(&mut s, count as u64);
        push_char(&mut s, '\r');
        push_char(&mut s, '\n');
        push_decimal(&mut s, self.0);
        proof {
            assert(s@ =~= dec_str(count_bits(self.0 as nat)) + seq!['\r', '\n'] + dec_str(
                self.0 as nat,
            ));
        }
        s
    }
}

} // verus!
