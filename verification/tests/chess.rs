use otus_chess::Chess;
use otus_chess::{cache_bits, popcnt0, popcnt1, popcnt2};

#[test]
fn it_works() {
    let mut c = Chess(0);
    c.0 = 0x7f7f7f7f7f7f7f7f;
}

#[test]
fn vertical_horizontal() {
    let vertical_c = Chess::vertical(3);
    assert_eq!(0x0404040404040404, vertical_c.to_int());
    let horizontal_4 = Chess::horizontal(4);
    assert_eq!(0x00000000FF000000, horizontal_4.to_int());
    let no_vertical_d = Chess::exc_vertical(4);
    assert_eq!(0xF7F7F7F7F7F7F7F7, no_vertical_d.to_int());
    let no_horizontal_5 = Chess::exc_horizontal(5);
    assert_eq!(0xFFFFFF00FFFFFFFF, no_horizontal_5.to_int());
    let no_vertical_a = Chess::exc_vertical(1);
    assert_eq!(0xFEFEFEFEFEFEFEFE, no_vertical_a.to_int());
}

#[test]
fn popcnt() {
    assert_eq!(0, popcnt2(0));
    assert_eq!(1, popcnt2(1));
    assert_eq!(1, popcnt2(2));
    assert_eq!(8, popcnt2(255));
}

#[test]
fn cached() {
    assert_eq!(8, cache_bits(0x0101010101010101));
    assert_eq!(0, cache_bits(0));
    assert_eq!(1, cache_bits(1));
    assert_eq!(1, cache_bits(2));
    assert_eq!(8, cache_bits(255));
}

/// All four counters agree on every byte value and on a deterministic
/// pseudo-random sample of full-width values, and match `count_ones`.
#[test]
fn counters_agree() {
    for x in 0..=255u64 {
        let expected = x.count_ones() as u8;
        assert_eq!(expected, popcnt0(x));
        assert_eq!(expected, popcnt1(x));
        assert_eq!(expected, popcnt2(x));
        assert_eq!(expected, cache_bits(x));
    }
    let mut x: u64 = 0x243F6A8885A308D3;
    for _ in 0..1000 {
        x = x.wrapping_mul(6364136223846793005).wrapping_add(1442695040888963407);
        let expected = x.count_ones() as u8;
        assert_eq!(expected, popcnt0(x));
        assert_eq!(expected, popcnt1(x));
        assert_eq!(expected, popcnt2(x));
        assert_eq!(expected, cache_bits(x));
    }
    assert_eq!(0, popcnt1(0));
    assert_eq!(1, popcnt0(1));
    assert_eq!(8, popcnt1(0x0101010101010101));
}

/// Every excluded mask is the bitwise complement of its file or rank mask.
#[test]
fn excluded_is_complement() {
    for n in 1..=8u8 {
        assert_eq!(!Chess::vertical(n).to_int(), Chess::exc_vertical(n).to_int());
        assert_eq!(!Chess::horizontal(n).to_int(), Chess::exc_horizontal(n).to_int());
        assert_eq!(Chess::vertical(n).not().to_int(), Chess::exc_vertical(n).to_int());
    }
}

/// King move counts: 3 in a corner, 5 on another edge square, 8 inside.
#[test]
fn king_move_counts() {
    for pos in 0..64u8 {
        let file_edge = pos % 8 == 0 || pos % 8 == 7;
        let rank_edge = pos / 8 == 0 || pos / 8 == 7;
        let expected: u8 = if file_edge && rank_edge {
            3
        } else if file_edge || rank_edge {
            5
        } else {
            8
        };
        assert_eq!(expected, Chess::king_moves(pos).number_of_positions());
    }
}

/// Knight move counts lie in {2, 3, 4, 6, 8}; corners give exactly 2.
#[test]
fn knight_move_counts() {
    for pos in 0..64u8 {
        let c = Chess::knight_moves(pos).number_of_positions();
        assert!(c == 2 || c == 3 || c == 4 || c == 6 || c == 8);
    }
    for corner in [0u8, 7, 56, 63] {
        assert_eq!(2, Chess::knight_moves(corner).number_of_positions());
    }
    assert_eq!(8, Chess::knight_moves(27).number_of_positions());
}

/// A rook on an empty board always has exactly 14 destinations.
#[test]
fn rook_move_counts() {
    for pos in 0..64u8 {
        assert_eq!(14, Chess::rook_moves(pos).number_of_positions());
    }
}

/// No piece's move mask contains the origin square itself.
#[test]
fn no_self_inclusion() {
    for pos in 0..64u8 {
        let origin = 1u64 << pos;
        assert_eq!(0, Chess::king_moves(pos).to_int() & origin);
        assert_eq!(0, Chess::knight_moves(pos).to_int() & origin);
        assert_eq!(0, Chess::rook_moves(pos).to_int() & origin);
    }
}

/// Known move masks on concrete squares.
#[test]
fn concrete_masks() {
    // King on a1: b1, a2, b2.
    assert_eq!(0x302, Chess::king_moves(0).to_int());
    // Knight on a1: b3, c2.
    assert_eq!(0x20400, Chess::knight_moves(0).to_int());
    // Knight on d4 (index 27): full eight-move pattern.
    assert_eq!(0x0000142200221400, Chess::knight_moves(27).to_int());
    // Rook on a1: the rest of file a and of rank 1.
    assert_eq!(0x01010101010101FE, Chess::rook_moves(0).to_int());
}

/// Decimal rendering of a mask's value.
#[test]
fn decimal_rendering() {
    assert_eq!("0", Chess(0).to_decimal());
    assert_eq!("7", Chess(7).to_decimal());
    assert_eq!("12345", Chess(12345).to_decimal());
    assert_eq!("18446744073709551615", Chess(u64::MAX).to_decimal());
}

/// The two-line fixture form: count, CRLF, decimal mask value.
#[test]
fn fixture_form() {
    let moves = Chess::king_moves(0);
    assert_eq!("3\r\n770", moves.fixture_form());
    let rook = Chess::rook_moves(0);
    assert_eq!("14\r\n72340172838076926", rook.fixture_form());
}
