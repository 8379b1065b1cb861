use chessbot::board::{
    board_diagram, get_attackers, is_square_attacked, piece_name, piece_value, Board, Color,
    Piece, Role,
};

fn sq(name: &str) -> u8 {
    let b = name.as_bytes();
    (b[1] - b'1') * 8 + (b[0] - b'a')
}

fn put(b: &mut Board, name: &str, color: Color, role: Role) {
    b.set(sq(name), Some(Piece { color, role }));
}

#[test]
fn values_and_names() {
    assert_eq!(piece_value(Role::Pawn), 1);
    assert_eq!(piece_value(Role::Knight), 3);
    assert_eq!(piece_value(Role::Bishop), 3);
    assert_eq!(piece_value(Role::Rook), 5);
    assert_eq!(piece_value(Role::Queen), 9);
    assert_eq!(piece_value(Role::King), 100);
    assert_eq!(piece_name(Role::Knight), "Knight");
    assert_eq!(piece_name(Role::King), "King");
}

#[test]
fn attackers_in_group_order() {
    let mut b = Board::empty();
    put(&mut b, "e4", Color::Black, Role::Pawn);
    put(&mut b, "f6", Color::White, Role::Knight);
    put(&mut b, "d3", Color::White, Role::Pawn);
    put(&mut b, "e3", Color::White, Role::King);
    put(&mut b, "h7", Color::White, Role::Bishop);
    put(&mut b, "e1", Color::White, Role::Rook);
    put(&mut b, "a4", Color::White, Role::Queen);
    let a = get_attackers(&b, sq("e4"), Color::White);
    // The rook on e1 is blocked by the king on e3; the bishop on h7 sees e4.
    assert_eq!(a, vec![sq("f6"), sq("d3"), sq("e3"), sq("h7"), sq("a4")]);
    assert!(is_square_attacked(&b, sq("e4"), Color::White));
    assert!(!is_square_attacked(&b, sq("e4"), Color::Black));
}

#[test]
fn black_pawns_attack_downwards() {
    let mut b = Board::empty();
    put(&mut b, "d5", Color::Black, Role::Pawn);
    put(&mut b, "f3", Color::Black, Role::Pawn);
    assert_eq!(get_attackers(&b, sq("e4"), Color::Black), vec![sq("d5")]);
}

#[test]
fn a_line_piece_of_the_wrong_kind_blocks() {
    let mut b = Board::empty();
    put(&mut b, "a1", Color::White, Role::Bishop);
    put(&mut b, "a8", Color::White, Role::Rook);
    put(&mut b, "a5", Color::Black, Role::Rook);
    assert_eq!(get_attackers(&b, sq("a4"), Color::White), vec![]);
    assert_eq!(get_attackers(&b, sq("a4"), Color::Black), vec![sq("a5")]);
    assert_eq!(get_attackers(&b, sq("a3"), Color::White), vec![]);
}

#[test]
fn empty_board_has_no_attackers() {
    let b = Board::empty();
    for t in 0..64u8 {
        assert!(get_attackers(&b, t, Color::White).is_empty());
    }
}

#[test]
fn diagram_of_a_board() {
    let mut b = Board::empty();
    put(&mut b, "e1", Color::White, Role::King);
    put(&mut b, "e8", Color::Black, Role::King);
    put(&mut b, "d7", Color::Black, Role::Pawn);
    let text = board_diagram(&b);
    let expected = "\n    a b c d e f g h\n  +-----------------+\n\
8 | . . . . k . . . | 8\n\
7 | . . . p . . . . | 7\n\
6 | . . . . . . . . | 6\n\
5 | . . . . . . . . | 5\n\
4 | . . . . . . . . | 4\n\
3 | . . . . . . . . | 3\n\
2 | . . . . . . . . | 2\n\
1 | . . . . K . . . | 1\n  +-----------------+\n    a b c d e f g h\n\n";
    assert_eq!(text, expected);
}

#[test]
fn board_copy_and_get() {
    let mut b = Board::empty();
    put(&mut b, "h8", Color::Black, Role::Queen);
    let c = b.copy();
    assert_eq!(c.get(63), Some(Piece { color: Color::Black, role: Role::Queen }));
    assert_eq!(c.get(0), None);
}
