use chessbot::board::{Board, Color, Piece, Role};
use chessbot::chess::describe_move;
use chessbot::tactics::{detect_tactical_motive, MoveFacts, PositionFacts};

fn said(fen: &str, uci: &str) -> String {
    describe_move(fen, uci, false).expect("a legal move")
}

#[test]
fn promotion() {
    assert_eq!(said("8/P3k3/8/8/8/8/8/4K3 w - - 0 1", "a7a8q"), "This move promotes to a Queen.");
}

#[test]
fn en_passant() {
    assert_eq!(
        said("4k3/8/8/3pP3/8/8/8/4K3 w - d6 0 2", "e5d6"),
        "This move captures their Pawn via en passant."
    );
}

#[test]
fn trade_and_capture() {
    assert_eq!(said("4k3/8/8/3n4/8/4N3/8/4K3 w - - 0 1", "e3d5"), "This move trades a Knight for their Knight.");
    assert_eq!(said("4k3/8/8/3r4/8/8/B7/4K3 w - - 0 1", "a2d5"), "This move captures their Rook.");
}

#[test]
fn blocking_a_check() {
    assert_eq!(said("4k3/4r3/8/8/8/8/3B4/4K3 w - - 0 1", "d2e3"), "This move blocks the check.");
}

#[test]
fn leaving_danger() {
    assert_eq!(said("4k3/8/8/8/8/2p5/3N4/4K3 w - - 0 1", "d2f3"), "This move moves the Knight out of danger.");
}

#[test]
fn discovered_and_double_check() {
    assert_eq!(
        said("4k3/8/8/8/4N3/8/8/4RK2 w - - 0 1", "e4c5"),
        "This move moves the Knight to an active square and unleashes a Discovered Check."
    );
    assert_eq!(
        said("4k3/8/8/8/4N3/8/8/4RK2 w - - 0 1", "e4d6"),
        "This move moves the Knight to an active square and delivers a devastating Double Check."
    );
}

#[test]
fn discovered_attack() {
    assert_eq!(
        said("3qk3/8/8/8/3N4/8/8/3RK3 w - - 0 1", "d4f5"),
        "This move moves the Knight out of danger and opens a discovered attack on their Queen."
    );
}

#[test]
fn defending_a_piece() {
    assert_eq!(
        said("1r2k3/8/8/8/1B6/8/8/R3K3 w - - 0 1", "a1a4"),
        "This move activates the Rook and defends the Bishop."
    );
}

#[test]
fn king_attacks_an_undefended_piece() {
    assert_eq!(
        said("4k3/8/8/8/8/8/3n4/4K3 w - - 0 1", "e1e2"),
        "This move steps the King to a safer square and attacks their undefended Knight."
    );
}

#[test]
fn rook_challenges_a_rook() {
    assert_eq!(
        said("3r1k2/8/8/8/8/8/8/R3K3 w - - 0 1", "a1d1"),
        "This move slides the Rook to the central file and challenges their Rook to a trade."
    );
}

#[test]
fn pawn_threatens_a_bishop() {
    assert_eq!(
        said("4k3/8/8/3b4/8/4P3/8/4K3 w - - 0 1", "e3e4"),
        "This move advances a Pawn to control the center and threatens their Bishop."
    );
}

fn facts(board: Board, turn: Color, fullmoves: u32) -> PositionFacts {
    PositionFacts { board, turn, fullmoves, legal_moves: 30, in_check: false, stalemate: false, checkers: vec![] }
}

#[test]
fn quiet_bishop_moves_depend_on_the_phase() {
    // A bishop alone on the board, going to b2 then to c3.
    let mut before = Board::empty();
    before.set(2, Some(Piece { color: Color::White, role: Role::Bishop }));
    let mut after_b2 = Board::empty();
    after_b2.set(9, Some(Piece { color: Color::White, role: Role::Bishop }));
    let m = MoveFacts { role: Role::Bishop, from: Some(2), to: 9, capture: None, en_passant: false, castle: false, promotion: None };
    let r = detect_tactical_motive(&facts(before.copy(), Color::White, 5), &facts(after_b2.copy(), Color::Black, 5), &m, false, true);
    assert_eq!(r, "Your opponent fianchettos the Bishop.");
    let mut after_d2 = Board::empty();
    after_d2.set(11, Some(Piece { color: Color::White, role: Role::Bishop }));
    let m2 = MoveFacts { to: 11, ..m };
    let early = detect_tactical_motive(&facts(before.copy(), Color::White, 5), &facts(after_d2.copy(), Color::Black, 5), &m2, false, false);
    assert_eq!(early, "This move develops the Bishop to an active diagonal.");
    let late = detect_tactical_motive(&facts(before.copy(), Color::White, 21), &facts(after_d2.copy(), Color::Black, 21), &m2, false, false);
    assert_eq!(late, "This move shifts the Bishop.");
}

#[test]
fn quiet_pawn_and_queen_moves() {
    let m = MoveFacts { role: Role::Pawn, from: Some(48), to: 40, capture: None, en_passant: false, castle: false, promotion: None };
    let r = detect_tactical_motive(&facts(Board::empty(), Color::Black, 5), &facts(Board::empty(), Color::White, 5), &m, false, false);
    assert_eq!(r, "This move claims space with a Pawn.");
    let m2 = MoveFacts { to: 24, ..m };
    let r2 = detect_tactical_motive(&facts(Board::empty(), Color::Black, 5), &facts(Board::empty(), Color::White, 5), &m2, false, false);
    assert_eq!(r2, "This move pushes a dangerous passed pawn.");
    let q = MoveFacts { role: Role::Queen, from: Some(3), to: 39, capture: None, en_passant: false, castle: false, promotion: None };
    let r3 = detect_tactical_motive(&facts(Board::empty(), Color::White, 5), &facts(Board::empty(), Color::Black, 5), &q, false, false);
    assert_eq!(r3, "This move shifts the Queen to a new square.");
}
