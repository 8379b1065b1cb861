use chessbot::board::{Color, Piece, Role};
use chessbot::chess::{
    coach_note, category_line, game_result, moves_in_category, GameRecord, ReviewedMove,
    canonical_uci, describe_move, game_is_over, is_checkmated, is_in_check, is_white_to_move,
    move_facts, move_san, play_move, position_facts, rebuild_board, resolve_move_input,
    review_game, san_or_uci, start_fen, suggest,
};
use chessbot::notation::GameResult;
use chessbot::review::Category;

const START: &str = "rnbqkbnr/pppppppp/8/8/8/8/PPPPPPPP/RNBQKBNR w KQkq - 0 1";
const FOOLS_MATE: &str = "rnb1kbnr/pppp1ppp/8/4p3/6Pq/5P2/PPPPP2P/RNBQKBNR w KQkq - 1 3";
const CASTLING: &str = "r3k2r/8/8/8/8/8/8/R3K2R w KQkq - 0 1";

fn strings(v: &[&str]) -> Vec<String> {
    v.iter().map(|s| s.to_string()).collect()
}

#[test]
fn start_position_text() {
    assert_eq!(start_fen(), START);
}

#[test]
fn playing_a_move() {
    assert_eq!(
        play_move(START, "e2e4"),
        Some("rnbqkbnr/pppppppp/8/8/4P3/8/PPPP1PPP/RNBQKBNR b KQkq - 0 1".to_string())
    );
    assert_eq!(play_move(START, "e2e5"), None);
    assert_eq!(play_move(START, "nonsense"), None);
    assert_eq!(play_move("not a fen", "e2e4"), None);
}

#[test]
fn rebuilding_from_history() {
    assert_eq!(
        rebuild_board(&strings(&["e2e4", "e7e5"])),
        "rnbqkbnr/pppp1ppp/8/4p3/4P3/8/PPPP1PPP/RNBQKBNR w KQkq - 0 2"
    );
    assert_eq!(rebuild_board(&strings(&["e2e4", "e2e4"])), rebuild_board(&strings(&["e2e4"])));
    assert_eq!(rebuild_board(&Vec::new()), START);
}

#[test]
fn undo_gives_back_the_previous_position() {
    let mut h = strings(&["e2e4", "e7e5", "g1f3"]);
    let before = rebuild_board(&h);
    h.push("b8c6".to_string());
    let after = rebuild_board(&h);
    assert_eq!(Some(after.clone()), play_move(&before, "b8c6"));
    h.pop();
    assert_eq!(rebuild_board(&h), before);
}

#[test]
fn canonical_uci_of_castling() {
    assert_eq!(canonical_uci(CASTLING, "e1g1"), Some("e1g1".to_string()));
    assert_eq!(canonical_uci(CASTLING, "e1h1"), Some("e1g1".to_string()));
    assert_eq!(canonical_uci(CASTLING, "e1c1"), Some("e1c1".to_string()));
    assert_eq!(canonical_uci(START, "e1g1"), None);
}

#[test]
fn moves_in_algebraic_notation() {
    assert_eq!(move_san(START, "g1f3"), Some("Nf3".to_string()));
    assert_eq!(move_san(CASTLING, "e1g1"), Some("O-O".to_string()));
    assert_eq!(move_san(START, "g1g3"), None);
    assert_eq!(san_or_uci(START, "e2e4"), "e4");
    assert_eq!(san_or_uci(START, "e2e5"), "e2e5");
}

#[test]
fn typed_moves_are_resolved() {
    assert_eq!(resolve_move_input(START, "nf3"), Some("g1f3".to_string()));
    assert_eq!(resolve_move_input(START, "e4"), Some("e2e4".to_string()));
    assert_eq!(resolve_move_input(START, "G1F3"), Some("g1f3".to_string()));
    assert_eq!(resolve_move_input(CASTLING, "o-o"), Some("e1g1".to_string()));
    assert_eq!(resolve_move_input(CASTLING, "0-0-0"), Some("e1c1".to_string()));
    assert_eq!(resolve_move_input(START, "xyz"), None);
    assert_eq!(resolve_move_input(START, "Nf6"), None);
}

#[test]
fn facts_of_the_start_position() {
    let p = position_facts(START).unwrap();
    assert_eq!(p.turn, Color::White);
    assert_eq!(p.fullmoves, 1);
    assert_eq!(p.legal_moves, 20);
    assert!(!p.in_check);
    assert!(!p.stalemate);
    assert!(p.checkers.is_empty());
    assert_eq!(p.board.get(4), Some(Piece { color: Color::White, role: Role::King }));
    assert_eq!(p.board.get(59), Some(Piece { color: Color::Black, role: Role::Queen }));
    assert_eq!(p.board.get(28), None);
    assert!(position_facts("garbage").is_none());
}

#[test]
fn facts_of_a_mate() {
    let p = position_facts(FOOLS_MATE).unwrap();
    assert!(p.in_check);
    assert_eq!(p.checkers, vec![31]);
    assert_eq!(p.legal_moves, 0);
    assert_eq!(p.fullmoves, 3);
    assert_eq!(is_checkmated(FOOLS_MATE), Some(true));
    assert_eq!(is_checkmated(START), Some(false));
    assert_eq!(game_is_over(FOOLS_MATE), Some(true));
    assert_eq!(game_is_over(START), Some(false));
    assert_eq!(is_in_check(FOOLS_MATE), Some(true));
    assert_eq!(is_white_to_move(FOOLS_MATE), Some(true));
    assert_eq!(is_white_to_move("rnbqkbnr/pppppppp/8/8/4P3/8/PPPP1PPP/RNBQKBNR b KQkq - 0 1"), Some(false));
}

#[test]
fn facts_of_moves() {
    let m = move_facts(START, "g1f3").unwrap();
    assert_eq!(m.role, Role::Knight);
    assert_eq!(m.from, Some(6));
    assert_eq!(m.to, 21);
    assert_eq!(m.capture, None);
    assert!(!m.castle && !m.en_passant);
    let c = move_facts(CASTLING, "e1g1").unwrap();
    assert_eq!(c.role, Role::King);
    assert!(c.castle);
    assert_eq!(c.to, 7);
    let ep = move_facts("4k3/8/8/3pP3/8/8/8/4K3 w - d6 0 2", "e5d6").unwrap();
    assert!(ep.en_passant);
    assert_eq!(ep.capture, Some(Role::Pawn));
    let pr = move_facts("8/P3k3/8/8/8/8/8/4K3 w - - 0 1", "a7a8q").unwrap();
    assert_eq!(pr.promotion, Some(Role::Queen));
    assert_eq!(pr.role, Role::Pawn);
    assert!(move_facts(START, "a1a5").is_none());
}

#[test]
fn describing_an_opening_move() {
    assert_eq!(
        describe_move(START, "e2e4", false),
        Some("This move advances a Pawn to control the center.".to_string())
    );
    assert_eq!(
        describe_move(START, "g1h3", true),
        Some("Your opponent moves the Knight to the edge.".to_string())
    );
    assert_eq!(describe_move(START, "e2e5", false), None);
}

#[test]
fn describing_a_knight_check() {
    let fen = "r3k3/8/8/1N6/8/8/8/4K3 w - - 0 1";
    assert_eq!(
        describe_move(fen, "b5c7", false),
        Some("This move moves the Knight to an active square and delivers a Check and threatens their Rook.".to_string())
    );
    assert_eq!(
        describe_move(fen, "b5c7", true),
        Some("Your opponent moves the Knight to an active square and delivers a Check and threatens your Rook.".to_string())
    );
}

#[test]
fn describing_a_fork() {
    let fen = "r6k/8/4q3/1N6/8/8/7K/8 w - - 0 1";
    assert_eq!(
        describe_move(fen, "b5c7", false),
        Some("This move moves the Knight to an active square and forks their Queen and Rook.".to_string())
    );
}

#[test]
fn describing_a_stalemate() {
    let fen = "k7/8/8/2Q5/8/8/8/4K3 w - - 0 1";
    assert_eq!(
        describe_move(fen, "c5b6", false),
        Some("This move forces a stalemate to draw the game.".to_string())
    );
}

#[test]
fn describing_castling_and_a_forced_move() {
    assert_eq!(
        describe_move(CASTLING, "e1g1", false),
        Some("This move castles short to connect the Rooks.".to_string())
    );
    // Only one legal move: the king must leave the rook's check.
    let fen = "4k3/8/8/8/8/8/r7/K1r5 w - - 0 1";
    assert_eq!(
        describe_move(fen, "a1a2", false),
        Some("This move plays the only legal forced move.".to_string())
    );
}

#[test]
fn suggestion_from_the_engine_line() {
    let s = suggest(START, "e2e4", "e7e5", "g1f3");
    assert_eq!(s.san, "e4");
    assert_eq!(s.uci, Some("e2e4".to_string()));
    assert!(!s.is_check && !s.is_mate);
    assert_eq!(
        s.idea,
        "This move advances a Pawn to control the center. If they reply with e5, we follow up with Nf3."
    );
    let t = suggest(START, "e2e4", "", "");
    assert_eq!(t.idea, "This move advances a Pawn to control the center.");
    let u = suggest(START, "", "", "");
    assert_eq!(u.san, "");
    assert_eq!(u.uci, None);
    assert_eq!(u.idea, "");
}

#[test]
fn suggestion_of_a_mate() {
    let fen = "rnbqkbnr/pppp1ppp/8/4p3/6P1/5P2/PPPPP2P/RNBQKBNR b KQkq - 0 2";
    let s = suggest(fen, "d8h4", "", "");
    assert_eq!(s.san, "Qh4");
    assert!(s.is_check);
    assert!(s.is_mate);
}

#[test]
fn review_of_a_short_game() {
    let history = strings(&["e4", "e5", "Nf3", "Nc6", "Bc4", "Nd4", "Nxe5"]);
    let evals = vec![30, 30, 30, 30, 30, 30, 30, -300];
    let bests = strings(&["e2e4", "e7e5", "g1f3", "b8c6", "f1c4", "g8f6", "c2c3"]);
    let r = review_game(&history, &evals, &bests);
    assert_eq!(r.len(), 7);
    for k in 0..6 {
        assert_eq!(r[k].category, Category::Book);
    }
    assert_eq!(r[6].category, Category::Blunder);
    assert_eq!(r[6].best_san, "c3");
    assert_eq!(r[6].loss, 330);
    assert_eq!(r[6].p_before, 30);
    assert_eq!(r[6].p_after, -300);
    assert_eq!(r[5].best_san, "Nf6");
    assert_eq!(r[5].p_before, -30);
}

#[test]
fn review_finds_a_brilliant_sacrifice() {
    let history = strings(&["e4", "e5", "Nf3", "Nc6", "Bc4", "Nd4", "Bxf7+", "Kxf7"]);
    let evals = vec![30, 30, 30, 30, 30, 30, 30, 20, -200];
    let bests = strings(&["e2e4", "e7e5", "g1f3", "b8c6", "f1c4", "c6d4", "c4f7", "e8f7"]);
    let r = review_game(&history, &evals, &bests);
    assert_eq!(r[6].category, Category::Brilliant);
    assert_eq!(r[6].best_san, "Bxf7");
    assert_eq!(r[7].category, Category::Best);
    assert_eq!(r[7].loss, 0);
}

#[test]
fn review_with_an_unreadable_best_move() {
    let history = strings(&["e4", "e5", "Nf3", "Nc6", "Bc4", "Nd4", "Nxe5"]);
    let evals = vec![0; 8];
    let bests = strings(&["", "", "", "", "", "", "zz"]);
    let r = review_game(&history, &evals, &bests);
    assert_eq!(r[6].best_san, "a safer move");
    assert_eq!(r[6].category, Category::Excellent);
}

#[test]
fn game_result_reads_the_final_position() {
    assert_eq!(game_result(FOOLS_MATE), GameResult::BlackWins);
    assert_eq!(game_result(START), GameResult::Unfinished);
    assert_eq!(
        game_result("k7/2Q5/1K6/8/8/8/8/8 b - - 0 1"),
        GameResult::Draw
    );
    assert_eq!(
        game_result("6k1/5ppp/8/8/8/8/8/R5K1 w - - 0 1"),
        GameResult::Unfinished
    );
    assert_eq!(
        game_result("R5k1/5ppp/8/8/8/8/8/6K1 b - - 0 1"),
        GameResult::WhiteWins
    );
    assert_eq!(game_result("not a position"), GameResult::Unfinished);
}

fn ev(score: i32, best: &str) -> (i32, String, String, String) {
    (score, best.to_string(), String::new(), String::new())
}

#[test]
fn game_record_keeps_its_lists_aligned() {
    let mut g = GameRecord::new(ev(30, "e2e4"));
    assert!(g.moves().is_empty());
    assert!(g.sans().is_empty());
    assert_eq!(g.evals().len(), 1);
    assert_eq!(g.position_fen(), START);
    assert!(g.play("e2e4".to_string(), "e4".to_string(), ev(25, "e7e5")));
    assert_eq!(g.moves(), &vec!["e2e4".to_string()]);
    assert_eq!(g.sans(), &vec!["e4".to_string()]);
    assert_eq!(g.evals().len(), 2);
    assert_eq!(g.last_eval(), &ev(25, "e7e5"));
    assert_eq!(
        g.position_fen(),
        "rnbqkbnr/pppppppp/8/8/4P3/8/PPPP1PPP/RNBQKBNR b KQkq - 0 1"
    );
    assert!(!g.play("e2e4".to_string(), "e4".to_string(), ev(0, "")));
    assert_eq!(g.moves().len(), 1);
    assert_eq!(g.evals().len(), 2);
}

#[test]
fn game_record_undo_restores_the_record() {
    let mut g = GameRecord::new(ev(30, "e2e4"));
    assert!(!g.undo());
    assert!(g.play("g1f3".to_string(), "Nf3".to_string(), ev(20, "d7d5")));
    assert!(g.play("d7d5".to_string(), "d5".to_string(), ev(35, "d2d4")));
    assert!(g.undo());
    assert_eq!(g.moves(), &vec!["g1f3".to_string()]);
    assert_eq!(g.sans(), &vec!["Nf3".to_string()]);
    assert_eq!(g.evals(), &vec![ev(30, "e2e4"), ev(20, "d7d5")]);
    assert_eq!(g.position_fen(), play_move(START, "g1f3").unwrap());
    assert!(g.undo());
    assert_eq!(g.position_fen(), START);
    assert_eq!(g.evals(), &vec![ev(30, "e2e4")]);
}

fn reviewed(san: &str, category: Category) -> ReviewedMove {
    ReviewedMove {
        san: san.to_string(),
        best_san: String::new(),
        category,
        loss: 0,
        p_before: 0,
        p_after: 0,
    }
}

#[test]
fn listing_by_category_keeps_each_side_apart() {
    let r = vec![
        reviewed("e4", Category::Best),
        reviewed("e5", Category::Best),
        reviewed("Nf3", Category::Best),
        reviewed("Qh4", Category::Blunder),
        reviewed("Bc4", Category::Good),
    ];
    assert_eq!(moves_in_category(&r, true, Category::Best), vec!["e4", "Nf3"]);
    assert_eq!(moves_in_category(&r, false, Category::Best), vec!["e5"]);
    assert_eq!(category_line(&r, true, Category::Best), "  * Best: 2 (e4, Nf3)");
    assert_eq!(category_line(&r, false, Category::Blunder), "  * Blunder: 1 (Qh4)");
    assert_eq!(category_line(&r, false, Category::Good), "  * Good: 0");
    assert_eq!(category_line(&Vec::new(), true, Category::Book), "  * Book: 0");
}

#[test]
fn resolved_moves_can_be_played() {
    let cases = [
        (START, "Nf3"),
        (START, "e2e4"),
        ("r3k2r/8/8/8/8/8/8/R3K2R w KQkq - 0 1", "e1g1"),
        ("r3k2r/8/8/8/8/8/8/R3K2R w KQkq - 0 1", "e1c1"),
        ("4k3/8/8/3pP3/8/8/8/4K3 w - d6 0 1", "e5d6"),
        ("4k3/8/8/3pP3/8/8/8/4K3 w - d6 0 1", "exd6"),
        ("4k3/P7/8/8/8/8/8/4K3 w - - 0 1", "a7a8q"),
    ];
    for (fen, cmd) in cases {
        let uci = resolve_move_input(fen, cmd).expect(cmd);
        assert!(play_move(fen, &uci).is_some(), "{} -> {}", cmd, uci);
    }
}

#[test]
fn coach_notes_for_bad_and_brilliant_moves() {
    let mut m = reviewed("Qh4", Category::Blunder);
    m.best_san = "Nc6".to_string();
    m.loss = 500;
    m.p_before = 0;
    m.p_after = -500;
    let note = coach_note(1, &m).unwrap();
    assert!(note.starts_with("❌ [Black] Qh4 is a Blunder!\n   🎯 You should have played: **Nc6**\n   💡 Why: "));
    let b = reviewed("Bxf7+", Category::Brilliant);
    assert_eq!(
        coach_note(2, &b),
        Some("✨ [White] Bxf7+ is Brilliant! A true sacrifice that shatters the opponent's position.".to_string())
    );
    assert_eq!(coach_note(0, &reviewed("e4", Category::Best)), None);
    assert_eq!(coach_note(3, &reviewed("a6", Category::Inaccuracy)), None);
}

#[test]
fn canonical_uci_can_be_played() {
    let c = canonical_uci("r3k2r/8/8/8/8/8/8/R3K2R w KQkq - 0 1", "e1g1").unwrap();
    assert_eq!(c, "e1g1");
    assert!(play_move("r3k2r/8/8/8/8/8/8/R3K2R w KQkq - 0 1", &c).is_some());
}

#[test]
fn resolve_move_input_reads_capitals() {
    assert_eq!(resolve_move_input(START, "E2E4"), Some("e2e4".to_string()));
    assert_eq!(resolve_move_input(START, "  NF3 "), Some("g1f3".to_string()));
}
