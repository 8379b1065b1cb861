use chessbot::engine::{go_command, position_command, EngineSearch};

#[test]
fn position_command_without_moves() {
    assert_eq!(position_command(&Vec::new()), "position startpos");
}

#[test]
fn position_command_with_moves() {
    let h: Vec<String> = vec!["e2e4".into(), "e7e5".into()];
    assert_eq!(position_command(&h), "position startpos moves e2e4 e7e5");
}

#[test]
fn go_command_text() {
    assert_eq!(go_command(12), "go depth 12");
    assert_eq!(go_command(8), "go depth 8");
}

#[test]
fn search_reads_score_and_variation() {
    let mut s = EngineSearch::new();
    let done = s.feed("info depth 10 seldepth 12 multipv 1 score cp 35 nodes 100 pv e2e4 e7e5 g1f3 b8c6\n");
    assert!(!done);
    assert_eq!(s.cp, 35);
    assert_eq!(s.best, "e2e4");
    assert_eq!(s.reply, "e7e5");
    assert_eq!(s.follow, "g1f3");
    let done = s.feed("bestmove e2e4 ponder e7e5\n");
    assert!(done);
    assert_eq!(s.best, "e2e4");
    assert_eq!(s.eval_score(true), 35);
    assert_eq!(s.eval_score(false), -35);
}

#[test]
fn search_reads_mates() {
    let mut s = EngineSearch::new();
    s.feed("info depth 5 score mate 3 pv d1h5");
    assert_eq!(s.cp, 9700);
    s.feed("info depth 6 score mate -2 pv g7g6");
    assert_eq!(s.cp, -9800);
    assert_eq!(s.best, "g7g6");
    assert_eq!(s.reply, "");
}

#[test]
fn search_keeps_values_when_missing() {
    let mut s = EngineSearch::new();
    s.feed("info depth 3 score cp -20 pv a2a3 a7a6");
    s.feed("info depth 4 currmove b2b3");
    assert_eq!(s.cp, -20);
    assert_eq!(s.best, "a2a3");
    s.feed("info depth 5 score cp xyz");
    assert_eq!(s.cp, 0);
    s.feed("info depth 6 score cp");
    assert_eq!(s.cp, 0);
    s.feed("info string hello cp 50");
    assert_eq!(s.cp, 0);
}

#[test]
fn bestmove_without_variation() {
    let mut s = EngineSearch::new();
    assert!(s.feed("  bestmove g1f3  "));
    assert_eq!(s.best, "g1f3");
    let mut t = EngineSearch::new();
    assert!(t.feed("bestmove"));
    assert_eq!(t.best, "");
}

#[test]
fn search_parses_signed_and_extreme_numbers() {
    let mut s = EngineSearch::new();
    s.feed("info depth 1 score cp +12 pv e2e4");
    assert_eq!(s.cp, 12);
    s.feed("info depth 1 score cp -2147483648 pv e2e4");
    assert_eq!(s.cp, i32::MIN);
    s.feed("info depth 1 score cp 2147483648 pv e2e4");
    assert_eq!(s.cp, 0);
}

#[test]
fn accepts_refuses_overflowing_mates() {
    assert!(EngineSearch::accepts("info depth 1 score mate 5 pv e2e4"));
    assert!(!EngineSearch::accepts("info depth 1 score mate 30000000 pv e2e4"));
    assert!(EngineSearch::accepts("readyok"));
}
