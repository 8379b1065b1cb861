use chessbot::notation::{GameResult, result_text, format_eval, get_san_candidates, pgn_text};

#[test]
fn candidates_for_a_typed_move() {
    assert_eq!(get_san_candidates("  nf3 "), vec!["nf3", "nf3", "Nf3"]);
    assert_eq!(get_san_candidates("E4"), vec!["E4", "e4", "E4"]);
    assert_eq!(get_san_candidates("bXc3"), vec!["bXc3", "bxc3", "Bxc3"]);
}

#[test]
fn candidates_for_castling_words() {
    assert_eq!(get_san_candidates("o-o"), vec!["O-O"]);
    assert_eq!(get_san_candidates("0-0"), vec!["O-O"]);
    assert_eq!(get_san_candidates("OO"), vec!["O-O"]);
    assert_eq!(get_san_candidates("0-0-0"), vec!["O-O-O"]);
    assert_eq!(get_san_candidates(" ooo "), vec!["O-O-O"]);
}

#[test]
fn candidates_of_empty_input() {
    assert_eq!(get_san_candidates("   "), vec!["", "", ""]);
}

#[test]
fn format_eval_in_pawns() {
    assert_eq!(format_eval(35), "0.35");
    assert_eq!(format_eval(-150), "-1.50");
    assert_eq!(format_eval(0), "0.00");
    assert_eq!(format_eval(-5), "-0.05");
    assert_eq!(format_eval(1234), "12.34");
    assert_eq!(format_eval(9000), "90.00");
    assert_eq!(format_eval(-9000), "-90.00");
}

#[test]
fn format_eval_mates() {
    assert_eq!(format_eval(9700), "M3");
    assert_eq!(format_eval(9001), "M9");
    assert_eq!(format_eval(-9800), "-M2");
    assert_eq!(format_eval(10000), "M0");
    assert_eq!(format_eval(20000), "M-100");
    assert_eq!(format_eval(-20050), "-M-100");
}

#[test]
fn format_eval_matches_float_formatting() {
    for e in -9000..=9000 {
        assert_eq!(format_eval(e), format!("{:.2}", e as f32 / 100.0));
    }
}

#[test]
fn pgn_text_numbers_the_moves() {
    let tags = |r: &str| {
        format!(
            "[Event \"?\"]\n[Site \"?\"]\n[Date \"????.??.??\"]\n[Round \"?\"]\n[White \"?\"]\n[Black \"?\"]\n[Result \"{}\"]\n\n",
            r
        )
    };
    let h: Vec<String> = vec!["e4".into(), "e5".into(), "Nf3".into()];
    assert_eq!(
        pgn_text(&h, GameResult::Unfinished),
        format!("{}1. e4 e5 2. Nf3 *\n", tags("*"))
    );
    let h2: Vec<String> = vec!["d4".into(), "d5".into()];
    assert_eq!(
        pgn_text(&h2, GameResult::Draw),
        format!("{}1. d4 d5 1/2-1/2\n", tags("1/2-1/2"))
    );
    assert_eq!(pgn_text(&Vec::new(), GameResult::Unfinished), format!("{}*\n", tags("*")));
}

#[test]
fn pgn_text_of_a_won_game_ends_with_its_result() {
    let h: Vec<String> = vec!["f3".into(), "e5".into(), "g4".into(), "Qh4#".into()];
    let text = pgn_text(&h, GameResult::BlackWins);
    assert!(text.starts_with("[Event \"?\"]\n"));
    assert!(text.contains("[Result \"0-1\"]\n"));
    assert!(text.ends_with("\n1. f3 e5 2. g4 Qh4# 0-1\n"));
    let w = pgn_text(&vec!["e4".into()], GameResult::WhiteWins);
    assert!(w.ends_with("\n1. e4 1-0\n"));
}

#[test]
fn result_text_gives_each_token() {
    assert_eq!(result_text(GameResult::WhiteWins), "1-0");
    assert_eq!(result_text(GameResult::BlackWins), "0-1");
    assert_eq!(result_text(GameResult::Draw), "1/2-1/2");
    assert_eq!(result_text(GameResult::Unfinished), "*");
}

#[test]
fn san_candidates_of_capital_input() {
    assert_eq!(get_san_candidates("  NF3 "), vec!["NF3", "nf3", "Nf3"]);
}
