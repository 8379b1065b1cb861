use chessbot::voice::{clean_spoken_move, extract_spoken_text, normalize_spoken, speak_move};

#[test]
fn speak_move_spells_out_a_knight_move() {
    let r = speak_move("I suggest", "Nf3", false, false, true, "");
    assert_eq!(r, Some("I suggest Knight  F  3 ".to_string()));
}

#[test]
fn speak_move_reads_capture_and_mate() {
    let r = speak_move("Opponent plays", "Qxf7#", false, true, true, "");
    assert_eq!(
        r,
        Some("Opponent plays Queen takes  F  7 , checkmate! The game is over.".to_string())
    );
}

#[test]
fn speak_move_reads_check_and_idea() {
    let r = speak_move("I suggest", "Bb5+", true, false, true, "Pins the knight");
    assert_eq!(r, Some("I suggest Bishop  B  5 , check!. Pins the knight".to_string()));
}

#[test]
fn speak_move_names_castling() {
    assert_eq!(
        speak_move("No worries, playing", "O-O", false, false, true, ""),
        Some("No worries, playing Castles short".to_string())
    );
    assert_eq!(
        speak_move("I suggest", "O-O-O+", true, false, true, ""),
        Some("I suggest Castles long, check!".to_string())
    );
}

#[test]
fn speak_move_is_silent_when_muted() {
    assert_eq!(speak_move("I suggest", "e4", false, false, false, "idea"), None);
}

#[test]
fn clean_spoken_move_examples_of_the_readme() {
    assert_eq!(clean_spoken_move("Knight to F3"), "nf3");
    assert_eq!(clean_spoken_move("Takes on D4"), "xd4");
}

#[test]
fn clean_spoken_move_other_phrasings() {
    assert_eq!(clean_spoken_move("Bishop takes e5"), "bxe5");
    assert_eq!(clean_spoken_move("pawn to e four"), "e4");
    assert_eq!(clean_spoken_move("Night takes d5"), "nxd5");
    assert_eq!(clean_spoken_move("Queen to h5."), "qh5");
    assert_eq!(clean_spoken_move("rook to the d one"), "rd1");
    assert_eq!(clean_spoken_move("nitaxseefour"), "nxc4");
}

#[test]
fn normalize_spoken_keeps_case_of_lowered_text() {
    assert_eq!(normalize_spoken("king to e two"), "ke2");
    assert_eq!(normalize_spoken(""), "");
}

#[test]
fn extract_spoken_text_reads_the_dialog_answer() {
    let out = "{\n  \"code\": -1,\n  \"text\": \"knight to f3\"\n}\n";
    assert_eq!(extract_spoken_text(out), "knight to f3");
}

#[test]
fn extract_spoken_text_silence_gives_nothing() {
    assert_eq!(extract_spoken_text("{\n  \"code\": -2\n}"), "");
    assert_eq!(extract_spoken_text("{ \"text\": \"   \" }"), "");
    assert_eq!(extract_spoken_text("{ \"text\": \"unterminated"), "");
}

#[test]
fn clean_spoken_move_ignores_letter_case() {
    assert_eq!(clean_spoken_move("KNIGHT TO F3"), "nf3");
    assert_eq!(clean_spoken_move("Knight To F3"), clean_spoken_move("knight to f3"));
    assert_eq!(clean_spoken_move("Knight Takes E5"), "nxe5");
}

#[test]
fn cleaned_moves_hold_no_capitals() {
    for spoken in ["QUEEN TO H5", "Bishop Takes C6", "E4", "Rook A1 To A8"] {
        let cleaned = clean_spoken_move(spoken);
        assert!(!cleaned.chars().any(|c| c.is_ascii_uppercase()), "{}", cleaned);
    }
}
