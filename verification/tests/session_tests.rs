use chessbot::session::{
    announce_prefix, move_prompt, classify_command, heard_echo, is_user_turn, search_depth, side_choice, voice_correction,
    Command,
};

fn cmd(line: &str) -> String {
    match classify_command(line) {
        Command::Quit => "quit".into(),
        Command::Mute => "mute".into(),
        Command::Unmute => "unmute".into(),
        Command::Undo => "undo".into(),
        Command::Accept => "accept".into(),
        Command::Voice => "voice".into(),
        Command::Move(m) => format!("move:{}", m),
    }
}

#[test]
fn commands_typed_during_the_game() {
    assert_eq!(cmd("quit\n"), "quit");
    assert_eq!(cmd("  Mute \n"), "mute");
    assert_eq!(cmd("unmute\n"), "unmute");
    assert_eq!(cmd("UNDO\r\n"), "undo");
    assert_eq!(cmd("\n"), "accept");
    assert_eq!(cmd(" \n"), "voice");
    assert_eq!(cmd("v\n"), "voice");
    assert_eq!(cmd("V\n"), "move:v");
    assert_eq!(cmd("Nf 3\n"), "move:nf3");
    assert_eq!(cmd("  e4\r\n"), "move:e4");
}

#[test]
fn corrections_after_voice() {
    assert_eq!(voice_correction("  N f3 \n"), Some("Nf3".to_string()));
    assert_eq!(voice_correction("   \n"), None);
}

#[test]
fn echo_of_a_heard_move() {
    assert_eq!(heard_echo("nxe5"), "Heard ntakes e5");
    assert_eq!(heard_echo("e4"), "Heard e4");
}

#[test]
fn engine_strength_choice() {
    assert_eq!(search_depth("1\n"), Some(8));
    assert_eq!(search_depth(" 2 "), Some(12));
    assert_eq!(search_depth("3"), Some(16));
    assert_eq!(search_depth("4"), None);
    assert_eq!(search_depth(""), None);
}

#[test]
fn side_choice_answers() {
    assert_eq!(side_choice(" White \n"), Some(true));
    assert_eq!(side_choice("w"), Some(true));
    assert_eq!(side_choice("B\n"), Some(false));
    assert_eq!(side_choice("black"), Some(false));
    assert_eq!(side_choice("x"), None);
}

#[test]
fn turns_alternate() {
    assert!(is_user_turn(0, true));
    assert!(!is_user_turn(1, true));
    assert!(is_user_turn(1, false));
    assert!(!is_user_turn(0, false));
}

#[test]
fn move_prompt_for_each_turn() {
    assert_eq!(
        move_prompt(true, "Nf3"),
        "\nYour move (ENTER for '**Nf3**', Space+ENTER for Voice, or type override): "
    );
    assert_eq!(
        move_prompt(false, "e5"),
        "Opponent's move (ENTER for 'e5', Space+ENTER for Voice): "
    );
    assert_eq!(
        move_prompt(false, ""),
        "Opponent's move (Space+ENTER for Voice, or Type move): "
    );
}

#[test]
fn announce_prefix_for_each_side() {
    assert_eq!(announce_prefix(true), "No worries, playing");
    assert_eq!(announce_prefix(false), "Opponent plays");
}

#[test]
fn side_choice_ignores_case_and_space() {
    assert_eq!(side_choice("  WHITE \n"), Some(true));
    assert_eq!(side_choice("B"), Some(false));
    assert_eq!(side_choice("red"), None);
}

#[test]
fn classify_command_ignores_case() {
    assert!(matches!(classify_command("QUIT\n"), Command::Quit));
    assert!(matches!(classify_command("Undo"), Command::Undo));
    match classify_command("N F3\r\n") {
        Command::Move(m) => assert_eq!(m, "nf3"),
        _ => panic!("expected a move"),
    }
}
