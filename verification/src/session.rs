//! The decisions of a playing session: the settings chosen at the start and
//! what each line typed during the game asks for.
use vstd::prelude::*;
use crate::text::{
    chars_equal_str, chars_of, lowercase, replace_str, replaced, string_of, trim, trimmed,
    unicode_lowercase, ascii_lowered, is_ascii_text,
};

verus! {

/// The search depth for the engine strength typed at the start: "1" fast,
/// "2" medium, "3" hard (white space around the digit is ignored).
pub open spec fn depth_for(choice: Seq<char>) -> Option<u32> {
    let t = trimmed(choice);
    if t == "1"@ {
        Some(8)
    } else if t == "2"@ {
        Some(12)
    } else if t == "3"@ {
        Some(16)
    } else {
        None
    }
}

pub fn search_depth(choice: &str) -> (r: Option<u32>)
    ensures
        r == depth_for(choice@),
{
    let t = trim(&chars_of(choice));
    if chars_equal_str(&t, "1") {
        Some(8)
    } else if chars_equal_str(&t, "2") {
        Some(12)
    } else if chars_equal_str(&t, "3") {
        Some(16)
    } else {
        None
    }
}

/// The side chosen at the start, `Some(true)` for White: "w" or "white",
/// "b" or "black", in any case and with white space around.
pub open spec fn side_for(lowered: Seq<char>) -> Option<bool> {
    if lowered == "w"@ || lowered == "white"@ {
        Some(true)
    } else if lowered == "b"@ || lowered == "black"@ {
        Some(false)
    } else {
        None
    }
}

/// The side chosen, from the lower-cased trimmed answer.
pub fn side_choice_from(lowered: &str) -> (r: Option<bool>)
    ensures
        r == side_for(lowered@),
{
    let v = chars_of(lowered);
    if chars_equal_str(&v, "w") || chars_equal_str(&v, "white") {
        Some(true)
    } else if chars_equal_str(&v, "b") || chars_equal_str(&v, "black") {
        Some(false)
    } else {
        None
    }
}

/// The side chosen by the answer typed at the start.
pub fn side_choice(answer: &str) -> (r: Option<bool>)
    ensures
        r == side_for(unicode_lowercase(trimmed(answer@))),
        is_ascii_text(trimmed(answer@)) ==> r == side_for(ascii_lowered(trimmed(answer@))),
{
    let t = string_of(&trim(&chars_of(answer)));
    let lowered = lowercase(t.as_str());
    side_choice_from(lowered.as_str())
}

/// Whether it is the player's turn after `plies` half-moves.
pub fn is_user_turn(plies: usize, playing_as_white: bool) -> (r: bool)
    ensures
        r == ((plies % 2 == 0) == playing_as_white),
{
    (plies % 2 == 0) == playing_as_white
}

/// What a line typed during the game asks for.
pub enum Command {
    /// End the game.
    Quit,
    /// Switch the voice off.
    Mute,
    /// Switch the voice on.
    Unmute,
    /// Take back the last move.
    Undo,
    /// Play the expected move (an empty line).
    Accept,
    /// Listen to a spoken move (a single space, or "v").
    Voice,
    /// Play the typed move, given lower-cased and without spaces.
    Move(String),
}

pub enum CommandView {
    Quit,
    Mute,
    Unmute,
    Undo,
    Accept,
    Voice,
    Move(Seq<char>),
}

impl View for Command {
    type V = CommandView;

    open spec fn view(&self) -> CommandView {
        match self {
            Command::Quit => CommandView::Quit,
            Command::Mute => CommandView::Mute,
            Command::Unmute => CommandView::Unmute,
            Command::Undo => CommandView::Undo,
            Command::Accept => CommandView::Accept,
            Command::Voice => CommandView::Voice,
            Command::Move(m) => CommandView::Move(m@),
        }
    }
}

/// The line without its line-ending characters.
pub open spec fn raw_line(line: Seq<char>) -> Seq<char> {
    replaced(replaced(line, "\n"@, ""@), "\r"@, ""@)
}

/// What the line asks for, given its lower-cased trimmed form `lowered`:
/// the words quit, mute, unmute and undo first, then an empty line, a single
/// space or "v", and any other text as a move.
pub open spec fn command_for(raw: Seq<char>, lowered: Seq<char>) -> CommandView {
    if lowered == "quit"@ {
        CommandView::Quit
    } else if lowered == "mute"@ {
        CommandView::Mute
    } else if lowered == "unmute"@ {
        CommandView::Unmute
    } else if lowered == "undo"@ {
        CommandView::Undo
    } else if raw.len() == 0 {
        CommandView::Accept
    } else if raw == " "@ || raw == "v"@ {
        CommandView::Voice
    } else {
        CommandView::Move(replaced(lowered, " "@, ""@))
    }
}

/// A typed move is handed on without spaces.
pub proof fn law_typed_move_has_no_space(raw: Seq<char>, lowered: Seq<char>)
    ensures
        command_for(raw, lowered) matches CommandView::Move(m) ==> !m.contains(' '),
{
    reveal_strlit(" ");
    reveal_strlit("");
    assert(" "@ =~= seq![' ']);
    assert(""@ =~= Seq::<char>::empty());
    crate::text::lemma_replaced_removes(lowered, ' ');
}

pub fn command_from(raw: &str, lowered: &str) -> (r: Command)
    ensures
        r@ == command_for(raw@, lowered@),
{
    let rv = chars_of(raw);
    let lv = chars_of(lowered);
    if chars_equal_str(&lv, "quit") {
        Command::Quit
    } else if chars_equal_str(&lv, "mute") {
        Command::Mute
    } else if chars_equal_str(&lv, "unmute") {
        Command::Unmute
    } else if chars_equal_str(&lv, "undo") {
        Command::Undo
    } else if rv.len() == 0 {
        Command::Accept
    } else if chars_equal_str(&rv, " ") || chars_equal_str(&rv, "v") {
        Command::Voice
    } else {
        Command::Move(string_of(&replace_str(&lv, " ", "")))
    }
}

/// What a line typed during the game asks for.
pub fn classify_command(line: &str) -> (r: Command)
    ensures
        r@ == command_for(raw_line(line@), unicode_lowercase(trimmed(raw_line(line@)))),
        is_ascii_text(trimmed(raw_line(line@))) ==> r@ == command_for(
            raw_line(line@),
            ascii_lowered(trimmed(raw_line(line@))),
        ),
{
    let v = chars_of(line);
    let no_lf = replace_str(&v, "\n", "");
    let raw = replace_str(&no_lf, "\r", "");
    let t = string_of(&trim(&raw));
    let lowered = lowercase(t.as_str());
    command_from(string_of(&raw).as_str(), lowered.as_str())
}

/// The move typed to correct what the voice recognition heard: the trimmed
/// line without spaces, or nothing when the line is blank.
pub open spec fn correction_for(line: Seq<char>) -> Option<Seq<char>> {
    if trimmed(line).len() == 0 {
        None
    } else {
        Some(replaced(trimmed(line), " "@, ""@))
    }
}

pub fn voice_correction(line: &str) -> (r: Option<String>)
    ensures
        r.deep_view() == correction_for(line@),
{
    let t = trim(&chars_of(line));
    if t.len() == 0 {
        None
    } else {
        Some(string_of(&replace_str(&t, " ", "")))
    }
}

/// What the bot says back after hearing a move: "Heard " and the move with
/// every "x" read as "takes ".
pub open spec fn echo_for(cmd: Seq<char>) -> Seq<char> {
    "Heard "@ + replaced(cmd, "x"@, "takes "@)
}

pub fn heard_echo(cmd: &str) -> (r: String)
    ensures
        r@ == echo_for(cmd@),
{
    let mut out = chars_of("Heard ");
    let rest = replace_str(&chars_of(cmd), "x", "takes ");
    crate::text::push_all(&mut out, &rest);
    string_of(&out)
}

/// The prompt for the next move: on the player's turn it offers the
/// suggested move `expected`, on the opponent's turn the predicted reply
/// when there is one.
pub open spec fn prompt_for(user_turn: bool, expected: Seq<char>) -> Seq<char> {
    if user_turn {
        "\nYour move (ENTER for '**"@ + expected + "**', Space+ENTER for Voice, or type override): "@
    } else if expected.len() > 0 {
        "Opponent's move (ENTER for '"@ + expected + "', Space+ENTER for Voice): "@
    } else {
        "Opponent's move (Space+ENTER for Voice, or Type move): "@
    }
}

pub fn move_prompt(user_turn: bool, expected: &str) -> (r: String)
    ensures
        r@ == prompt_for(user_turn, expected@),
{
    let e = chars_of(expected);
    if user_turn {
        let mut out = chars_of("\nYour move (ENTER for '**");
        crate::text::push_all(&mut out, &e);
        crate::text::push_str(&mut out, "**', Space+ENTER for Voice, or type override): ");
        string_of(&out)
    } else if e.len() > 0 {
        let mut out = chars_of("Opponent's move (ENTER for '");
        crate::text::push_all(&mut out, &e);
        crate::text::push_str(&mut out, "', Space+ENTER for Voice): ");
        string_of(&out)
    } else {
        string_of(&chars_of("Opponent's move (Space+ENTER for Voice, or Type move): "))
    }
}

/// What the bot says before a move it registers: the player's move is
/// taken over, the opponent's announced.
pub open spec fn announce_prefix_for(user_turn: bool) -> Seq<char> {
    if user_turn {
        "No worries, playing"@
    } else {
        "Opponent plays"@
    }
}

pub fn announce_prefix(user_turn: bool) -> (r: &'static str)
    ensures
        r@ == announce_prefix_for(user_turn),
{
    if user_turn {
        "No worries, playing"
    } else {
        "Opponent plays"
    }
}

} // verus!
