//! Text forms of moves, evaluations and games.
use vstd::prelude::*;
use crate::text::{
    ascii_upper, chars_eq_ignore_ascii_case, chars_of, decimal, eq_ignore_ascii_case, int_text,
    lowercase, push_all, push_decimal, push_int, push_str, string_of, to_ascii_upper, trim,
    trimmed, unicode_lowercase, ascii_lowered, is_ascii_text,
};

verus! {

// ---------------------------------------------------------------------
// Candidate spellings of a typed move
// ---------------------------------------------------------------------

/// Typed forms that stand for short castling.
pub open spec fn is_short_castle_word(s: Seq<char>) -> bool {
    eq_ignore_ascii_case(s, "O-O"@) || eq_ignore_ascii_case(s, "0-0"@) || eq_ignore_ascii_case(s, "oo"@)
}

/// Typed forms that stand for long castling.
pub open spec fn is_long_castle_word(s: Seq<char>) -> bool {
    eq_ignore_ascii_case(s, "O-O-O"@) || eq_ignore_ascii_case(s, "0-0-0"@) || eq_ignore_ascii_case(
        s,
        "ooo"@,
    )
}

/// `lowered` with its first character in ASCII upper case.
pub open spec fn capitalized(lowered: Seq<char>) -> Seq<char> {
    if lowered.len() == 0 {
        lowered
    } else {
        lowered.update(0, ascii_upper(lowered[0]))
    }
}

/// The spellings under which a typed move is tried, in order, given the
/// trimmed input and its lower-cased form.
pub open spec fn san_candidates(t: Seq<char>, lowered: Seq<char>) -> Seq<Seq<char>> {
    if is_short_castle_word(t) {
        seq!["O-O"@]
    } else if is_long_castle_word(t) {
        seq!["O-O-O"@]
    } else {
        seq![t, lowered, capitalized(lowered)]
    }
}

/// The candidate spellings for an input already trimmed, with its lower-cased form.
pub fn san_candidates_from(t: &str, lowered: &str) -> (r: Vec<String>)
    ensures
        r.deep_view() == san_candidates(t@, lowered@),
{
    let tv = chars_of(t);
    let mut r: Vec<String> = Vec::new();
    let w1 = chars_of("O-O");
    let w2 = chars_of("0-0");
    let w3 = chars_of("oo");
    let l1 = chars_of("O-O-O");
    let l2 = chars_of("0-0-0");
    let l3 = chars_of("ooo");
    if chars_eq_ignore_ascii_case(&tv, &w1) || chars_eq_ignore_ascii_case(&tv, &w2)
        || chars_eq_ignore_ascii_case(&tv, &w3) {
        r.push(string_of(&w1));
        assert(r.deep_view() =~= san_candidates(t@, lowered@));
        return r;
    }
    if chars_eq_ignore_ascii_case(&tv, &l1) || chars_eq_ignore_ascii_case(&tv, &l2)
        || chars_eq_ignore_ascii_case(&tv, &l3) {
        r.push(string_of(&l1));
        assert(r.deep_view() =~= san_candidates(t@, lowered@));
        return r;
    }
    let lv = chars_of(lowered);
    let mut cap = chars_of(lowered);
    if cap.len() > 0 {
        let first = to_ascii_upper(cap[0]);
        cap.set(0, first);
    }
    assert(cap@ =~= capitalized(lowered@));
    r.push(string_of(&tv));
    r.push(string_of(&lv));
    r.push(string_of(&cap));
    assert(r.deep_view() =~= san_candidates(t@, lowered@));
    r
}

/// `get_san_candidates`: the spellings under which a typed move is tried.
pub fn get_san_candidates(input: &str) -> (r: Vec<String>)
    ensures
        r.deep_view() == san_candidates(
            trimmed(input@),
            unicode_lowercase(trimmed(input@)),
        ),
        is_ascii_text(trimmed(input@)) ==> r.deep_view() == san_candidates(
            trimmed(input@),
            ascii_lowered(trimmed(input@)),
        ),
{
    let v = chars_of(input);
    let t = string_of(&trim(&v));
    let lowered = lowercase(t.as_str());
    san_candidates_from(t.as_str(), lowered.as_str())
}

// ---------------------------------------------------------------------
// Evaluations
// ---------------------------------------------------------------------

/// Integer division rounding toward zero, as Rust's `/` on integers.
pub open spec fn div_toward_zero(a: int, b: int) -> int {
    if a >= 0 {
        a / b
    } else {
        -((-a) / b)
    }
}

/// The two digits after the point of a number of hundredths.
pub open spec fn two_digits(n: nat) -> Seq<char> {
    seq![crate::text::digit_char((n % 100) / 10), crate::text::digit_char(n % 10)]
}

/// The text of an evaluation in centipawns: a mate in so many moves
/// ("M3", "-M2") beyond 9000 either way, else pawns with two decimals.
pub open spec fn eval_text(eval: int) -> Seq<char> {
    if eval > 9000 {
        "M"@ + int_text(div_toward_zero(10000 - eval, 100))
    } else if eval < -9000 {
        "-M"@ + int_text(div_toward_zero(10000 + eval, 100))
    } else {
        let a: nat = if eval < 0 {
            (-eval) as nat
        } else {
            eval as nat
        };
        (if eval < 0 {
            "-"@
        } else {
            Seq::empty()
        }) + decimal(a / 100) + "."@ + two_digits(a)
    }
}

fn div100_toward_zero(a: i64) -> (r: i64)
    requires
        -10_000_000_000 < a < 10_000_000_000,
    ensures
        r == div_toward_zero(a as int, 100),
{
    if a >= 0 {
        a / 100
    } else {
        -((-a) / 100)
    }
}

/// `format_eval`: the text of an evaluation in centipawns.
pub fn format_eval(eval: i32) -> (r: String)
    ensures
        r@ == eval_text(eval as int),
{
    let mut out: Vec<char> = Vec::new();
    if eval > 9000 {
        push_str(&mut out, "M");
        let q = div100_toward_zero(10000 - (eval as i64));
        push_int(&mut out, q);
    } else if eval < -9000 {
        push_str(&mut out, "-M");
        let q = div100_toward_zero(10000 + (eval as i64));
        push_int(&mut out, q);
    } else {
        let a: u64 = if eval < 0 {
            (-(eval as i64)) as u64
        } else {
            eval as u64
        };
        if eval < 0 {
            push_str(&mut out, "-");
        } else {
            assert(out@ =~= out@ + Seq::<char>::empty());
        }
        push_decimal(&mut out, a / 100);
        push_str(&mut out, ".");
        let tens: u8 = ((a % 100) / 10) as u8;
        let ones: u8 = (a % 10) as u8;
        out.push(('0' as u8 + tens) as char);
        out.push(('0' as u8 + ones) as char);
        assert(out@ =~= eval_text(eval as int));
    }
    string_of(&out)
}

// ---------------------------------------------------------------------
// Saved games
// ---------------------------------------------------------------------

/// The movetext of a game from its `k`-th pair of moves on: "1. e4 e5 2. Nf3 ".
pub open spec fn pgn_from(moves: Seq<Seq<char>>, k: nat) -> Seq<char>
    decreases moves.len() - 2 * k,
{
    if 2 * k >= moves.len() {
        Seq::empty()
    } else if 2 * k as int + 1 < moves.len() {
        decimal(k + 1) + ". "@ + moves[2 * k as int] + " "@ + moves[2 * k as int + 1] + " "@ + pgn_from(
            moves,
            k + 1,
        )
    } else {
        decimal(k + 1) + ". "@ + moves[2 * k as int] + " "@
    }
}

/// The movetext of the moves played, in algebraic notation.
fn pgn_movetext(san_history: &Vec<String>) -> (r: Vec<char>)
    ensures
        r@ == pgn_from(san_history.deep_view(), 0),
{
    let ghost moves = san_history.deep_view();
    let n = san_history.len();
    let mut out: Vec<char> = Vec::new();
    let mut k: usize = 0;
    let mut i: usize = 0;
    while i < n
        invariant
            n == san_history.len(),
            moves == san_history.deep_view(),
            moves.len() == n,
            i <= n,
            k <= n,
            i == 2 * k || (i == n && 2 * k >= n),
            out@ + pgn_from(moves, k as nat) == pgn_from(moves, 0),
        decreases n - i,
    {
        let ghost before = out@;
        push_decimal(&mut out, (k + 1) as u64);
        push_str(&mut out, ". ");
        let first = chars_of(san_history[i].as_str());
        push_all(&mut out, &first);
        push_str(&mut out, " ");
        if i + 1 < n {
            let second = chars_of(san_history[i + 1].as_str());
            push_all(&mut out, &second);
            push_str(&mut out, " ");
            assert(out@ + pgn_from(moves, (k + 1) as nat) =~= before + pgn_from(moves, k as nat));
            k = k + 1;
            i = i + 2;
        } else {
            assert(pgn_from(moves, (k + 1) as nat) =~= Seq::<char>::empty());
            assert(out@ + pgn_from(moves, (k + 1) as nat) =~= before + pgn_from(moves, k as nat));
            k = k + 1;
            i = n;
        }
    }
    assert(pgn_from(moves, k as nat) =~= Seq::<char>::empty());
    assert(out@ =~= pgn_from(moves, 0));
    out
}

/// How a game ended, as a game record writes it.
#[derive(Clone, Copy, Debug, PartialEq, Eq, Structural)]
pub enum GameResult {
    WhiteWins,
    BlackWins,
    Draw,
    Unfinished,
}

/// The result token of a game record: "1-0", "0-1", "1/2-1/2" or "*".
pub open spec fn result_token(r: GameResult) -> Seq<char> {
    match r {
        GameResult::WhiteWins => "1-0"@,
        GameResult::BlackWins => "0-1"@,
        GameResult::Draw => "1/2-1/2"@,
        GameResult::Unfinished => "*"@,
    }
}

/// The result token written for `r`.
pub fn result_text(r: GameResult) -> (t: &'static str)
    ensures
        t@ == result_token(r),
{
    match r {
        GameResult::WhiteWins => "1-0",
        GameResult::BlackWins => "0-1",
        GameResult::Draw => "1/2-1/2",
        GameResult::Unfinished => "*",
    }
}

/// The seven standard tag pairs of a game record, each on its own line;
/// what is not known is "?" (the date "????.??.??").
pub open spec fn tag_pairs(r: GameResult) -> Seq<char> {
    "[Event \"?\"]\n"@ + "[Site \"?\"]\n"@ + "[Date \"????.??.??\"]\n"@ + "[Round \"?\"]\n"@
        + "[White \"?\"]\n"@ + "[Black \"?\"]\n"@ + "[Result \""@ + result_token(r) + "\"]\n"@
}

/// A standard game record: the tag pairs, an empty line, then the movetext
/// ("1. e4 e5 2. Nf3 ") ended by the result token and a line break.
pub open spec fn pgn_game(moves: Seq<Seq<char>>, r: GameResult) -> Seq<char> {
    tag_pairs(r) + "\n"@ + pgn_from(moves, 0) + result_token(r) + "\n"@
}

/// The game record saved for the moves played (in algebraic notation) and the result.
pub fn pgn_text(san_history: &Vec<String>, result: GameResult) -> (r: String)
    ensures
        r@ == pgn_game(san_history.deep_view(), result),
{
    let token = result_text(result);
    let mut out = chars_of("[Event \"?\"]\n");
    push_str(&mut out, "[Site \"?\"]\n");
    push_str(&mut out, "[Date \"????.??.??\"]\n");
    push_str(&mut out, "[Round \"?\"]\n");
    push_str(&mut out, "[White \"?\"]\n");
    push_str(&mut out, "[Black \"?\"]\n");
    push_str(&mut out, "[Result \"");
    push_str(&mut out, token);
    push_str(&mut out, "\"]\n");
    push_str(&mut out, "\n");
    let moves = pgn_movetext(san_history);
    push_all(&mut out, &moves);
    push_str(&mut out, token);
    push_str(&mut out, "\n");
    assert(out@ =~= pgn_game(san_history.deep_view(), result));
    string_of(&out)
}

} // verus!
