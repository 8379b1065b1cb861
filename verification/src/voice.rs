//! What the bot says aloud, and how a spoken move is turned into notation.
use vstd::prelude::*;
use crate::text::{
    ascii_upper, chars_equal_str, chars_of, find_chars, find_from, lowercase, push_all, push_str,
    replace_str, replaced, slice_chars, string_of, to_ascii_upper, trim, trimmed,
    unicode_lowercase, ascii_lowered, eq_ignore_ascii_case, is_ascii_text, no_capitals,
    lemma_ascii_lowered_no_capitals, lemma_replaced_no_capitals, contains_text, disjoint_chars,
    lemma_replaced_leaves_none,
};

verus! {

// ---------------------------------------------------------------------
// Speaking a move
// ---------------------------------------------------------------------

/// The words spoken for one character of a move in algebraic notation.
pub open spec fn spoken_char(c: char) -> Seq<char> {
    if c == 'N' {
        "Knight "@
    } else if c == 'B' {
        "Bishop "@
    } else if c == 'R' {
        "Rook "@
    } else if c == 'Q' {
        "Queen "@
    } else if c == 'K' {
        "King "@
    } else if c == 'x' {
        "takes "@
    } else if 'a' <= c && c <= 'h' {
        seq![' ', ascii_upper(c), ' ']
    } else if '1' <= c && c <= '8' {
        seq![' ', c, ' ']
    } else {
        seq![c]
    }
}

/// The words spoken for every character of `s`, in order.
pub open spec fn spoken_chars(s: Seq<char>) -> Seq<char>
    decreases s.len(),
{
    if s.len() == 0 {
        Seq::empty()
    } else {
        spoken_chars(s.drop_last()) + spoken_char(s.last())
    }
}

/// A move in algebraic notation without its check ('+') and mate ('#') marks.
pub open spec fn without_marks(san: Seq<char>) -> Seq<char> {
    replaced(replaced(san, "+"@, ""@), "#"@, ""@)
}

/// The words for a move: castling by name, anything else character by character.
pub open spec fn spoken_move(san: Seq<char>) -> Seq<char> {
    let clean = without_marks(san);
    if clean == "O-O"@ {
        "Castles short"@
    } else if clean == "O-O-O"@ {
        "Castles long"@
    } else {
        spoken_chars(clean)
    }
}

/// The whole sentence spoken for a move, after `prefix`, with the mate or
/// check remark and the idea, if there is one.
pub open spec fn move_speech(
    prefix: Seq<char>,
    san: Seq<char>,
    is_check: bool,
    is_mate: bool,
    idea: Seq<char>,
) -> Seq<char> {
    let text = spoken_move(san) + if is_mate {
        ", checkmate! The game is over."@
    } else if is_check {
        ", check!"@
    } else {
        Seq::empty()
    };
    if idea.len() == 0 {
        prefix + " "@ + text
    } else {
        prefix + " "@ + text + ". "@ + idea
    }
}

/// The remark after the spoken move: a mating move is announced as
/// checkmate, whether or not it is also flagged as a check, and never as a
/// mere check; a checking move that is not mate is announced as check; any
/// other move gets no remark. The remark stands right after the words of
/// the move, which come after the prefix and a space.
pub proof fn law_mate_remark(prefix: Seq<char>, san: Seq<char>, is_check: bool, is_mate: bool, idea: Seq<char>)
    ensures
        ({
            let speech = move_speech(prefix, san, is_check, is_mate, idea);
            let at: int = prefix.len() + 1int + spoken_move(san).len();
            &&& speech.take(prefix.len() as int) == prefix
            &&& speech[prefix.len() as int] == ' '
            &&& speech.subrange(prefix.len() + 1int, at) == spoken_move(san)
            &&& (is_mate ==> speech.subrange(at, at + 30) == ", checkmate! The game is over."@)
            &&& (!is_mate && is_check ==> speech.subrange(at, at + 8) == ", check!"@)
            &&& (!is_mate && !is_check && idea.len() == 0 ==> speech.len() == at)
        }),
        is_mate ==> move_speech(prefix, san, true, true, idea) == move_speech(prefix, san, false, true, idea),
{
    reveal_strlit(", checkmate! The game is over.");
    reveal_strlit(", check!");
    reveal_strlit(" ");
    reveal_strlit(". ");
    let speech = move_speech(prefix, san, is_check, is_mate, idea);
    let at: int = prefix.len() + 1int + spoken_move(san).len();
    let remark = if is_mate {
        ", checkmate! The game is over."@
    } else if is_check {
        ", check!"@
    } else {
        Seq::<char>::empty()
    };
    let head = prefix + " "@ + (spoken_move(san) + remark);
    assert(speech.take(head.len() as int) =~= head);
    assert(head.take(prefix.len() as int) =~= prefix);
    assert(head.subrange(prefix.len() + 1int, at) =~= spoken_move(san));
    if is_mate {
        assert(head.subrange(at, at + 30) =~= remark);
    } else if is_check {
        assert(head.subrange(at, at + 8) =~= remark);
    }
}

fn push_spoken_char(out: &mut Vec<char>, c: char)
    ensures
        final(out)@ == old(out)@ + spoken_char(c),
{
    if c == 'N' {
        push_str(out, "Knight ");
    } else if c == 'B' {
        push_str(out, "Bishop ");
    } else if c == 'R' {
        push_str(out, "Rook ");
    } else if c == 'Q' {
        push_str(out, "Queen ");
    } else if c == 'K' {
        push_str(out, "King ");
    } else if c == 'x' {
        push_str(out, "takes ");
    } else if 'a' <= c && c <= 'h' {
        out.push(' ');
        out.push(to_ascii_upper(c));
        out.push(' ');
        assert(final(out)@ =~= old(out)@ + spoken_char(c));
    } else if '1' <= c && c <= '8' {
        out.push(' ');
        out.push(c);
        out.push(' ');
        assert(final(out)@ =~= old(out)@ + spoken_char(c));
    } else {
        out.push(c);
        assert(final(out)@ =~= old(out)@ + spoken_char(c));
    }
}

/// The text to hand to the speech engine for a move: `None` when the voice
/// is switched off, else the sentence of `move_speech`.
pub fn speak_move(
    prefix: &str,
    san: &str,
    is_check: bool,
    is_mate: bool,
    voice_enabled: bool,
    idea: &str,
) -> (r: Option<String>)
    ensures
        !voice_enabled ==> r is None,
        voice_enabled ==> (r matches Some(t) && t@ == move_speech(prefix@, san@, is_check, is_mate, idea@)),
{
    if !voice_enabled {
        return None;
    }
    let san_v = chars_of(san);
    let no_plus = replace_str(&san_v, "+", "");
    let clean = replace_str(&no_plus, "#", "");
    let mut text: Vec<char> = Vec::new();
    if chars_equal_str(&clean, "O-O") {
        push_str(&mut text, "Castles short");
    } else if chars_equal_str(&clean, "O-O-O") {
        push_str(&mut text, "Castles long");
    } else {
        let mut i: usize = 0;
        while i < clean.len()
            invariant
                i <= clean.len(),
                text@ == spoken_chars(clean@.take(i as int)),
            decreases clean.len() - i,
        {
            push_spoken_char(&mut text, clean[i]);
            i = i + 1;
            assert(clean@.take(i as int).drop_last() =~= clean@.take(i - 1));
        }
        assert(clean@.take(clean.len() as int) =~= clean@);
    }
    if is_mate {
        push_str(&mut text, ", checkmate! The game is over.");
    } else if is_check {
        push_str(&mut text, ", check!");
    } else {
        assert(text@ + Seq::<char>::empty() =~= text@);
    }
    let mut speech = chars_of(prefix);
    push_str(&mut speech, " ");
    push_all(&mut speech, &text);
    let idea_v = chars_of(idea);
    if idea_v.len() != 0 {
        push_str(&mut speech, ". ");
        push_all(&mut speech, &idea_v);
    }
    Some(string_of(&speech))
}

// ---------------------------------------------------------------------
// Reading a spoken move
// ---------------------------------------------------------------------

/// The number of rewriting rules applied to a spoken move.
pub open spec fn spoken_rule_count() -> int {
    41
}

/// The rewriting rules for a spoken move, applied in this order: each
/// replaces every occurrence of its first text by its second.
pub open spec fn spoken_rule(k: int) -> (Seq<char>, Seq<char>) {
    if k == 0 { ("."@, ""@) }
    else if k == 1 { (","@, ""@) }
    else if k == 2 { ("-"@, ""@) }
    else if k == 3 { ("'"@, ""@) }
    else if k == 4 { ("nitaxseefour"@, "nxc4"@) }
    else if k == 5 { ("96"@, "nf6"@) }
    else if k == 6 { ("takes on"@, "x"@) }
    else if k == 7 { ("captures on"@, "x"@) }
    else if k == 8 { ("takes"@, "x"@) }
    else if k == 9 { ("captures"@, "x"@) }
    else if k == 10 { ("kills"@, "x"@) }
    else if k == 11 { ("eats"@, "x"@) }
    else if k == 12 { ("cross"@, "x"@) }
    else if k == 13 { ("tax"@, "x"@) }
    else if k == 14 { ("into"@, "x"@) }
    else if k == 15 { ("knight"@, "n"@) }
    else if k == 16 { ("night"@, "n"@) }
    else if k == 17 { ("nite"@, "n"@) }
    else if k == 18 { ("queen"@, "q"@) }
    else if k == 19 { ("bishop"@, "b"@) }
    else if k == 20 { ("rook"@, "r"@) }
    else if k == 21 { ("ruk"@, "r"@) }
    else if k == 22 { ("king"@, "k"@) }
    else if k == 23 { ("pawn"@, ""@) }
    else if k == 24 { (" to "@, " "@) }
    else if k == 25 { (" on "@, " "@) }
    else if k == 26 { (" the "@, " "@) }
    else if k == 27 { (" one"@, "1"@) }
    else if k == 28 { (" two"@, "2"@) }
    else if k == 29 { (" too"@, "2"@) }
    else if k == 30 { (" three"@, "3"@) }
    else if k == 31 { (" tree"@, "3"@) }
    else if k == 32 { (" four"@, "4"@) }
    else if k == 33 { (" for"@, "4"@) }
    else if k == 34 { (" five"@, "5"@) }
    else if k == 35 { (" six"@, "6"@) }
    else if k == 36 { (" seven"@, "7"@) }
    else if k == 37 { (" eight"@, "8"@) }
    else if k == 38 { ("nine"@, "n"@) }
    else if k == 39 { ("9"@, "n"@) }
    else { (" "@, ""@) }
}

fn spoken_rule_at(k: usize) -> (r: (&'static str, &'static str))
    requires
        k < spoken_rule_count(),
    ensures
        (r.0@, r.1@) == spoken_rule(k as int),
{
    if k == 0 { (".", "") }
    else if k == 1 { (",", "") }
    else if k == 2 { ("-", "") }
    else if k == 3 { ("'", "") }
    else if k == 4 { ("nitaxseefour", "nxc4") }
    else if k == 5 { ("96", "nf6") }
    else if k == 6 { ("takes on", "x") }
    else if k == 7 { ("captures on", "x") }
    else if k == 8 { ("takes", "x") }
    else if k == 9 { ("captures", "x") }
    else if k == 10 { ("kills", "x") }
    else if k == 11 { ("eats", "x") }
    else if k == 12 { ("cross", "x") }
    else if k == 13 { ("tax", "x") }
    else if k == 14 { ("into", "x") }
    else if k == 15 { ("knight", "n") }
    else if k == 16 { ("night", "n") }
    else if k == 17 { ("nite", "n") }
    else if k == 18 { ("queen", "q") }
    else if k == 19 { ("bishop", "b") }
    else if k == 20 { ("rook", "r") }
    else if k == 21 { ("ruk", "r") }
    else if k == 22 { ("king", "k") }
    else if k == 23 { ("pawn", "") }
    else if k == 24 { (" to ", " ") }
    else if k == 25 { (" on ", " ") }
    else if k == 26 { (" the ", " ") }
    else if k == 27 { (" one", "1") }
    else if k == 28 { (" two", "2") }
    else if k == 29 { (" too", "2") }
    else if k == 30 { (" three", "3") }
    else if k == 31 { (" tree", "3") }
    else if k == 32 { (" four", "4") }
    else if k == 33 { (" for", "4") }
    else if k == 34 { (" five", "5") }
    else if k == 35 { (" six", "6") }
    else if k == 36 { (" seven", "7") }
    else if k == 37 { (" eight", "8") }
    else if k == 38 { ("nine", "n") }
    else if k == 39 { ("9", "n") }
    else { (" ", "") }
}

/// The text after the first `n` rewriting rules.
pub open spec fn apply_spoken_rules(s: Seq<char>, n: int) -> Seq<char>
    decreases n,
{
    if n <= 0 {
        s
    } else {
        let rule = spoken_rule(n - 1);
        replaced(apply_spoken_rules(s, n - 1), rule.0, rule.1)
    }
}

/// Turns lower-cased speech into move notation by the rewriting rules.
pub fn normalize_spoken(lowered: &str) -> (r: String)
    ensures
        r@ == apply_spoken_rules(lowered@, spoken_rule_count()),
{
    let mut s = chars_of(lowered);
    let mut k: usize = 0;
    while k < 41
        invariant
            k <= 41,
            s@ == apply_spoken_rules(lowered@, k as int),
        decreases 41 - k,
    {
        let rule = spoken_rule_at(k);
        s = replace_str(&s, rule.0, rule.1);
        k = k + 1;
    }
    string_of(&s)
}

/// A spoken move, once cleaned, holds no space.
pub proof fn law_clean_move_has_no_space(s: Seq<char>)
    ensures
        !apply_spoken_rules(s, spoken_rule_count()).contains(' '),
{
    reveal_strlit(" ");
    reveal_strlit("");
    assert(" "@ =~= seq![' ']);
    assert(""@ =~= Seq::<char>::empty());
    crate::text::lemma_replaced_removes(apply_spoken_rules(s, 40), ' ');
}

/// No rewriting rule brings in a capital letter.
proof fn lemma_rule_text_no_capitals(k: int)
    requires
        0 <= k < spoken_rule_count(),
    ensures
        no_capitals(spoken_rule(k).1),
{
    reveal_strlit("");
    reveal_strlit("nxc4");
    reveal_strlit("nf6");
    reveal_strlit("x");
    reveal_strlit("n");
    reveal_strlit("q");
    reveal_strlit("b");
    reveal_strlit("r");
    reveal_strlit("k");
    reveal_strlit(" ");
    reveal_strlit("1");
    reveal_strlit("2");
    reveal_strlit("3");
    reveal_strlit("4");
    reveal_strlit("5");
    reveal_strlit("6");
    reveal_strlit("7");
    reveal_strlit("8");
}

/// Text without capitals keeps none through the first `n` rewriting rules.
proof fn lemma_rules_keep_no_capitals(s: Seq<char>, n: int)
    requires
        no_capitals(s),
        n <= spoken_rule_count(),
    ensures
        no_capitals(apply_spoken_rules(s, n)),
    decreases n,
{
    if n > 0 {
        lemma_rules_keep_no_capitals(s, n - 1);
        lemma_rule_text_no_capitals(n - 1);
        let rule = spoken_rule(n - 1);
        lemma_replaced_no_capitals(apply_spoken_rules(s, n - 1), rule.0, rule.1);
    }
}

/// The rules from the first rank word on (`" one"`) up to the last (`" eight"`)
/// replace a text by a single digit from 1 to 8.
proof fn lemma_rank_rule(k: int)
    requires
        27 <= k < 38,
    ensures
        spoken_rule(k).0.len() > 0,
        spoken_rule(k).1.len() == 1,
        '1' <= spoken_rule(k).1[0] <= '8',
{
    reveal_strlit(" one");
    reveal_strlit(" two");
    reveal_strlit(" too");
    reveal_strlit(" three");
    reveal_strlit(" tree");
    reveal_strlit(" four");
    reveal_strlit(" for");
    reveal_strlit(" five");
    reveal_strlit(" six");
    reveal_strlit(" seven");
    reveal_strlit(" eight");
    reveal_strlit("1");
    reveal_strlit("2");
    reveal_strlit("3");
    reveal_strlit("4");
    reveal_strlit("5");
    reveal_strlit("6");
    reveal_strlit("7");
    reveal_strlit("8");
}

/// A word without digits, read by rule `k0`, is gone after rules `k0` to `n - 1`.
proof fn lemma_rank_word_gone(s: Seq<char>, w: Seq<char>, k0: int, n: int)
    requires
        27 <= k0 < n <= 38,
        spoken_rule(k0).0 == w,
        w.len() > 0,
        forall|j: int| 0 <= j < w.len() ==> !('1' <= #[trigger] w[j] <= '8'),
    ensures
        !contains_text(apply_spoken_rules(s, n), w),
    decreases n,
{
    lemma_rank_rule(n - 1);
    let rule = spoken_rule(n - 1);
    assert(disjoint_chars(rule.1, w)) by {
        assert forall|i: int, j: int| #![trigger rule.1[i], w[j]] 0 <= i < rule.1.len() && 0 <= j < w.len() implies rule.1[i] != w[j] by {
            assert(i == 0);
        }
    }
    if n - 1 > k0 {
        lemma_rank_word_gone(s, w, k0, n - 1);
    }
    lemma_replaced_leaves_none(apply_spoken_rules(s, n - 1), rule.0, rule.1, w);
}

/// Every spoken rank word is read: once the rank words have been replaced
/// by their digits (the rules before "nine", "9" and the dropping of
/// spaces), none of " one", " two", " too", " three", " tree", " four",
/// " for", " five", " six", " seven" and " eight" is left, whatever was said.
pub proof fn law_rank_words_read(s: Seq<char>)
    ensures
        !contains_text(apply_spoken_rules(s, 38), " one"@),
        !contains_text(apply_spoken_rules(s, 38), " two"@),
        !contains_text(apply_spoken_rules(s, 38), " too"@),
        !contains_text(apply_spoken_rules(s, 38), " three"@),
        !contains_text(apply_spoken_rules(s, 38), " tree"@),
        !contains_text(apply_spoken_rules(s, 38), " four"@),
        !contains_text(apply_spoken_rules(s, 38), " for"@),
        !contains_text(apply_spoken_rules(s, 38), " five"@),
        !contains_text(apply_spoken_rules(s, 38), " six"@),
        !contains_text(apply_spoken_rules(s, 38), " seven"@),
        !contains_text(apply_spoken_rules(s, 38), " eight"@),
{
    reveal_strlit(" one");
    reveal_strlit(" two");
    reveal_strlit(" too");
    reveal_strlit(" three");
    reveal_strlit(" tree");
    reveal_strlit(" four");
    reveal_strlit(" for");
    reveal_strlit(" five");
    reveal_strlit(" six");
    reveal_strlit(" seven");
    reveal_strlit(" eight");
    lemma_rank_word_gone(s, " one"@, 27, 38);
    lemma_rank_word_gone(s, " two"@, 28, 38);
    lemma_rank_word_gone(s, " too"@, 29, 38);
    lemma_rank_word_gone(s, " three"@, 30, 38);
    lemma_rank_word_gone(s, " tree"@, 31, 38);
    lemma_rank_word_gone(s, " four"@, 32, 38);
    lemma_rank_word_gone(s, " for"@, 33, 38);
    lemma_rank_word_gone(s, " five"@, 34, 38);
    lemma_rank_word_gone(s, " six"@, 35, 38);
    lemma_rank_word_gone(s, " seven"@, 36, 38);
    lemma_rank_word_gone(s, " eight"@, 37, 38);
}

/// Each spoken rank word is read as its own digit: " one" as 1, " two" and
/// " too" as 2, " three" and " tree" as 3, " four" and " for" as 4, " five"
/// as 5, " six" as 6, " seven" as 7 and " eight" as 8.
pub proof fn law_rank_word_digits()
    ensures
        exists|k: int| 0 <= k < spoken_rule_count() && spoken_rule(k) == (" one"@, "1"@),
        exists|k: int| 0 <= k < spoken_rule_count() && spoken_rule(k) == (" two"@, "2"@),
        exists|k: int| 0 <= k < spoken_rule_count() && spoken_rule(k) == (" too"@, "2"@),
        exists|k: int| 0 <= k < spoken_rule_count() && spoken_rule(k) == (" three"@, "3"@),
        exists|k: int| 0 <= k < spoken_rule_count() && spoken_rule(k) == (" tree"@, "3"@),
        exists|k: int| 0 <= k < spoken_rule_count() && spoken_rule(k) == (" four"@, "4"@),
        exists|k: int| 0 <= k < spoken_rule_count() && spoken_rule(k) == (" for"@, "4"@),
        exists|k: int| 0 <= k < spoken_rule_count() && spoken_rule(k) == (" five"@, "5"@),
        exists|k: int| 0 <= k < spoken_rule_count() && spoken_rule(k) == (" six"@, "6"@),
        exists|k: int| 0 <= k < spoken_rule_count() && spoken_rule(k) == (" seven"@, "7"@),
        exists|k: int| 0 <= k < spoken_rule_count() && spoken_rule(k) == (" eight"@, "8"@),
{
    assert(spoken_rule(27) == (" one"@, "1"@));
    assert(spoken_rule(28) == (" two"@, "2"@));
    assert(spoken_rule(29) == (" too"@, "2"@));
    assert(spoken_rule(30) == (" three"@, "3"@));
    assert(spoken_rule(31) == (" tree"@, "3"@));
    assert(spoken_rule(32) == (" four"@, "4"@));
    assert(spoken_rule(33) == (" for"@, "4"@));
    assert(spoken_rule(34) == (" five"@, "5"@));
    assert(spoken_rule(35) == (" six"@, "6"@));
    assert(spoken_rule(36) == (" seven"@, "7"@));
    assert(spoken_rule(37) == (" eight"@, "8"@));
}

/// A move cleaned from lower-cased speech holds no capital letter.
pub proof fn law_clean_move_has_no_capitals(s: Seq<char>)
    ensures
        no_capitals(apply_spoken_rules(ascii_lowered(s), spoken_rule_count())),
{
    lemma_ascii_lowered_no_capitals(s);
    lemma_rules_keep_no_capitals(ascii_lowered(s), spoken_rule_count());
}

/// Letter case in speech does not matter: two utterances that differ only in
/// the case of their ASCII letters clean to the same move.
pub proof fn law_spoken_case_insensitive(s: Seq<char>, t: Seq<char>)
    requires
        eq_ignore_ascii_case(s, t),
    ensures
        apply_spoken_rules(ascii_lowered(s), spoken_rule_count()) == apply_spoken_rules(
            ascii_lowered(t),
            spoken_rule_count(),
        ),
{
    assert(ascii_lowered(s) =~= ascii_lowered(t));
}

/// `clean_spoken_move`: lower-cases the speech, then applies the rewriting
/// rules. Of ASCII speech the lower-casing is spelled out.
pub fn clean_spoken_move(spoken: &str) -> (r: String)
    ensures
        r@ == apply_spoken_rules(unicode_lowercase(spoken@), spoken_rule_count()),
        is_ascii_text(spoken@) ==> r@ == apply_spoken_rules(ascii_lowered(spoken@), spoken_rule_count()),
{
    let lowered = lowercase(spoken);
    normalize_spoken(lowered.as_str())
}

// ---------------------------------------------------------------------
// The speech dialog's answer
// ---------------------------------------------------------------------

/// The text recorded by the speech dialog: what follows the first
/// `"text": "` up to the next quote, or nothing when either is missing.
pub open spec fn dialog_text(output: Seq<char>) -> Seq<char> {
    match find_from(output, "\"text\": \""@, 0) {
        Some(start) => {
            let after = output.skip(start + 9);
            match find_from(after, "\""@, 0) {
                Some(end) => after.take(end),
                None => Seq::empty(),
            }
        },
        None => Seq::empty(),
    }
}

/// What the dialog heard, or the empty text when it heard only silence
/// (nothing but white space).
pub open spec fn heard_move(output: Seq<char>) -> Seq<char> {
    if trimmed(dialog_text(output)).len() == 0 {
        Seq::empty()
    } else {
        dialog_text(output)
    }
}

/// Extracts the spoken move from the JSON answer of the speech dialog.
pub fn extract_spoken_text(output: &str) -> (r: String)
    ensures
        r@ == heard_move(output@),
{
    let out = chars_of(output);
    let key = chars_of("\"text\": \"");
    proof {
        reveal_strlit("\"text\": \"");
    }
    let mut extracted: Vec<char> = Vec::new();
    match find_chars(&out, &key) {
        Some(start) => {
            let after = slice_chars(&out, start + 9, out.len());
            assert(after@ =~= out@.skip(start + 9));
            let quote = chars_of("\"");
            match find_chars(&after, &quote) {
                Some(end) => {
                    extracted = slice_chars(&after, 0, end);
                    assert(extracted@ =~= after@.take(end as int));
                },
                None => {},
            }
        },
        None => {},
    }
    let t = trim(&extracted);
    if t.len() == 0 {
        let empty: Vec<char> = Vec::new();
        assert(empty@ =~= heard_move(output@));
        string_of(&empty)
    } else {
        string_of(&extracted)
    }
}

} // verus!
