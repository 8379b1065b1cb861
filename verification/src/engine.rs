//! Talking to a UCI chess engine: the commands sent, and what is read from
//! its answers while it searches.
use vstd::prelude::*;
use crate::text::{
    chars_equal, chars_equal_str, chars_of, is_space, is_space_char, joined, occurs_at, push_all,
    push_decimal, push_str, decimal, slice_chars, string_of, trim, trimmed,
};

verus! {

broadcast use crate::text::lemma_chars_deep_view;

// ---------------------------------------------------------------------
// Words of a line (std's `str::split_whitespace`)
// ---------------------------------------------------------------------

/// The end of the word that starts at `i`: the first white space at or after `i`.
pub open spec fn word_end(s: Seq<char>, i: int) -> int
    decreases s.len() - i,
{
    if i < 0 || i >= s.len() || is_space(s[i]) {
        i
    } else {
        word_end(s, i + 1)
    }
}

pub proof fn lemma_word_end(s: Seq<char>, i: int)
    requires
        0 <= i <= s.len(),
    ensures
        i <= word_end(s, i) <= s.len(),
        forall|k: int| i <= k < word_end(s, i) ==> !is_space(#[trigger] s[k]),
        word_end(s, i) < s.len() ==> is_space(s[word_end(s, i)]),
    decreases s.len() - i,
{
    if i < s.len() && !is_space(s[i]) {
        lemma_word_end(s, i + 1);
    }
}

/// The words of `s` from position `i` on: the maximal runs of characters
/// that are not white space.
pub open spec fn words_from(s: Seq<char>, i: int) -> Seq<Seq<char>>
    decreases s.len() - i,
{
    if i < 0 || i >= s.len() {
        Seq::empty()
    } else if is_space(s[i]) {
        words_from(s, i + 1)
    } else {
        let e = word_end(s, i + 1);
        proof {
            lemma_word_end(s, i + 1);
        }
        seq![s.subrange(i, e)] + words_from(s, e)
    }
}

/// The words of `s`, in order.
pub open spec fn words(s: Seq<char>) -> Seq<Seq<char>> {
    words_from(s, 0)
}

/// `str::split_whitespace` on a character vector.
pub fn split_words(s: &Vec<char>) -> (r: Vec<Vec<char>>)
    ensures
        r.deep_view() == words(s@),
{
    let n = s.len();
    let mut out: Vec<Vec<char>> = Vec::new();
    let mut i: usize = 0;
    while i < n
        invariant
            n == s.len(),
            i <= n,
            out.deep_view() + words_from(s@, i as int) == words(s@),
        decreases n - i,
    {
        if is_space_char(s[i]) {
            i = i + 1;
        } else {
            let mut e: usize = i + 1;
            while e < n && !is_space_char(s[e])
                invariant
                    i < e <= n,
                    n == s.len(),
                    word_end(s@, e as int) == word_end(s@, i + 1),
                decreases n - e,
            {
                e = e + 1;
            }
            let w = slice_chars(s, i, e);
            let ghost before = out.deep_view();
            out.push(w);
            assert(out.deep_view() =~= before.push(w.deep_view()));
            assert(out.deep_view() + words_from(s@, e as int) =~= before + words_from(s@, i as int));
            i = e;
        }
    }
    assert(out.deep_view() + words_from(s@, n as int) =~= out.deep_view());
    out
}

/// The position of the first word equal to `w`.
pub open spec fn position_of(parts: Seq<Seq<char>>, w: Seq<char>) -> Option<int>
    decreases parts.len(),
{
    if parts.len() == 0 {
        None
    } else {
        match position_of(parts.drop_last(), w) {
            Some(k) => Some(k),
            None => if parts.last() == w {
                Some(parts.len() - 1)
            } else {
                None
            },
        }
    }
}

fn find_word(parts: &Vec<Vec<char>>, w: &str) -> (r: Option<usize>)
    ensures
        r matches Some(k) ==> position_of(parts.deep_view(), w@) == Some(k as int) && k
            < parts.len(),
        r is None ==> position_of(parts.deep_view(), w@) is None,
{
    let wv = chars_of(w);
    let mut i: usize = 0;
    while i < parts.len()
        invariant
            i <= parts.len(),
            wv@ == w@,
            position_of(parts.deep_view().take(i as int), w@) is None,
        decreases parts.len() - i,
    {
        assert(parts.deep_view().take(i + 1).drop_last() =~= parts.deep_view().take(i as int));
        assert(parts.deep_view()[i as int] == parts@[i as int].deep_view());
        if chars_equal(&parts[i], &wv) {
            proof {
                assert(parts.deep_view().take(i + 1).last() == parts.deep_view()[i as int]);
                lemma_take_position(parts.deep_view(), w@, i as int);
            }
            return Some(i);
        }
        i = i + 1;
    }
    assert(parts.deep_view().take(parts.len() as int) =~= parts.deep_view());
    None
}

proof fn lemma_take_position(parts: Seq<Seq<char>>, w: Seq<char>, i: int)
    requires
        0 <= i < parts.len(),
        position_of(parts.take(i + 1), w) == Some(i),
    ensures
        position_of(parts, w) == Some(i),
    decreases parts.len(),
{
    if parts.len() > i + 1 {
        assert(parts.drop_last().take(i + 1) =~= parts.take(i + 1));
        lemma_take_position(parts.drop_last(), w, i);
    } else {
        assert(parts.take(i + 1) =~= parts);
    }
}

// ---------------------------------------------------------------------
// Integers in text (std's `str::parse::<i32>`)
// ---------------------------------------------------------------------

pub open spec fn is_digit(c: char) -> bool {
    '0' <= c && c <= '9'
}

/// The value of a run of decimal digits.
pub open spec fn digits_value(d: Seq<char>) -> int
    decreases d.len(),
{
    if d.len() == 0 {
        0
    } else {
        digits_value(d.drop_last()) * 10 + (d.last() as int - '0' as int)
    }
}

pub open spec fn all_digits(d: Seq<char>) -> bool {
    d.len() > 0 && forall|i: int| 0 <= i < d.len() ==> is_digit(#[trigger] d[i])
}

/// The integer written in `s`: an optional sign and one or more digits.
pub open spec fn parse_int(s: Seq<char>) -> Option<int> {
    if s.len() > 0 && s[0] == '-' && all_digits(s.drop_first()) {
        Some(-digits_value(s.drop_first()))
    } else if s.len() > 0 && s[0] == '+' && all_digits(s.drop_first()) {
        Some(digits_value(s.drop_first()))
    } else if all_digits(s) {
        Some(digits_value(s))
    } else {
        None
    }
}

/// The `i32` written in `s`, if it is one.
pub open spec fn parse_i32(s: Seq<char>) -> Option<i32> {
    match parse_int(s) {
        Some(v) => if i32::MIN <= v <= i32::MAX {
            Some(v as i32)
        } else {
            None
        },
        None => None,
    }
}

proof fn lemma_digits_value_grows(d: Seq<char>, k: int)
    requires
        0 <= k <= d.len(),
        forall|i: int| 0 <= i < d.len() ==> is_digit(#[trigger] d[i]),
    ensures
        digits_value(d) >= digits_value(d.take(k)) >= 0,
    decreases d.len(),
{
    if d.len() > 0 {
        if k == d.len() {
            assert(d.take(k) =~= d);
            lemma_digits_value_grows(d.drop_last(), d.len() - 1);
            assert(d.drop_last().take(d.len() - 1) =~= d.drop_last());
        } else {
            lemma_digits_value_grows(d.drop_last(), k);
            assert(d.drop_last().take(k) =~= d.take(k));
        }
    } else {
        assert(d.take(k) =~= d);
    }
}

/// Reads an `i32` from `s` the way `str::parse::<i32>` does.
pub fn parse_i32_chars(s: &Vec<char>) -> (r: Option<i32>)
    ensures
        r == parse_i32(s@),
{
    let n = s.len();
    let mut start: usize = 0;
    let mut negative = false;
    if n > 0 && (s[0] == '-' || s[0] == '+') {
        negative = s[0] == '-';
        start = 1;
    }
    let ghost d = s@.skip(start as int);
    proof {
        assert(start == 1 ==> d =~= s@.drop_first());
        assert(start == 0 ==> d =~= s@);
        if start == 1 {
            assert(!is_digit(s@[0]));
            assert(!all_digits(s@));
        }
        assert(parse_int(s@) == if all_digits(d) {
            Some(
                if negative {
                    -digits_value(d)
                } else {
                    digits_value(d)
                },
            )
        } else {
            None::<int>
        });
    }
    if start >= n {
        assert(!all_digits(d));
        return None;
    }
    let mut value: i64 = 0;
    let mut i: usize = start;
    while i < n
        invariant
            n == s.len(),
            start <= i <= n,
            start < n,
            d == s@.skip(start as int),
            value == digits_value(d.take(i - start)),
            0 <= value <= 2147483648,
            forall|k: int| 0 <= k < i - start ==> is_digit(#[trigger] d[k]),
            parse_int(s@) == if all_digits(d) {
                Some(
                    if negative {
                        -digits_value(d)
                    } else {
                        digits_value(d)
                    },
                )
            } else {
                None::<int>
            },
        decreases n - i,
    {
        let c = s[i];
        if !('0' <= c && c <= '9') {
            assert(!is_digit(d[i - start]));
            assert(!all_digits(d));
            return None;
        }
        let dv: i64 = (c as u32 - '0' as u32) as i64;
        assert(d.take(i - start + 1).drop_last() =~= d.take(i - start));
        let next = value * 10 + dv;
        if next > 2147483648 {
            // The value already exceeds what an i32 can hold, whatever follows.
            proof {
                let k = i - start + 1;
                if all_digits(d) {
                    lemma_digits_value_grows(d, k);
                }
            }
            return None;
        }
        value = next;
        i = i + 1;
    }
    assert(d.take(n - start) =~= d);
    assert(all_digits(d));
    if negative {
        Some((-value) as i32)
    } else if value > 2147483647 {
        None
    } else {
        Some(value as i32)
    }
}

// ---------------------------------------------------------------------
// Commands
// ---------------------------------------------------------------------

/// The command that sets up the position after the moves played, given in
/// UCI notation: "position startpos", then " moves " and the moves
/// separated by spaces, when that text is not empty.
pub open spec fn position_text(history: Seq<Seq<char>>) -> Seq<char> {
    let moves = joined(history, " "@);
    if moves.len() == 0 {
        "position startpos"@
    } else {
        "position startpos moves "@ + moves
    }
}

/// The `position` command for the moves played so far.
pub fn position_command(history: &Vec<String>) -> (r: String)
    ensures
        r@ == position_text(history.deep_view()),
{
    let ghost h = history.deep_view();
    let mut moves: Vec<char> = Vec::new();
    let mut i: usize = 0;
    while i < history.len()
        invariant
            i <= history.len(),
            h == history.deep_view(),
            moves@ == joined(h.take(i as int), " "@),
        decreases history.len() - i,
    {
        proof {
            crate::text::lemma_joined_push(h.take(i as int), " "@, h[i as int]);
            assert(h.take(i + 1) =~= h.take(i as int).push(h[i as int]));
        }
        if i > 0 {
            push_str(&mut moves, " ");
        }
        let w = chars_of(history[i].as_str());
        push_all(&mut moves, &w);
        i = i + 1;
    }
    assert(h.take(history.len() as int) =~= h);
    let mut out: Vec<char> = Vec::new();
    if moves.len() == 0 {
        push_str(&mut out, "position startpos");
    } else {
        push_str(&mut out, "position startpos moves ");
        push_all(&mut out, &moves);
    }
    string_of(&out)
}

/// The command that starts a search to the given depth.
pub fn go_command(depth: u32) -> (r: String)
    ensures
        r@ == "go depth "@ + decimal(depth as nat),
{
    let mut out = chars_of("go depth ");
    push_decimal(&mut out, depth as u64);
    string_of(&out)
}

// ---------------------------------------------------------------------
// Reading a search
// ---------------------------------------------------------------------

/// What is known of a search so far: the score in centipawns for the side
/// to move, and the first three moves of the principal variation.
pub struct EngineSearch {
    pub cp: i32,
    pub best: String,
    pub reply: String,
    pub follow: String,
}

/// The abstract state of a search.
pub struct SearchView {
    pub cp: int,
    pub best: Seq<char>,
    pub reply: Seq<char>,
    pub follow: Seq<char>,
}

impl View for EngineSearch {
    type V = SearchView;

    open spec fn view(&self) -> SearchView {
        SearchView { cp: self.cp as int, best: self.best@, reply: self.reply@, follow: self.follow@ }
    }
}

/// The score of a mate in `m` moves (negative when the side to move is mated).
pub open spec fn mate_score(m: int) -> int {
    if m > 0 {
        10000 - m * 100
    } else {
        -10000 - m * 100
    }
}

/// The number after `key`, read as an `i32` (0 when it is not one), if the
/// words hold `key` followed by something.
pub open spec fn number_after(parts: Seq<Seq<char>>, key: Seq<char>) -> Option<int> {
    match position_of(parts, key) {
        Some(p) => if p + 1 < parts.len() {
            Some(
                match parse_i32(parts[p + 1]) {
                    Some(v) => v as int,
                    None => 0,
                },
            )
        } else {
            None
        },
        None => None,
    }
}

/// The score an `info depth` line gives, if it gives one: the centipawns
/// after "cp", or else the mate after "mate".
pub open spec fn info_score(parts: Seq<Seq<char>>) -> Option<int> {
    if position_of(parts, "cp"@) is Some {
        number_after(parts, "cp"@)
    } else {
        match number_after(parts, "mate"@) {
            Some(m) => Some(mate_score(m)),
            None => None,
        }
    }
}

/// The state after an `info depth` line with the given words.
pub open spec fn after_info(v: SearchView, parts: Seq<Seq<char>>) -> SearchView {
    let cp = match info_score(parts) {
        Some(c) => c,
        None => v.cp,
    };
    match position_of(parts, "pv"@) {
        Some(p) => SearchView {
            cp: cp,
            best: if p + 1 < parts.len() {
                parts[p + 1]
            } else {
                v.best
            },
            reply: if p + 2 < parts.len() {
                parts[p + 2]
            } else {
                v.reply
            },
            follow: if p + 3 < parts.len() {
                parts[p + 3]
            } else {
                v.follow
            },
        },
        None => SearchView { cp: cp, ..v },
    }
}

/// Whether the line ends the search.
pub open spec fn ends_search(line: Seq<char>) -> bool {
    "bestmove"@.is_prefix_of(trimmed(line))
}

/// The state after reading one line of the engine's output.
pub open spec fn after_line(v: SearchView, line: Seq<char>) -> SearchView {
    let t = trimmed(line);
    let v1 = if "info depth"@.is_prefix_of(t) {
        after_info(v, words(t))
    } else {
        v
    };
    if ends_search(line) && v1.best.len() == 0 {
        SearchView {
            best: if words(t).len() > 1 {
                words(t)[1]
            } else {
                Seq::empty()
            },
            ..v1
        }
    } else {
        v1
    }
}

/// Whether every score the line may give fits an `i32`.
pub open spec fn line_fits(line: Seq<char>) -> bool {
    let t = trimmed(line);
    "info depth"@.is_prefix_of(t) ==> match info_score(words(t)) {
        Some(c) => i32::MIN <= c <= i32::MAX,
        None => true,
    }
}

fn starts_with_str(v: &Vec<char>, p: &str) -> (r: bool)
    ensures
        r == p@.is_prefix_of(v@),
{
    let pv = chars_of(p);
    assert(v@.skip(0) =~= v@);
    occurs_at(v, 0, &pv)
}

fn number_after_exec(parts: &Vec<Vec<char>>, key: &str) -> (r: Option<i64>)
    ensures
        r matches Some(x) ==> number_after(parts.deep_view(), key@) == Some(x as int),
        r is None ==> number_after(parts.deep_view(), key@) is None,
        r matches Some(x) ==> i32::MIN <= x <= i32::MAX,
{
    match find_word(parts, key) {
        Some(p) => {
            if p + 1 < parts.len() {
                assert(parts.deep_view()[p + 1] == parts[p + 1 as int]@);
                match parse_i32_chars(&parts[p + 1]) {
                    Some(v) => Some(v as i64),
                    None => Some(0),
                }
            } else {
                None
            }
        },
        None => None,
    }
}

impl EngineSearch {
    /// A search about which nothing is known yet.
    pub fn new() -> (r: EngineSearch)
        ensures
            r@ == (SearchView { cp: 0, best: Seq::empty(), reply: Seq::empty(), follow: Seq::empty() }),
    {
        EngineSearch {
            cp: 0,
            best: string_of(&Vec::new()),
            reply: string_of(&Vec::new()),
            follow: string_of(&Vec::new()),
        }
    }

    /// Whether `feed` can take the line: no score in it overflows an `i32`.
    pub fn accepts(line: &str) -> (r: bool)
        ensures
            r == line_fits(line@),
    {
        let t = trim(&chars_of(line));
        if !starts_with_str(&t, "info depth") {
            return true;
        }
        let parts = split_words(&t);
        match find_word(&parts, "cp") {
            Some(_) => true,
            None => match number_after_exec(&parts, "mate") {
                Some(m) => {
                    let c: i64 = if m > 0 {
                        10000 - m * 100
                    } else {
                        -10000 - m * 100
                    };
                    -2147483648 <= c && c <= 2147483647
                },
                None => true,
            },
        }
    }

    /// Takes in an `info depth` line with the given words.
    fn take_info(&mut self, parts: &Vec<Vec<char>>)
        requires
            match info_score(parts.deep_view()) {
                Some(c) => i32::MIN <= c <= i32::MAX,
                None => true,
            },
        ensures
            final(self)@ == after_info(old(self)@, parts.deep_view()),
    {
        let ghost pv = parts.deep_view();
        let score: Option<i64> = match find_word(parts, "cp") {
            Some(_) => number_after_exec(parts, "cp"),
            None => match number_after_exec(parts, "mate") {
                Some(m) => Some(
                    if m > 0 {
                        10000 - m * 100
                    } else {
                        -10000 - m * 100
                    },
                ),
                None => None,
            },
        };
        assert(score matches Some(c) ==> info_score(pv) == Some(c as int));
        assert(score is None ==> info_score(pv) is None);
        match score {
            Some(c) => {
                self.cp = c as i32;
            },
            None => {},
        }
        match find_word(parts, "pv") {
            Some(p) => {
                let rest = parts.len() - p;
                if rest > 1 {
                    self.best = string_of(&parts[p + 1]);
                }
                if rest > 2 {
                    self.reply = string_of(&parts[p + 2]);
                }
                if rest > 3 {
                    self.follow = string_of(&parts[p + 3]);
                }
            },
            None => {},
        }
    }

    /// Reads one line of the engine's output while it searches; returns
    /// whether the line ends the search.
    pub fn feed(&mut self, line: &str) -> (done: bool)
        requires
            line_fits(line@),
        ensures
            final(self)@ == after_line(old(self)@, line@),
            done == ends_search(line@),
    {
        let t = trim(&chars_of(line));
        if starts_with_str(&t, "info depth") {
            let parts = split_words(&t);
            self.take_info(&parts);
        }
        let done = starts_with_str(&t, "bestmove");
        if done {
            if chars_of(self.best.as_str()).len() == 0 {
                let parts = split_words(&t);
                if parts.len() > 1 {
                    self.best = string_of(&parts[1]);
                } else {
                    self.best = string_of(&Vec::new());
                }
            }
        }
        done
    }

    /// The score for White's side when `is_white_move`, else for Black's.
    pub fn eval_score(&self, is_white_move: bool) -> (r: i32)
        requires
            is_white_move || self.cp != i32::MIN,
        ensures
            r == if is_white_move {
                self.cp as int
            } else {
                -self.cp
            },
    {
        if is_white_move {
            self.cp
        } else {
            -self.cp
        }
    }
}

} // verus!
