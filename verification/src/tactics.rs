//! The coach's one-sentence description of the idea behind a move.
use vstd::prelude::*;
use crate::board::{
    attackers, first_on_ray, get_attackers, is_attacked, is_square_attacked, king_step,
    king_step_at, knight_jump, knight_jump_at, name_of, offset_sq, offset_square, opposite, other,
    pawn_dir, piece_name, piece_value, ray_dir, ray_dir_at, ray_first, value_of, Board, Color,
    Piece, Role, file_of, rank_of,
};
use crate::text::{chars_of, joined, lemma_joined_push, push_all, push_str, string_of};

verus! {

/// What the coach needs to know of a position.
pub struct PositionFacts {
    /// The pieces on the board.
    pub board: Board,
    /// The side to move.
    pub turn: Color,
    /// The number of the current full move, starting at 1.
    pub fullmoves: u32,
    /// How many legal moves the side to move has.
    pub legal_moves: usize,
    /// Whether the side to move is in check.
    pub in_check: bool,
    /// Whether the side to move is stalemated.
    pub stalemate: bool,
    /// The squares of the pieces giving check, each once.
    pub checkers: Vec<u8>,
}

/// What the coach needs to know of a move.
#[derive(Clone, Copy, Debug)]
pub struct MoveFacts {
    /// The piece that moves (the king when castling, the pawn when promoting).
    pub role: Role,
    /// The square it leaves, if any.
    pub from: Option<u8>,
    /// The square it goes to (the rook's square when castling).
    pub to: u8,
    /// The piece it captures, if any.
    pub capture: Option<Role>,
    /// Whether it captures en passant.
    pub en_passant: bool,
    /// Whether it castles.
    pub castle: bool,
    /// The piece a pawn promotes to, if any.
    pub promotion: Option<Role>,
}

/// The abstract content of `PositionFacts`.
pub struct PositionView {
    pub board: Seq<Option<Piece>>,
    pub turn: Color,
    pub fullmoves: int,
    pub legal_moves: int,
    pub in_check: bool,
    pub stalemate: bool,
    pub checkers: Seq<u8>,
}

impl View for PositionFacts {
    type V = PositionView;

    open spec fn view(&self) -> PositionView {
        PositionView {
            board: self.board@,
            turn: self.turn,
            fullmoves: self.fullmoves as int,
            legal_moves: self.legal_moves as int,
            in_check: self.in_check,
            stalemate: self.stalemate,
            checkers: self.checkers@,
        }
    }
}

pub open spec fn move_ok(m: MoveFacts) -> bool {
    &&& m.to < 64
    &&& m.from matches Some(f) ==> f < 64
}

// ---------------------------------------------------------------------
// Wording
// ---------------------------------------------------------------------

/// Who makes the move: the opponent, or the move suggested to the player.
pub open spec fn actor(op: bool) -> Seq<char> {
    if op {
        "Your opponent"@
    } else {
        "This move"@
    }
}

/// Whose pieces the move works against.
pub open spec fn their(op: bool) -> Seq<char> {
    if op {
        "your"@
    } else {
        "their"@
    }
}

fn their_text(op: bool) -> (r: Vec<char>)
    ensures
        r@ == their(op),
{
    if op {
        chars_of("your")
    } else {
        chars_of("their")
    }
}

/// Whether the move captures, en passant included.
pub open spec fn is_capture(m: MoveFacts) -> bool {
    m.capture is Some || m.en_passant
}

// ---------------------------------------------------------------------
// The main phrase from the kind of move
// ---------------------------------------------------------------------

/// The phrase for a castling, a promotion or a capture; empty for any other move.
pub open spec fn kind_phrase(m: MoveFacts, op: bool) -> Seq<char> {
    if m.castle {
        if file_of(m.to as int) >= 6 {
            "castles short to connect the Rooks"@
        } else {
            "castles long to connect the Rooks"@
        }
    } else if m.promotion is Some {
        "promotes to a "@ + name_of(m.promotion->0)
    } else if m.en_passant {
        "captures "@ + their(op) + " Pawn via en passant"@
    } else if m.capture is Some {
        let c = m.capture->0;
        if value_of(m.role) == value_of(c) && value_of(c) > 0 {
            "trades a "@ + name_of(m.role) + " for "@ + their(op) + " "@ + name_of(c)
        } else {
            "captures "@ + their(op) + " "@ + name_of(c)
        }
    } else {
        Seq::empty()
    }
}

/// The first main phrase: a forced move, else the kind of move.
pub open spec fn first_primary(legal_moves: int, m: MoveFacts, op: bool) -> Seq<char> {
    if legal_moves == 1 {
        "plays the only legal forced move"@
    } else {
        kind_phrase(m, op)
    }
}

fn first_primary_text(legal_moves: usize, m: &MoveFacts, op: bool) -> (r: Vec<char>)
    requires
        move_ok(*m),
    ensures
        r@ == first_primary(legal_moves as int, *m, op),
{
    let mut out: Vec<char> = Vec::new();
    if legal_moves == 1 {
        return chars_of("plays the only legal forced move");
    }
    if m.castle {
        if m.to % 8 >= 6 {
            push_str(&mut out, "castles short to connect the Rooks");
        } else {
            push_str(&mut out, "castles long to connect the Rooks");
        }
    } else if m.promotion.is_some() {
        let promo = m.promotion.unwrap();
        push_str(&mut out, "promotes to a ");
        push_str(&mut out, piece_name(promo));
    } else if m.en_passant {
        push_str(&mut out, "captures ");
        push_all(&mut out, &their_text(op));
        push_str(&mut out, " Pawn via en passant");
    } else if m.capture.is_some() {
        let c = m.capture.unwrap();
        if piece_value(m.role) == piece_value(c) && piece_value(c) > 0 {
            push_str(&mut out, "trades a ");
            push_str(&mut out, piece_name(m.role));
            push_str(&mut out, " for ");
            push_all(&mut out, &their_text(op));
            push_str(&mut out, " ");
            push_str(&mut out, piece_name(c));
        } else {
            push_str(&mut out, "captures ");
            push_all(&mut out, &their_text(op));
            push_str(&mut out, " ");
            push_str(&mut out, piece_name(c));
        }
    }
    assert(out@ =~= first_primary(legal_moves as int, *m, op));
    out
}

// ---------------------------------------------------------------------
// Secondary phrases
// ---------------------------------------------------------------------

/// The secondary phrases gathered so far, kept joined by " and ".
struct Phrases {
    text: Vec<char>,
    count: usize,
    parts: Ghost<Seq<Seq<char>>>,
}

impl Phrases {
    spec fn wf(&self) -> bool {
        &&& self.text@ == joined(self.parts@, " and "@)
        &&& self.count == self.parts@.len()
    }

    fn new() -> (r: Phrases)
        ensures
            r.wf(),
            r.parts@ == Seq::<Seq<char>>::empty(),
    {
        Phrases { text: Vec::new(), count: 0, parts: Ghost(Seq::empty()) }
    }

    fn add(&mut self, p: &Vec<char>)
        requires
            old(self).wf(),
            old(self).count < usize::MAX,
        ensures
            final(self).wf(),
            final(self).parts@ == old(self).parts@.push(p@),
    {
        proof {
            lemma_joined_push(self.parts@, " and "@, p@);
        }
        if self.count > 0 {
            push_str(&mut self.text, " and ");
        }
        push_all(&mut self.text, p);
        self.count = self.count + 1;
        self.parts = Ghost(self.parts@.push(p@));
    }
}

/// The phrase when the move answers a check or a threat, and what becomes
/// of the main phrase.
pub open spec fn defense_primary(p: Seq<char>, before: PositionView, m: MoveFacts, is_check: bool) -> Seq<char> {
    if before.in_check && !is_check {
        if m.role == Role::King {
            if p.len() == 0 {
                "steps the King out of check"@
            } else {
                p
            }
        } else if p.len() == 0 {
            "blocks the check"@
        } else {
            p
        }
    } else if was_attacked(before, m) && !is_capture(m) {
        if p.len() == 0 {
            if m.role == Role::King {
                "steps the King out of danger"@
            } else {
                "moves the "@ + name_of(m.role) + " out of danger"@
            }
        } else {
            p
        }
    } else {
        p
    }
}

/// The secondary phrase when the move blocks a check while the main phrase
/// already says something else.
pub open spec fn defense_notes(p: Seq<char>, before: PositionView, m: MoveFacts, is_check: bool) -> Seq<Seq<char>> {
    if before.in_check && !is_check && m.role != Role::King && p.len() != 0 {
        seq!["blocks the check"@]
    } else {
        Seq::empty()
    }
}

/// Whether the moving piece stood on a square the other side attacked.
pub open spec fn was_attacked(before: PositionView, m: MoveFacts) -> bool {
    m.from matches Some(f) && is_attacked(before.board, f as int, opposite(before.turn))
}

/// The secondary phrase about the check the move gives.
pub open spec fn check_notes(after: PositionView, m: MoveFacts, is_check: bool) -> Seq<Seq<char>> {
    if !is_check {
        Seq::empty()
    } else if after.checkers.len() > 1 {
        seq!["delivers a devastating Double Check"@]
    } else if !after.checkers.contains(m.to) {
        seq!["unleashes a Discovered Check"@]
    } else {
        seq!["delivers a Check"@]
    }
}

// ---------------------------------------------------------------------
// What the moved piece sees
// ---------------------------------------------------------------------

/// How many directions a piece of `role` looks in.
pub open spec fn pattern_len(role: Role) -> int {
    match role {
        Role::Pawn => 2,
        Role::Bishop => 4,
        Role::Rook => 4,
        _ => 8,
    }
}

pub open spec fn pattern_slides(role: Role) -> bool {
    role == Role::Bishop || role == Role::Rook || role == Role::Queen
}

/// The `i`-th direction a piece of `role` of side `my` looks in.
pub open spec fn pattern_dir(role: Role, my: Color, i: int) -> (int, int) {
    match role {
        Role::Knight => knight_jump(i),
        Role::Pawn => (
            if i == 0 {
                -1int
            } else {
                1int
            },
            pawn_dir(my),
        ),
        Role::King => king_step(i),
        Role::Bishop => ray_dir(i),
        Role::Rook => ray_dir(i + 4),
        Role::Queen => ray_dir(i),
    }
}

/// The occupied square a piece of `role` on `to` sees in its `i`-th direction:
/// the first one along a line for line pieces, the square itself for others.
pub open spec fn seen_at(b: Seq<Option<Piece>>, to: int, role: Role, my: Color, i: int) -> Option<u8> {
    let d = pattern_dir(role, my, i);
    if pattern_slides(role) {
        ray_first(b, to, d.0, d.1, 1)
    } else {
        match offset_square(to, d.0, d.1) {
            Some(s) => if b[s as int] is Some {
                Some(s)
            } else {
                None
            },
            None => None,
        }
    }
}

pub open spec fn seen_from(b: Seq<Option<Piece>>, to: int, role: Role, my: Color, n: int) -> Seq<u8>
    decreases n,
{
    if n <= 0 {
        Seq::empty()
    } else {
        seen_from(b, to, role, my, n - 1) + match seen_at(b, to, role, my, n - 1) {
            Some(s) => seq![s],
            None => Seq::empty(),
        }
    }
}

/// The occupied squares a piece of `role` of side `my` standing on `to` sees, in order.
pub open spec fn seen(b: Seq<Option<Piece>>, to: int, role: Role, my: Color) -> Seq<u8> {
    seen_from(b, to, role, my, pattern_len(role))
}

fn pattern_dir_at(role: Role, my: Color, i: usize) -> (r: (i32, i32))
    requires
        i < 8,
    ensures
        (r.0 as int, r.1 as int) == pattern_dir(role, my, i as int),
        -2 <= r.0 <= 2,
        -2 <= r.1 <= 2,
        pattern_slides(role) ==> -1 <= r.0 <= 1 && -1 <= r.1 <= 1,
{
    match role {
        Role::Knight => knight_jump_at(i),
        Role::Pawn => (
            if i == 0 {
                -1
            } else {
                1
            },
            if my == Color::White {
                1
            } else {
                -1
            },
        ),
        Role::King => king_step_at(i),
        Role::Bishop => ray_dir_at(i),
        Role::Rook => ray_dir_at(i + 4),
        Role::Queen => ray_dir_at(i),
    }
}

fn seen_squares(b: &Board, to: u8, role: Role, my: Color) -> (r: Vec<u8>)
    requires
        to < 64,
    ensures
        r@ == seen(b@, to as int, role, my),
        forall|k: int| 0 <= k < r@.len() ==> r@[k] < 64,
{
    let n: usize = match role {
        Role::Pawn => 2,
        Role::Bishop => 4,
        Role::Rook => 4,
        _ => 8,
    };
    let mut out: Vec<u8> = Vec::new();
    let mut i: usize = 0;
    while i < n
        invariant
            i <= n,
            n == pattern_len(role),
            n <= 8,
            to < 64,
            out@ == seen_from(b@, to as int, role, my, i as int),
            forall|k: int| 0 <= k < out@.len() ==> out@[k] < 64,
        decreases n - i,
    {
        let d = pattern_dir_at(role, my, i);
        let slides = role == Role::Bishop || role == Role::Rook || role == Role::Queen;
        let s: Option<u8> = if slides {
            first_on_ray(b, to, d.0, d.1)
        } else {
            match offset_sq(to, d.0, d.1) {
                Some(q) => if b.get(q).is_some() {
                    Some(q)
                } else {
                    None
                },
                None => None,
            }
        };
        assert(s == seen_at(b@, to as int, role, my, i as int));
        match s {
            Some(q) => {
                out.push(q);
            },
            None => {},
        }
        i = i + 1;
        assert(out@ =~= seen_from(b@, to as int, role, my, i as int));
    }
    out
}

/// The pieces of `enemy` (kings left out) standing on the squares `sqs`, in order.
pub open spec fn enemies_among(b: Seq<Option<Piece>>, sqs: Seq<u8>, enemy: Color) -> Seq<(Role, u8)>
    decreases sqs.len(),
{
    if sqs.len() == 0 {
        Seq::empty()
    } else {
        let s = sqs.last();
        enemies_among(b, sqs.drop_last(), enemy) + if b[s as int] matches Some(p) && p.color == enemy
            && p.role != Role::King {
            seq![(b[s as int]->0.role, s)]
        } else {
            Seq::empty()
        }
    }
}

/// The pieces of `my` standing on the squares `sqs` other than `to`, in order.
pub open spec fn friends_among(b: Seq<Option<Piece>>, sqs: Seq<u8>, my: Color, to: u8) -> Seq<(Role, u8)>
    decreases sqs.len(),
{
    if sqs.len() == 0 {
        Seq::empty()
    } else {
        let s = sqs.last();
        friends_among(b, sqs.drop_last(), my, to) + if b[s as int] matches Some(p) && p.color == my
            && s != to {
            seq![(b[s as int]->0.role, s)]
        } else {
            Seq::empty()
        }
    }
}

fn split_seen(b: &Board, sqs: &Vec<u8>, my: Color, to: u8) -> (r: (Vec<(Role, u8)>, Vec<(Role, u8)>))
    requires
        forall|k: int| 0 <= k < sqs@.len() ==> sqs@[k] < 64,
    ensures
        r.0@ == enemies_among(b@, sqs@, opposite(my)),
        r.1@ == friends_among(b@, sqs@, my, to),
        forall|k: int| 0 <= k < r.0@.len() ==> r.0@[k].1 < 64,
        forall|k: int| 0 <= k < r.1@.len() ==> r.1@[k].1 < 64,
{
    let enemy = other(my);
    let mut es: Vec<(Role, u8)> = Vec::new();
    let mut fs: Vec<(Role, u8)> = Vec::new();
    let mut i: usize = 0;
    while i < sqs.len()
        invariant
            i <= sqs.len(),
            enemy == opposite(my),
            forall|k: int| 0 <= k < sqs@.len() ==> sqs@[k] < 64,
            es@ == enemies_among(b@, sqs@.take(i as int), enemy),
            fs@ == friends_among(b@, sqs@.take(i as int), my, to),
            forall|k: int| 0 <= k < es@.len() ==> es@[k].1 < 64,
            forall|k: int| 0 <= k < fs@.len() ==> fs@[k].1 < 64,
        decreases sqs.len() - i,
    {
        let s = sqs[i];
        assert(sqs@.take(i + 1).drop_last() =~= sqs@.take(i as int));
        assert(sqs@.take(i + 1).last() == s);
        match b.get(s) {
            Some(p) => {
                if p.color == enemy && p.role != Role::King {
                    es.push((p.role, s));
                }
                if p.color == my && s != to {
                    fs.push((p.role, s));
                }
            },
            None => {},
        }
        i = i + 1;
        assert(es@ =~= enemies_among(b@, sqs@.take(i as int), enemy));
        assert(fs@ =~= friends_among(b@, sqs@.take(i as int), my, to));
    }
    assert(sqs@.take(sqs@.len() as int) =~= sqs@);
    (es, fs)
}

// ---------------------------------------------------------------------
// Threats
// ---------------------------------------------------------------------

/// The most valuable of the targets, the last of them when several are worth as much.
pub open spec fn last_most_valuable(t: Seq<(Role, u8)>) -> Option<(Role, u8)>
    decreases t.len(),
{
    if t.len() == 0 {
        None
    } else {
        match last_most_valuable(t.drop_last()) {
            None => Some(t.last()),
            Some(x) => if value_of(t.last().0) >= value_of(x.0) {
                Some(t.last())
            } else {
                Some(x)
            },
        }
    }
}

fn most_valuable(t: &Vec<(Role, u8)>) -> (r: Option<(Role, u8)>)
    ensures
        r == last_most_valuable(t@),
{
    let mut best: Option<(Role, u8)> = None;
    let mut i: usize = 0;
    while i < t.len()
        invariant
            i <= t.len(),
            best == last_most_valuable(t@.take(i as int)),
        decreases t.len() - i,
    {
        let x = t[i];
        assert(t@.take(i + 1).drop_last() =~= t@.take(i as int));
        match best {
            None => {
                best = Some(x);
            },
            Some(y) => {
                if piece_value(x.0) >= piece_value(y.0) {
                    best = Some(x);
                }
            },
        }
        i = i + 1;
    }
    assert(t@.take(t@.len() as int) =~= t@);
    best
}

/// The roles of the targets worth at least a minor piece, in order.
pub open spec fn majors(t: Seq<(Role, u8)>) -> Seq<Role>
    decreases t.len(),
{
    if t.len() == 0 {
        Seq::empty()
    } else {
        majors(t.drop_last()) + if value_of(t.last().0) >= 3 {
            seq![t.last().0]
        } else {
            Seq::empty()
        }
    }
}

/// Among the first `n` roles other than the one at `skip`, the index of the
/// most valuable, the first of them when several are worth as much; -1 if none.
pub open spec fn best_index(s: Seq<Role>, skip: int, n: int) -> int
    decreases n,
{
    if n <= 0 {
        -1
    } else {
        let prev = best_index(s, skip, n - 1);
        if n - 1 == skip {
            prev
        } else if prev == -1 {
            n - 1
        } else if value_of(s[n - 1]) > value_of(s[prev]) {
            n - 1
        } else {
            prev
        }
    }
}

proof fn lemma_best_index_range(s: Seq<Role>, skip: int, n: int)
    requires
        n >= 0,
    ensures
        -1 <= best_index(s, skip, n) < n,
        best_index(s, skip, n) != skip || skip == -1 && best_index(s, skip, n) == -1,
        n > 0 && !(n == 1 && skip == 0) ==> best_index(s, skip, n) >= 0,
    decreases n,
{
    if n > 0 {
        lemma_best_index_range(s, skip, n - 1);
    }
}

fn best_index_exec(s: &Vec<Role>, skip: i64) -> (r: i64)
    requires
        s@.len() < 1000,
        -1 <= skip,
    ensures
        r == best_index(s@, skip as int, s@.len() as int),
{
    let mut best: i64 = -1;
    let mut i: usize = 0;
    while i < s.len()
        invariant
            i <= s.len(),
            s@.len() < 1000,
            best == best_index(s@, skip as int, i as int),
        decreases s.len() - i,
    {
        proof {
            lemma_best_index_range(s@, skip as int, i as int);
        }
        if i as i64 == skip {
        } else if best == -1 {
            best = i as i64;
        } else if piece_value(s[i]) > piece_value(s[best as usize]) {
            best = i as i64;
        }
        i = i + 1;
    }
    best
}

/// The secondary phrase about what the moved piece now threatens.
pub open spec fn threat_notes(
    after_b: Seq<Option<Piece>>,
    m: MoveFacts,
    enemy: Color,
    op: bool,
    enemies: Seq<(Role, u8)>,
) -> Seq<Seq<char>> {
    if m.role == Role::King {
        match last_most_valuable(enemies) {
            Some(t) => if !is_attacked(after_b, t.1 as int, enemy) {
                seq!["attacks "@ + their(op) + " undefended "@ + name_of(t.0)]
            } else {
                Seq::empty()
            },
            None => Seq::empty(),
        }
    } else {
        let mj = majors(enemies);
        if mj.len() >= 2 {
            let a = best_index(mj, -1, mj.len() as int);
            let b = best_index(mj, a, mj.len() as int);
            seq!["forks "@ + their(op) + " "@ + name_of(mj[a]) + " and "@ + name_of(mj[b])]
        } else {
            match last_most_valuable(enemies) {
                Some(t) => {
                    let my_val = value_of(m.role);
                    let enemy_val = value_of(t.0);
                    if my_val == enemy_val && enemy_val > 0 {
                        seq!["challenges "@ + their(op) + " "@ + name_of(t.0) + " to a trade"@]
                    } else if my_val < enemy_val {
                        seq!["threatens "@ + their(op) + " "@ + name_of(t.0)]
                    } else if !is_attacked(after_b, t.1 as int, enemy) {
                        seq!["attacks "@ + their(op) + " undefended "@ + name_of(t.0)]
                    } else if enemy_val >= 3 {
                        seq!["applies pressure to "@ + their(op) + " "@ + name_of(t.0)]
                    } else {
                        Seq::empty()
                    }
                },
                None => Seq::empty(),
            }
        }
    }
}

fn majors_of(t: &Vec<(Role, u8)>) -> (r: Vec<Role>)
    ensures
        r@ == majors(t@),
        r@.len() <= t@.len(),
{
    let mut out: Vec<Role> = Vec::new();
    let mut i: usize = 0;
    while i < t.len()
        invariant
            i <= t.len(),
            out@ == majors(t@.take(i as int)),
            out@.len() <= i,
        decreases t.len() - i,
    {
        assert(t@.take(i + 1).drop_last() =~= t@.take(i as int));
        if piece_value(t[i].0) >= 3 {
            out.push(t[i].0);
        }
        i = i + 1;
        assert(out@ =~= majors(t@.take(i as int)));
    }
    assert(t@.take(t@.len() as int) =~= t@);
    out
}

fn add_threat_notes(
    sec: &mut Phrases,
    after: &Board,
    m: &MoveFacts,
    enemy: Color,
    op: bool,
    enemies: &Vec<(Role, u8)>,
)
    requires
        old(sec).wf(),
        old(sec).count < 100,
        enemies@.len() <= 8,
        forall|k: int| 0 <= k < enemies@.len() ==> enemies@[k].1 < 64,
    ensures
        final(sec).wf(),
        final(sec).count <= old(sec).count + 1,
        final(sec).parts@ == old(sec).parts@ + threat_notes(after@, *m, enemy, op, enemies@),
{
    let ghost notes = threat_notes(after@, *m, enemy, op, enemies@);
    let mut phrase: Vec<char> = Vec::new();
    let mut has = false;
    let target = most_valuable(enemies);
    proof {
        lemma_last_most_valuable_in(enemies@);
    }
    if m.role == Role::King {
        match target {
            Some(t) => {
                if !is_square_attacked(after, t.1, enemy) {
                    push_str(&mut phrase, "attacks ");
                    push_all(&mut phrase, &their_text(op));
                    push_str(&mut phrase, " undefended ");
                    push_str(&mut phrase, piece_name(t.0));
                    has = true;
                }
            },
            None => {},
        }
    } else {
        let mj = majors_of(enemies);
        if mj.len() >= 2 {
            let a = best_index_exec(&mj, -1);
            proof {
                lemma_best_index_range(mj@, -1, mj@.len() as int);
            }
            let b = best_index_exec(&mj, a);
            proof {
                lemma_best_index_range(mj@, a as int, mj@.len() as int);
            }
            push_str(&mut phrase, "forks ");
            push_all(&mut phrase, &their_text(op));
            push_str(&mut phrase, " ");
            push_str(&mut phrase, piece_name(mj[a as usize]));
            push_str(&mut phrase, " and ");
            push_str(&mut phrase, piece_name(mj[b as usize]));
            has = true;
        } else {
            match target {
                Some(t) => {
                    let my_val = piece_value(m.role);
                    let enemy_val = piece_value(t.0);
                    if my_val == enemy_val && enemy_val > 0 {
                        push_str(&mut phrase, "challenges ");
                        push_all(&mut phrase, &their_text(op));
                        push_str(&mut phrase, " ");
                        push_str(&mut phrase, piece_name(t.0));
                        push_str(&mut phrase, " to a trade");
                        has = true;
                    } else if my_val < enemy_val {
                        push_str(&mut phrase, "threatens ");
                        push_all(&mut phrase, &their_text(op));
                        push_str(&mut phrase, " ");
                        push_str(&mut phrase, piece_name(t.0));
                        has = true;
                    } else if !is_square_attacked(after, t.1, enemy) {
                        push_str(&mut phrase, "attacks ");
                        push_all(&mut phrase, &their_text(op));
                        push_str(&mut phrase, " undefended ");
                        push_str(&mut phrase, piece_name(t.0));
                        has = true;
                    } else if enemy_val >= 3 {
                        push_str(&mut phrase, "applies pressure to ");
                        push_all(&mut phrase, &their_text(op));
                        push_str(&mut phrase, " ");
                        push_str(&mut phrase, piece_name(t.0));
                        has = true;
                    }
                },
                None => {},
            }
        }
    }
    if has {
        assert(notes =~= seq![phrase@]);
        sec.add(&phrase);
        assert(sec.parts@ =~= old(sec).parts@ + notes);
    } else {
        assert(notes =~= Seq::<Seq<char>>::empty());
        assert(sec.parts@ =~= sec.parts@ + notes);
    }
}

proof fn lemma_last_most_valuable_in(t: Seq<(Role, u8)>)
    ensures
        last_most_valuable(t) matches Some(x) ==> t.contains(x),
    decreases t.len(),
{
    if t.len() > 0 {
        lemma_last_most_valuable_in(t.drop_last());
        if let Some(x) = last_most_valuable(t.drop_last()) {
            let k = choose|k: int| 0 <= k < t.drop_last().len() && t.drop_last()[k] == x;
            assert(t[k] == x);
        }
        assert(t[t.len() - 1] == t.last());
    }
}


// ---------------------------------------------------------------------
// Defences
// ---------------------------------------------------------------------

/// The friendly pieces the move newly defends: seen by the moved piece,
/// attacked by the other side before the move and defended by no piece then.
pub open spec fn new_defenses(before_b: Seq<Option<Piece>>, friends: Seq<(Role, u8)>, my: Color) -> Seq<Role>
    decreases friends.len(),
{
    if friends.len() == 0 {
        Seq::empty()
    } else {
        let f = friends.last();
        new_defenses(before_b, friends.drop_last(), my) + if !is_attacked(before_b, f.1 as int, my)
            && is_attacked(before_b, f.1 as int, opposite(my)) {
            seq![f.0]
        } else {
            Seq::empty()
        }
    }
}

/// The most valuable role, the last of them when several are worth as much.
pub open spec fn last_most_valuable_role(rs: Seq<Role>) -> Option<Role>
    decreases rs.len(),
{
    if rs.len() == 0 {
        None
    } else {
        match last_most_valuable_role(rs.drop_last()) {
            None => Some(rs.last()),
            Some(x) => if value_of(rs.last()) >= value_of(x) {
                Some(rs.last())
            } else {
                Some(x)
            },
        }
    }
}

/// The secondary phrase about the most valuable piece newly defended.
pub open spec fn defended_notes(nd: Seq<Role>) -> Seq<Seq<char>> {
    match last_most_valuable_role(nd) {
        Some(r) => seq!["defends the "@ + name_of(r)],
        None => Seq::empty(),
    }
}

fn new_defenses_of(before: &Board, friends: &Vec<(Role, u8)>, my: Color) -> (r: Vec<Role>)
    requires
        forall|k: int| 0 <= k < friends@.len() ==> friends@[k].1 < 64,
    ensures
        r@ == new_defenses(before@, friends@, my),
{
    let enemy = other(my);
    let mut out: Vec<Role> = Vec::new();
    let mut i: usize = 0;
    while i < friends.len()
        invariant
            i <= friends.len(),
            enemy == opposite(my),
            forall|k: int| 0 <= k < friends@.len() ==> friends@[k].1 < 64,
            out@ == new_defenses(before@, friends@.take(i as int), my),
        decreases friends.len() - i,
    {
        assert(friends@.take(i + 1).drop_last() =~= friends@.take(i as int));
        let f = friends[i];
        let was_defended = is_square_attacked(before, f.1, my);
        if !was_defended && is_square_attacked(before, f.1, enemy) {
            out.push(f.0);
        }
        i = i + 1;
        assert(out@ =~= new_defenses(before@, friends@.take(i as int), my));
    }
    assert(friends@.take(friends@.len() as int) =~= friends@);
    out
}

fn most_valuable_role(rs: &Vec<Role>) -> (r: Option<Role>)
    ensures
        r == last_most_valuable_role(rs@),
{
    let mut best: Option<Role> = None;
    let mut i: usize = 0;
    while i < rs.len()
        invariant
            i <= rs.len(),
            best == last_most_valuable_role(rs@.take(i as int)),
        decreases rs.len() - i,
    {
        assert(rs@.take(i + 1).drop_last() =~= rs@.take(i as int));
        let x = rs[i];
        match best {
            None => {
                best = Some(x);
            },
            Some(y) => {
                if piece_value(x) >= piece_value(y) {
                    best = Some(x);
                }
            },
        }
        i = i + 1;
    }
    assert(rs@.take(rs@.len() as int) =~= rs@);
    best
}

// ---------------------------------------------------------------------
// Discovered attacks
// ---------------------------------------------------------------------

/// Whether, after the move, a piece of `my` other than the one on `to`
/// attacks `sq` that did not attack it before.
pub open spec fn discovers(before_b: Seq<Option<Piece>>, after_b: Seq<Option<Piece>>, sq: int, my: Color, to: u8) -> bool {
    let now = attackers(after_b, sq, my);
    let was = attackers(before_b, sq, my);
    exists|k: int| 0 <= k < now.len() && now[k] != to && !was.contains(#[trigger] now[k])
}

/// Whether the square holds an enemy piece worth at least a minor piece
/// (not the king) that the move uncovers an attack on.
pub open spec fn uncovered_target(before_b: Seq<Option<Piece>>, after_b: Seq<Option<Piece>>, my: Color, to: u8, sq: int) -> bool {
    &&& after_b[sq] matches Some(p)
    &&& p.color == opposite(my)
    &&& value_of(p.role) >= 3
    &&& p.role != Role::King
    &&& discovers(before_b, after_b, sq, my, to)
}

/// The role of the first uncovered target on `rank`, looking from file `f` on.
pub open spec fn rank_discovery(before_b: Seq<Option<Piece>>, after_b: Seq<Option<Piece>>, my: Color, to: u8, rank: int, f: int) -> Option<Role>
    decreases 8 - f,
{
    if f < 0 || f >= 8 {
        None
    } else if uncovered_target(before_b, after_b, my, to, rank * 8 + f) {
        Some(after_b[rank * 8 + f]->0.role)
    } else {
        rank_discovery(before_b, after_b, my, to, rank, f + 1)
    }
}

/// The phrases about uncovered attacks on the first `n` ranks: at most one per rank.
pub open spec fn discovery_notes_upto(before_b: Seq<Option<Piece>>, after_b: Seq<Option<Piece>>, my: Color, to: u8, op: bool, n: int) -> Seq<Seq<char>>
    decreases n,
{
    if n <= 0 {
        Seq::empty()
    } else {
        discovery_notes_upto(before_b, after_b, my, to, op, n - 1) + match rank_discovery(before_b, after_b, my, to, n - 1, 0) {
            Some(r) => seq!["opens a discovered attack on "@ + their(op) + " "@ + name_of(r)],
            None => Seq::empty(),
        }
    }
}

/// The phrases about uncovered attacks, for a quiet move of a piece other than the king.
pub open spec fn discovery_notes(before_b: Seq<Option<Piece>>, after_b: Seq<Option<Piece>>, m: MoveFacts, my: Color, op: bool) -> Seq<Seq<char>> {
    if !is_capture(m) && m.role != Role::King {
        discovery_notes_upto(before_b, after_b, my, m.to, op, 8)
    } else {
        Seq::empty()
    }
}

fn contains_square(v: &Vec<u8>, x: u8) -> (r: bool)
    ensures
        r == v@.contains(x),
{
    let mut i: usize = 0;
    while i < v.len()
        invariant
            i <= v.len(),
            forall|k: int| 0 <= k < i ==> v@[k] != x,
        decreases v.len() - i,
    {
        if v[i] == x {
            return true;
        }
        i = i + 1;
    }
    false
}

fn has_discovery(before: &Board, after: &Board, sq: u8, my: Color, to: u8) -> (r: bool)
    requires
        sq < 64,
    ensures
        r == discovers(before@, after@, sq as int, my, to),
{
    let now = get_attackers(after, sq, my);
    let was = get_attackers(before, sq, my);
    let mut i: usize = 0;
    while i < now.len()
        invariant
            i <= now.len(),
            sq < 64,
            now@ == attackers(after@, sq as int, my),
            was@ == attackers(before@, sq as int, my),
            forall|k: int| 0 <= k < i ==> !(now@[k] != to && !was@.contains(#[trigger] now@[k])),
        decreases now.len() - i,
    {
        if now[i] != to && !contains_square(&was, now[i]) {
            proof {
                let k = i as int;
                assert(attackers(after@, sq as int, my)[k] != to && !attackers(before@, sq as int, my).contains(attackers(after@, sq as int, my)[k]));
            }
            return true;
        }
        i = i + 1;
    }
    false
}

fn rank_discovery_exec(before: &Board, after: &Board, my: Color, to: u8, rank: u8) -> (r: Option<Role>)
    requires
        rank < 8,
    ensures
        r == rank_discovery(before@, after@, my, to, rank as int, 0),
{
    let enemy = other(my);
    let mut f: u8 = 0;
    while f < 8
        invariant
            f <= 8,
            rank < 8,
            enemy == opposite(my),
            rank_discovery(before@, after@, my, to, rank as int, f as int) == rank_discovery(
                before@,
                after@,
                my,
                to,
                rank as int,
                0,
            ),
        decreases 8 - f,
    {
        let sq: u8 = rank * 8 + f;
        match after.get(sq) {
            Some(p) => {
                if p.color == enemy && piece_value(p.role) >= 3 && p.role != Role::King {
                    if has_discovery(before, after, sq, my, to) {
                        return Some(p.role);
                    }
                }
            },
            None => {},
        }
        f = f + 1;
    }
    None
}

fn add_discovery_notes(sec: &mut Phrases, before: &Board, after: &Board, m: &MoveFacts, my: Color, op: bool)
    requires
        old(sec).wf(),
        old(sec).count < 100,
    ensures
        final(sec).wf(),
        final(sec).count <= old(sec).count + 8,
        final(sec).parts@ == old(sec).parts@ + discovery_notes(before@, after@, *m, my, op),
{
    if m.capture.is_some() || m.en_passant || m.role == Role::King {
        assert(sec.parts@ =~= sec.parts@ + discovery_notes(before@, after@, *m, my, op));
        return;
    }
    let mut rank: u8 = 0;
    while rank < 8
        invariant
            rank <= 8,
            sec.wf(),
            sec.count <= old(sec).count + rank,
            old(sec).count < 100,
            sec.parts@ == old(sec).parts@ + discovery_notes_upto(before@, after@, my, m.to, op, rank as int),
        decreases 8 - rank,
    {
        match rank_discovery_exec(before, after, my, m.to, rank) {
            Some(r) => {
                let mut phrase = chars_of("opens a discovered attack on ");
                push_all(&mut phrase, &their_text(op));
                push_str(&mut phrase, " ");
                push_str(&mut phrase, piece_name(r));
                sec.add(&phrase);
            },
            None => {},
        }
        rank = rank + 1;
        assert(sec.parts@ =~= old(sec).parts@ + discovery_notes_upto(before@, after@, my, m.to, op, rank as int));
    }
}

// ---------------------------------------------------------------------
// Quiet moves
// ---------------------------------------------------------------------

/// The main phrase for a move that nothing else describes, by the piece moved
/// and where it goes.
pub open spec fn quiet_phrase(m: MoveFacts, my: Color, endgame: bool, defends: bool) -> Seq<char> {
    let f = file_of(m.to as int);
    let r = rank_of(m.to as int);
    match m.role {
        Role::Pawn => if defends {
            "advances a Pawn"@
        } else if 3 <= f <= 4 {
            "advances a Pawn to control the center"@
        } else if (my == Color::Black && r <= 3) || (my == Color::White && r >= 4) {
            "pushes a dangerous passed pawn"@
        } else {
            "claims space with a Pawn"@
        },
        Role::Knight => if f == 0 || f == 7 {
            "moves the Knight to the edge"@
        } else {
            "moves the Knight to an active square"@
        },
        Role::Bishop => if (f == 1 || f == 6) && (r == 1 || r == 6) {
            "fianchettos the Bishop"@
        } else if endgame {
            "shifts the Bishop"@
        } else {
            "develops the Bishop to an active diagonal"@
        },
        Role::Rook => if 3 <= f <= 4 {
            "slides the Rook to the central file"@
        } else {
            "activates the Rook"@
        },
        Role::Queen => "shifts the Queen to a new square"@,
        Role::King => "steps the King to a safer square"@,
    }
}

fn quiet_phrase_text(m: &MoveFacts, my: Color, endgame: bool, defends: bool) -> (r: Vec<char>)
    requires
        m.to < 64,
    ensures
        r@ == quiet_phrase(*m, my, endgame, defends),
{
    let f = m.to % 8;
    let r = m.to / 8;
    match m.role {
        Role::Pawn => if defends {
            chars_of("advances a Pawn")
        } else if 3 <= f && f <= 4 {
            chars_of("advances a Pawn to control the center")
        } else if (my == Color::Black && r <= 3) || (my == Color::White && r >= 4) {
            chars_of("pushes a dangerous passed pawn")
        } else {
            chars_of("claims space with a Pawn")
        },
        Role::Knight => if f == 0 || f == 7 {
            chars_of("moves the Knight to the edge")
        } else {
            chars_of("moves the Knight to an active square")
        },
        Role::Bishop => if (f == 1 || f == 6) && (r == 1 || r == 6) {
            chars_of("fianchettos the Bishop")
        } else if endgame {
            chars_of("shifts the Bishop")
        } else {
            chars_of("develops the Bishop to an active diagonal")
        },
        Role::Rook => if 3 <= f && f <= 4 {
            chars_of("slides the Rook to the central file")
        } else {
            chars_of("activates the Rook")
        },
        Role::Queen => chars_of("shifts the Queen to a new square"),
        Role::King => chars_of("steps the King to a safer square"),
    }
}

// ---------------------------------------------------------------------
// The sentence
// ---------------------------------------------------------------------

/// The main phrase followed by the secondary ones, all joined by " and ".
pub open spec fn sentence(primary: Seq<char>, secondary: Seq<Seq<char>>) -> Seq<char> {
    if primary.len() != 0 {
        if secondary.len() != 0 {
            primary + " and "@ + joined(secondary, " and "@)
        } else {
            primary
        }
    } else if secondary.len() != 0 {
        joined(secondary, " and "@)
    } else {
        "makes a waiting move"@
    }
}

/// The coach's sentence for move `m`, played from the position `before` and
/// leading to `after`; `is_check` says whether it gives check and `op`
/// whether the opponent plays it (else it is the move suggested to the player).
pub open spec fn tactical_motive(
    before: PositionView,
    after: PositionView,
    m: MoveFacts,
    is_check: bool,
    op: bool,
) -> Seq<char> {
    if after.stalemate {
        actor(op) + " forces a stalemate to draw the game."@
    } else {
        let my = before.turn;
        let enemy = opposite(my);
        let p0 = first_primary(before.legal_moves, m, op);
        let p1 = defense_primary(p0, before, m, is_check);
        let sights = seen(after.board, m.to as int, m.role, my);
        let enemies = enemies_among(after.board, sights, enemy);
        let friends = friends_among(after.board, sights, my, m.to);
        let nd = new_defenses(before.board, friends, my);
        let secondary = defense_notes(p0, before, m, is_check) + check_notes(after, m, is_check)
            + threat_notes(after.board, m, enemy, op, enemies) + defended_notes(nd)
            + discovery_notes(before.board, after.board, m, my, op);
        let p2 = if p1.len() == 0 {
            quiet_phrase(m, my, before.fullmoves > 20, nd.len() > 0)
        } else {
            p1
        };
        actor(op) + " "@ + sentence(p2, secondary) + "."@
    }
}


fn answer_stage(p0: &Vec<char>, before: &PositionFacts, m: &MoveFacts, is_check: bool, sec: &mut Phrases) -> (primary: Vec<char>)
    requires
        move_ok(*m),
        old(sec).wf(),
        old(sec).parts@ == Seq::<Seq<char>>::empty(),
    ensures
        final(sec).wf(),
        final(sec).count <= 1,
        primary@ == defense_primary(p0@, before@, *m, is_check),
        final(sec).parts@ == defense_notes(p0@, before@, *m, is_check),
{
    let enemy = other(before.turn);
    let mut primary: Vec<char> = Vec::new();
    push_all(&mut primary, p0);
    let was_attacked = match m.from {
        Some(f) => is_square_attacked(&before.board, f, enemy),
        None => false,
    };
    let capture = m.capture.is_some() || m.en_passant;
    if before.in_check && !is_check {
        if m.role == Role::King {
            if primary.len() == 0 {
                primary = chars_of("steps the King out of check");
            }
        } else {
            if primary.len() == 0 {
                primary = chars_of("blocks the check");
            } else {
                sec.add(&chars_of("blocks the check"));
            }
        }
    } else if was_attacked && !capture {
        if m.role == Role::King {
            if primary.len() == 0 {
                primary = chars_of("steps the King out of danger");
            }
        } else {
            if primary.len() == 0 {
                primary = chars_of("moves the ");
                push_str(&mut primary, piece_name(m.role));
                push_str(&mut primary, " out of danger");
            }
        }
    }
    assert(sec.parts@ =~= defense_notes(p0@, before@, *m, is_check));
    primary
}

fn add_check_notes(sec: &mut Phrases, after: &PositionFacts, m: &MoveFacts, is_check: bool)
    requires
        old(sec).wf(),
        old(sec).count < 100,
    ensures
        final(sec).wf(),
        final(sec).count <= old(sec).count + 1,
        final(sec).parts@ == old(sec).parts@ + check_notes(after@, *m, is_check),
{
    if is_check {
        if after.checkers.len() > 1 {
            sec.add(&chars_of("delivers a devastating Double Check"));
        } else if !contains_square(&after.checkers, m.to) {
            sec.add(&chars_of("unleashes a Discovered Check"));
        } else {
            sec.add(&chars_of("delivers a Check"));
        }
    }
    assert(sec.parts@ =~= old(sec).parts@ + check_notes(after@, *m, is_check));
}

fn sentence_text(primary: &Vec<char>, sec: &Phrases) -> (r: Vec<char>)
    requires
        sec.wf(),
    ensures
        r@ == sentence(primary@, sec.parts@),
{
    let mut out: Vec<char> = Vec::new();
    if primary.len() != 0 {
        push_all(&mut out, primary);
        if sec.count != 0 {
            push_str(&mut out, " and ");
            push_all(&mut out, &sec.text);
        }
    } else if sec.count != 0 {
        push_all(&mut out, &sec.text);
    } else {
        push_str(&mut out, "makes a waiting move");
    }
    assert(out@ =~= sentence(primary@, sec.parts@));
    out
}

/// `detect_tactical_motive`: the coach's sentence for a move (see `tactical_motive`).
pub fn detect_tactical_motive(
    before: &PositionFacts,
    after: &PositionFacts,
    m: &MoveFacts,
    is_check: bool,
    is_opponent: bool,
) -> (r: String)
    requires
        move_ok(*m),
    ensures
        r@ == tactical_motive(before@, after@, *m, is_check, is_opponent),
{
    let mut out: Vec<char> = if is_opponent {
        chars_of("Your opponent")
    } else {
        chars_of("This move")
    };
    if after.stalemate {
        push_str(&mut out, " forces a stalemate to draw the game.");
        return string_of(&out);
    }
    let my = before.turn;
    let enemy = other(my);
    let p0 = first_primary_text(before.legal_moves, m, is_opponent);
    let mut sec = Phrases::new();
    let mut primary = answer_stage(&p0, before, m, is_check, &mut sec);
    add_check_notes(&mut sec, after, m, is_check);
    // What the moved piece sees.
    let sights = seen_squares(&after.board, m.to, m.role, my);
    let split = split_seen(&after.board, &sights, my, m.to);
    let enemies = split.0;
    let friends = split.1;
    proof {
        lemma_seen_len(after.board@, m.to as int, m.role, my, pattern_len(m.role));
        lemma_enemies_len(after.board@, sights@, enemy);
    }
    add_threat_notes(&mut sec, &after.board, m, enemy, is_opponent, &enemies);
    let nd = new_defenses_of(&before.board, &friends, my);
    let ghost s3 = sec.parts@;
    match most_valuable_role(&nd) {
        Some(r) => {
            let mut phrase = chars_of("defends the ");
            push_str(&mut phrase, piece_name(r));
            sec.add(&phrase);
        },
        None => {},
    }
    assert(sec.parts@ =~= s3 + defended_notes(nd@));
    add_discovery_notes(&mut sec, &before.board, &after.board, m, my, is_opponent);
    if primary.len() == 0 {
        primary = quiet_phrase_text(m, my, before.fullmoves > 20, nd.len() > 0);
    }
    push_str(&mut out, " ");
    let body = sentence_text(&primary, &sec);
    push_all(&mut out, &body);
    push_str(&mut out, ".");
    assert(out@ =~= tactical_motive(before@, after@, *m, is_check, is_opponent));
    string_of(&out)
}

proof fn lemma_seen_len(b: Seq<Option<Piece>>, to: int, role: Role, my: Color, n: int)
    ensures
        seen_from(b, to, role, my, n).len() <= if n < 0 { 0 } else { n },
    decreases n,
{
    if n > 0 {
        lemma_seen_len(b, to, role, my, n - 1);
    }
}

proof fn lemma_enemies_len(b: Seq<Option<Piece>>, sqs: Seq<u8>, enemy: Color)
    ensures
        enemies_among(b, sqs, enemy).len() <= sqs.len(),
    decreases sqs.len(),
{
    if sqs.len() > 0 {
        lemma_enemies_len(b, sqs.drop_last(), enemy);
    }
}

/// The coach's sentence always names who moves first and ends with a full stop.
pub proof fn law_motive_shape(before: PositionView, after: PositionView, m: MoveFacts, is_check: bool, op: bool)
    ensures
        actor(op).is_prefix_of(tactical_motive(before, after, m, is_check, op)),
        tactical_motive(before, after, m, is_check, op).last() == '.',
{
    reveal_strlit(" forces a stalemate to draw the game.");
    reveal_strlit(".");
    let t = tactical_motive(before, after, m, is_check, op);
    if after.stalemate {
        assert(t == actor(op) + " forces a stalemate to draw the game."@);
    } else {
        let rest = t.skip(actor(op).len() as int);
        assert(t.take(actor(op).len() as int) =~= actor(op));
    }
    assert(t.take(actor(op).len() as int) =~= actor(op));
}

/// A move that captures nothing and is not forced, not a castling nor a
/// promotion, and does not answer a check or a threat, is described by its
/// quiet phrase, which is never empty.
pub proof fn law_quiet_phrase_not_empty(m: MoveFacts, my: Color, endgame: bool, defends: bool)
    ensures
        quiet_phrase(m, my, endgame, defends).len() > 0,
{
    reveal_strlit("advances a Pawn");
    reveal_strlit("advances a Pawn to control the center");
    reveal_strlit("pushes a dangerous passed pawn");
    reveal_strlit("claims space with a Pawn");
    reveal_strlit("moves the Knight to the edge");
    reveal_strlit("moves the Knight to an active square");
    reveal_strlit("fianchettos the Bishop");
    reveal_strlit("shifts the Bishop");
    reveal_strlit("develops the Bishop to an active diagonal");
    reveal_strlit("slides the Rook to the central file");
    reveal_strlit("activates the Rook");
    reveal_strlit("shifts the Queen to a new square");
    reveal_strlit("steps the King to a safer square");
}

/// Where a quiet piece move goes decides how it is described: a pawn move
/// that defends nothing new and lands on the d- or e-file (file 3 or 4)
/// advances a Pawn to control the center, and a pawn move to any other
/// file never does; a knight move to the a- or h-file goes to the edge,
/// and to any other file to an active square; a rook move to the d- or
/// e-file goes to the central file, and to any other file activates it; a
/// bishop move to b2, g2, b7 or g7 is a fianchetto, and no other is; queen
/// and king moves shift the Queen and step the King.
pub proof fn law_quiet_moves_by_file(m: MoveFacts, my: Color, endgame: bool)
    requires
        m.to < 64,
    ensures
        m.role == Role::Pawn ==> ((m.to % 8 == 3 || m.to % 8 == 4) <==> quiet_phrase(
            m,
            my,
            endgame,
            false,
        ) == "advances a Pawn to control the center"@),
        m.role == Role::Knight ==> ((m.to % 8 == 0 || m.to % 8 == 7) <==> quiet_phrase(
            m,
            my,
            endgame,
            false,
        ) == "moves the Knight to the edge"@),
        m.role == Role::Knight && !(m.to % 8 == 0 || m.to % 8 == 7) ==> quiet_phrase(m, my, endgame, false)
            == "moves the Knight to an active square"@,
        m.role == Role::Rook ==> ((m.to % 8 == 3 || m.to % 8 == 4) <==> quiet_phrase(
            m,
            my,
            endgame,
            false,
        ) == "slides the Rook to the central file"@),
        m.role == Role::Rook && !(m.to % 8 == 3 || m.to % 8 == 4) ==> quiet_phrase(m, my, endgame, false)
            == "activates the Rook"@,
        m.role == Role::Pawn ==> quiet_phrase(m, my, endgame, true) == "advances a Pawn"@,
        m.role == Role::Bishop ==> (((m.to % 8 == 1 || m.to % 8 == 6) && (m.to / 8 == 1 || m.to / 8 == 6))
            <==> quiet_phrase(m, my, endgame, false) == "fianchettos the Bishop"@),
        m.role == Role::Queen ==> quiet_phrase(m, my, endgame, false) == "shifts the Queen to a new square"@,
        m.role == Role::King ==> quiet_phrase(m, my, endgame, false) == "steps the King to a safer square"@,
{
    reveal_strlit("fianchettos the Bishop");
    reveal_strlit("shifts the Bishop");
    reveal_strlit("develops the Bishop to an active diagonal");
    reveal_strlit("shifts the Queen to a new square");
    reveal_strlit("steps the King to a safer square");
    assert(rank_of(m.to as int) == m.to / 8);
    assert("fianchettos the Bishop"@.len() == 22);
    assert("shifts the Bishop"@.len() == 17);
    assert("develops the Bishop to an active diagonal"@.len() == 41);
    reveal_strlit("advances a Pawn");
    reveal_strlit("advances a Pawn to control the center");
    reveal_strlit("pushes a dangerous passed pawn");
    reveal_strlit("claims space with a Pawn");
    reveal_strlit("moves the Knight to the edge");
    reveal_strlit("moves the Knight to an active square");
    reveal_strlit("slides the Rook to the central file");
    reveal_strlit("activates the Rook");
    assert(file_of(m.to as int) == m.to % 8);
    assert("advances a Pawn to control the center"@.len() == 37);
    assert("pushes a dangerous passed pawn"@.len() == 30);
    assert("claims space with a Pawn"@.len() == 24);
    assert("moves the Knight to the edge"@.len() == 28);
    assert("moves the Knight to an active square"@.len() == 36);
    assert("slides the Rook to the central file"@.len() == 35);
    assert("activates the Rook"@.len() == 18);
}

} // verus!
