//! Pieces, the board, and which pieces attack a square.
//!
//! Squares are numbered 0..64 as `rank * 8 + file`, with a1 = 0, h1 = 7 and
//! a2 = 8 (the numbering of `shakmaty::Square`).
use vstd::prelude::*;

verus! {

#[derive(Clone, Copy, Debug, PartialEq, Eq, Structural)]
pub enum Color {
    White,
    Black,
}

#[derive(Clone, Copy, Debug, PartialEq, Eq, Structural)]
pub enum Role {
    Pawn,
    Knight,
    Bishop,
    Rook,
    Queen,
    King,
}

#[derive(Clone, Copy, Debug, PartialEq, Eq, Structural)]
pub struct Piece {
    pub color: Color,
    pub role: Role,
}

pub open spec fn opposite(c: Color) -> Color {
    match c {
        Color::White => Color::Black,
        Color::Black => Color::White,
    }
}

/// The other side.
pub fn other(c: Color) -> (r: Color)
    ensures
        r == opposite(c),
{
    match c {
        Color::White => Color::Black,
        Color::Black => Color::White,
    }
}

/// The material value of a piece, the king counted as 100.
pub open spec fn value_of(role: Role) -> i32 {
    match role {
        Role::Pawn => 1,
        Role::Knight => 3,
        Role::Bishop => 3,
        Role::Rook => 5,
        Role::Queen => 9,
        Role::King => 100,
    }
}

/// `piece_value`.
pub fn piece_value(role: Role) -> (r: i32)
    ensures
        r == value_of(role),
{
    match role {
        Role::Pawn => 1,
        Role::Knight => 3,
        Role::Bishop => 3,
        Role::Rook => 5,
        Role::Queen => 9,
        Role::King => 100,
    }
}

/// The English name of a piece.
pub open spec fn name_of(role: Role) -> Seq<char> {
    match role {
        Role::Pawn => "Pawn"@,
        Role::Knight => "Knight"@,
        Role::Bishop => "Bishop"@,
        Role::Rook => "Rook"@,
        Role::Queen => "Queen"@,
        Role::King => "King"@,
    }
}

/// `piece_name`.
pub fn piece_name(role: Role) -> (r: &'static str)
    ensures
        r@ == name_of(role),
{
    match role {
        Role::Pawn => "Pawn",
        Role::Knight => "Knight",
        Role::Bishop => "Bishop",
        Role::Rook => "Rook",
        Role::Queen => "Queen",
        Role::King => "King",
    }
}

/// The contents of the 64 squares.
pub struct Board {
    squares: Vec<Option<Piece>>,
}

impl View for Board {
    type V = Seq<Option<Piece>>;

    closed spec fn view(&self) -> Seq<Option<Piece>> {
        Seq::new(64, |i: int| self.squares@[i])
    }
}

impl Board {
    #[verifier::type_invariant]
    spec fn has_64_squares(self) -> bool {
        self.squares@.len() == 64
    }

    /// A board with no piece on it.
    pub fn empty() -> (b: Board)
        ensures
            b@ == Seq::new(64, |i: int| None::<Piece>),
    {
        let mut squares: Vec<Option<Piece>> = Vec::new();
        let mut i: usize = 0;
        while i < 64
            invariant
                i <= 64,
                squares@.len() == i,
                forall|k: int| 0 <= k < i ==> squares@[k] == None::<Piece>,
            decreases 64 - i,
        {
            squares.push(None);
            i = i + 1;
        }
        let b = Board { squares };
        assert(b@ =~= Seq::new(64, |i: int| None::<Piece>));
        b
    }

    /// What stands on square `sq`.
    pub fn get(&self, sq: u8) -> (r: Option<Piece>)
        requires
            sq < 64,
        ensures
            r == self@[sq as int],
    {
        proof {
            use_type_invariant(self);
        }
        self.squares[sq as usize]
    }

    /// Puts `p` (or nothing) on square `sq`.
    pub fn set(&mut self, sq: u8, p: Option<Piece>)
        requires
            sq < 64,
        ensures
            final(self)@ == old(self)@.update(sq as int, p),
    {
        proof {
            use_type_invariant(&*self);
        }
        let mut squares: Vec<Option<Piece>> = Vec::new();
        let mut i: usize = 0;
        while i < 64
            invariant
                i <= 64,
                sq < 64,
                self.squares@.len() == 64,
                squares@ == self.squares@.update(sq as int, p).take(i as int),
            decreases 64 - i,
        {
            if i == sq as usize {
                squares.push(p);
            } else {
                squares.push(self.squares[i]);
            }
            i = i + 1;
            assert(squares@ =~= self.squares@.update(sq as int, p).take(i as int));
        }
        *self = Board { squares };
        assert(final(self)@ =~= old(self)@.update(sq as int, p));
    }

    /// A copy of the board.
    pub fn copy(&self) -> (r: Board)
        ensures
            r@ == self@,
    {
        proof {
            use_type_invariant(self);
        }
        let mut squares: Vec<Option<Piece>> = Vec::new();
        let mut i: usize = 0;
        while i < 64
            invariant
                i <= 64,
                self.squares@.len() == 64,
                squares@ == self.squares@.take(i as int),
            decreases 64 - i,
        {
            squares.push(self.squares[i]);
            i = i + 1;
            assert(squares@ =~= self.squares@.take(i as int));
        }
        let r = Board { squares };
        assert(r@ =~= self@);
        r
    }
}

/// A board always has 64 squares.
pub proof fn lemma_board_len(b: Board)
    ensures
        b@.len() == 64,
{
}

// ---------------------------------------------------------------------
// Geometry
// ---------------------------------------------------------------------

pub open spec fn file_of(sq: int) -> int {
    sq % 8
}

pub open spec fn rank_of(sq: int) -> int {
    sq / 8
}

pub open spec fn on_board(f: int, r: int) -> bool {
    0 <= f < 8 && 0 <= r < 8
}

/// The square `df` files and `dr` ranks away from `sq`, if it is on the board.
pub open spec fn offset_square(sq: int, df: int, dr: int) -> Option<u8> {
    let f = file_of(sq) + df;
    let r = rank_of(sq) + dr;
    if on_board(f, r) {
        Some((r * 8 + f) as u8)
    } else {
        None
    }
}

pub fn offset_sq(sq: u8, df: i32, dr: i32) -> (r: Option<u8>)
    requires
        sq < 64,
        -8 <= df <= 8,
        -8 <= dr <= 8,
    ensures
        r == offset_square(sq as int, df as int, dr as int),
        r matches Some(s) ==> s < 64,
{
    let f: i32 = (sq % 8) as i32 + df;
    let r: i32 = (sq / 8) as i32 + dr;
    if 0 <= f && f < 8 && 0 <= r && r < 8 {
        Some((r * 8 + f) as u8)
    } else {
        None
    }
}

/// The knight's jumps, in the order they are tried.
pub open spec fn knight_jump(i: int) -> (int, int) {
    if i == 0 { (-2, -1) }
    else if i == 1 { (-2, 1) }
    else if i == 2 { (-1, -2) }
    else if i == 3 { (-1, 2) }
    else if i == 4 { (1, -2) }
    else if i == 5 { (1, 2) }
    else if i == 6 { (2, -1) }
    else { (2, 1) }
}

pub fn knight_jump_at(i: usize) -> (r: (i32, i32))
    ensures
        (r.0 as int, r.1 as int) == knight_jump(i as int),
        -2 <= r.0 <= 2,
        -2 <= r.1 <= 2,
{
    if i == 0 { (-2, -1) }
    else if i == 1 { (-2, 1) }
    else if i == 2 { (-1, -2) }
    else if i == 3 { (-1, 2) }
    else if i == 4 { (1, -2) }
    else if i == 5 { (1, 2) }
    else if i == 6 { (2, -1) }
    else { (2, 1) }
}

/// The king's steps, files outer and ranks inner, each from -1 to 1.
pub open spec fn king_step(i: int) -> (int, int) {
    if i == 0 { (-1, -1) }
    else if i == 1 { (-1, 0) }
    else if i == 2 { (-1, 1) }
    else if i == 3 { (0, -1) }
    else if i == 4 { (0, 1) }
    else if i == 5 { (1, -1) }
    else if i == 6 { (1, 0) }
    else { (1, 1) }
}

pub fn king_step_at(i: usize) -> (r: (i32, i32))
    ensures
        (r.0 as int, r.1 as int) == king_step(i as int),
        -1 <= r.0 <= 1,
        -1 <= r.1 <= 1,
{
    if i == 0 { (-1, -1) }
    else if i == 1 { (-1, 0) }
    else if i == 2 { (-1, 1) }
    else if i == 3 { (0, -1) }
    else if i == 4 { (0, 1) }
    else if i == 5 { (1, -1) }
    else if i == 6 { (1, 0) }
    else { (1, 1) }
}

/// The eight line directions: the four diagonals first, then the files and ranks.
pub open spec fn ray_dir(i: int) -> (int, int) {
    if i == 0 { (-1, -1) }
    else if i == 1 { (-1, 1) }
    else if i == 2 { (1, -1) }
    else if i == 3 { (1, 1) }
    else if i == 4 { (-1, 0) }
    else if i == 5 { (1, 0) }
    else if i == 6 { (0, -1) }
    else { (0, 1) }
}

pub fn ray_dir_at(i: usize) -> (r: (i32, i32))
    ensures
        (r.0 as int, r.1 as int) == ray_dir(i as int),
        -1 <= r.0 <= 1,
        -1 <= r.1 <= 1,
        r.0 != 0 || r.1 != 0,
{
    if i == 0 { (-1, -1) }
    else if i == 1 { (-1, 1) }
    else if i == 2 { (1, -1) }
    else if i == 3 { (1, 1) }
    else if i == 4 { (-1, 0) }
    else if i == 5 { (1, 0) }
    else if i == 6 { (0, -1) }
    else { (0, 1) }
}

/// The rank direction in which pawns of `c` advance.
pub open spec fn pawn_dir(c: Color) -> int {
    if c == Color::White {
        1
    } else {
        -1
    }
}

/// The first occupied square from `sq` in direction `(df, dr)`, looking at
/// distance `step` and beyond.
pub open spec fn ray_first(b: Seq<Option<Piece>>, sq: int, df: int, dr: int, step: int) -> Option<u8>
    decreases 9 - step,
{
    if step < 1 || step > 8 {
        None
    } else {
        match offset_square(sq, df * step, dr * step) {
            None => None,
            Some(s) => if b[s as int] is Some {
                Some(s)
            } else {
                ray_first(b, sq, df, dr, step + 1)
            },
        }
    }
}

/// The first occupied square along a line, as `ray_first` from distance 1.
pub fn first_on_ray(b: &Board, sq: u8, df: i32, dr: i32) -> (r: Option<u8>)
    requires
        sq < 64,
        -1 <= df <= 1,
        -1 <= dr <= 1,
    ensures
        r == ray_first(b@, sq as int, df as int, dr as int, 1),
        r matches Some(s) ==> s < 64,
{
    let mut step: i32 = 1;
    while step <= 8
        invariant
            1 <= step <= 9,
            sq < 64,
            -1 <= df <= 1,
            -1 <= dr <= 1,
            ray_first(b@, sq as int, df as int, dr as int, step as int) == ray_first(
                b@,
                sq as int,
                df as int,
                dr as int,
                1,
            ),
        decreases 9 - step,
    {
        assert(-8 <= df * step <= 8) by (nonlinear_arith)
            requires
                -1 <= df <= 1,
                1 <= step <= 8,
        ;
        assert(-8 <= dr * step <= 8) by (nonlinear_arith)
            requires
                -1 <= dr <= 1,
                1 <= step <= 8,
        ;
        match offset_sq(sq, df * step, dr * step) {
            None => {
                return None;
            },
            Some(s) => {
                if b.get(s).is_some() {
                    return Some(s);
                }
            },
        }
        step = step + 1;
    }
    None
}

// ---------------------------------------------------------------------
// Attackers of a square
// ---------------------------------------------------------------------

/// `Some(p)` stands on `s` (as an optional square).
pub open spec fn holds(b: Seq<Option<Piece>>, s: Option<u8>, p: Piece) -> bool {
    s matches Some(q) && b[q as int] == Some(p)
}

/// The knights of `c` that attack `t`, among the first `n` jumps.
pub open spec fn knight_attackers(b: Seq<Option<Piece>>, t: int, c: Color, n: int) -> Seq<u8>
    decreases n,
{
    if n <= 0 {
        Seq::empty()
    } else {
        let j = knight_jump(n - 1);
        let s = offset_square(t, j.0, j.1);
        knight_attackers(b, t, c, n - 1) + if holds(b, s, Piece { color: c, role: Role::Knight }) {
            seq![s->0]
        } else {
            Seq::empty()
        }
    }
}

/// The pawns of `c` that attack `t`: from the file to the left, then to the right.
pub open spec fn pawn_attackers(b: Seq<Option<Piece>>, t: int, c: Color, n: int) -> Seq<u8>
    decreases n,
{
    if n <= 0 {
        Seq::empty()
    } else {
        let df = if n - 1 == 0 {
            -1int
        } else {
            1int
        };
        let s = offset_square(t, df, -pawn_dir(c));
        pawn_attackers(b, t, c, n - 1) + if holds(b, s, Piece { color: c, role: Role::Pawn }) {
            seq![s->0]
        } else {
            Seq::empty()
        }
    }
}

/// The king of `c` if it stands next to `t`, among the first `n` steps.
pub open spec fn king_attackers(b: Seq<Option<Piece>>, t: int, c: Color, n: int) -> Seq<u8>
    decreases n,
{
    if n <= 0 {
        Seq::empty()
    } else {
        let j = king_step(n - 1);
        let s = offset_square(t, j.0, j.1);
        king_attackers(b, t, c, n - 1) + if holds(b, s, Piece { color: c, role: Role::King }) {
            seq![s->0]
        } else {
            Seq::empty()
        }
    }
}

/// Whether a piece of `role` moving along direction number `i` attacks along it.
pub open spec fn slides_along(role: Role, i: int) -> bool {
    if i < 4 {
        role == Role::Bishop || role == Role::Queen
    } else {
        role == Role::Rook || role == Role::Queen
    }
}

/// The line pieces of `c` that attack `t`, among the first `n` directions:
/// in each direction the first piece met, if it is of `c` and moves that way.
pub open spec fn ray_attackers(b: Seq<Option<Piece>>, t: int, c: Color, n: int) -> Seq<u8>
    decreases n,
{
    if n <= 0 {
        Seq::empty()
    } else {
        let d = ray_dir(n - 1);
        let s = ray_first(b, t, d.0, d.1, 1);
        ray_attackers(b, t, c, n - 1) + if s matches Some(q) && b[q as int] matches Some(p) && p.color
            == c && slides_along(p.role, n - 1) {
            seq![s->0]
        } else {
            Seq::empty()
        }
    }
}

/// The squares of the pieces of `c` that attack `t`: knights, pawns, the king,
/// then bishops, rooks and queens, each group in the order it is looked for.
pub open spec fn attackers(b: Seq<Option<Piece>>, t: int, c: Color) -> Seq<u8> {
    knight_attackers(b, t, c, 8) + pawn_attackers(b, t, c, 2) + king_attackers(b, t, c, 8)
        + ray_attackers(b, t, c, 8)
}

/// Whether a piece of `c` attacks `t`.
pub open spec fn is_attacked(b: Seq<Option<Piece>>, t: int, c: Color) -> bool {
    attackers(b, t, c).len() > 0
}

fn push_if_holds(out: &mut Vec<u8>, b: &Board, s: Option<u8>, p: Piece)
    requires
        s matches Some(q) ==> q < 64,
    ensures
        final(out)@ == old(out)@ + if holds(b@, s, p) {
            seq![s->0]
        } else {
            Seq::<u8>::empty()
        },
{
    match s {
        Some(q) => {
            if b.get(q) == Some(p) {
                out.push(q);
                assert(final(out)@ =~= old(out)@ + seq![q]);
            } else {
                assert(final(out)@ =~= old(out)@ + Seq::<u8>::empty());
            }
        },
        None => {
            assert(final(out)@ =~= old(out)@ + Seq::<u8>::empty());
        },
    }
}

/// `get_attackers`: the squares of the pieces of `c` that attack `target`.
pub fn get_attackers(b: &Board, target: u8, c: Color) -> (r: Vec<u8>)
    requires
        target < 64,
    ensures
        r@ == attackers(b@, target as int, c),
{
    let ghost t = target as int;
    let mut out: Vec<u8> = Vec::new();
    let mut i: usize = 0;
    while i < 8
        invariant
            i <= 8,
            target < 64,
            t == target as int,
            out@ == knight_attackers(b@, t, c, i as int),
        decreases 8 - i,
    {
        let j = knight_jump_at(i);
        let s = offset_sq(target, j.0, j.1);
        push_if_holds(&mut out, b, s, Piece { color: c, role: Role::Knight });
        i = i + 1;
    }
    let ghost k_part = out@;
    let back: i32 = if c == Color::White {
        -1
    } else {
        1
    };
    i = 0;
    while i < 2
        invariant
            i <= 2,
            target < 64,
            t == target as int,
            back == -pawn_dir(c),
            out@ == k_part + pawn_attackers(b@, t, c, i as int),
        decreases 2 - i,
    {
        let df: i32 = if i == 0 {
            -1
        } else {
            1
        };
        let s = offset_sq(target, df, back);
        push_if_holds(&mut out, b, s, Piece { color: c, role: Role::Pawn });
        i = i + 1;
        assert(out@ =~= k_part + pawn_attackers(b@, t, c, i as int));
    }
    let ghost p_part = out@;
    i = 0;
    while i < 8
        invariant
            i <= 8,
            target < 64,
            t == target as int,
            out@ == p_part + king_attackers(b@, t, c, i as int),
        decreases 8 - i,
    {
        let j = king_step_at(i);
        let s = offset_sq(target, j.0, j.1);
        push_if_holds(&mut out, b, s, Piece { color: c, role: Role::King });
        i = i + 1;
        assert(out@ =~= p_part + king_attackers(b@, t, c, i as int));
    }
    let ghost q_part = out@;
    i = 0;
    while i < 8
        invariant
            i <= 8,
            target < 64,
            t == target as int,
            out@ == q_part + ray_attackers(b@, t, c, i as int),
        decreases 8 - i,
    {
        let d = ray_dir_at(i);
        let s = first_on_ray(b, target, d.0, d.1);
        let ghost before = out@;
        match s {
            Some(q) => {
                match b.get(q) {
                    Some(p) => {
                        let slides = if i < 4 {
                            p.role == Role::Bishop || p.role == Role::Queen
                        } else {
                            p.role == Role::Rook || p.role == Role::Queen
                        };
                        if p.color == c && slides {
                            out.push(q);
                        }
                    },
                    None => {},
                }
            },
            None => {},
        }
        i = i + 1;
        assert(out@ =~= q_part + ray_attackers(b@, t, c, i as int));
    }
    assert(out@ =~= attackers(b@, t, c));
    out
}

/// Every square `get_attackers` reports holds a piece of the attacking side.
pub proof fn law_attackers_are_own_pieces(b: Seq<Option<Piece>>, t: int, c: Color)
    ensures
        forall|k: int|
            0 <= k < attackers(b, t, c).len() ==> (b[#[trigger] attackers(b, t, c)[k] as int] matches Some(
                p,
            ) && p.color == c),
{
    lemma_knights_own(b, t, c, 8);
    lemma_pawns_own(b, t, c, 2);
    lemma_kings_own(b, t, c, 8);
    lemma_rays_own(b, t, c, 8);
    let a = attackers(b, t, c);
    let k1 = knight_attackers(b, t, c, 8);
    let k2 = pawn_attackers(b, t, c, 2);
    let k3 = king_attackers(b, t, c, 8);
    let k4 = ray_attackers(b, t, c, 8);
    assert forall|k: int| 0 <= k < a.len() implies (b[#[trigger] a[k] as int] matches Some(p) && p.color == c) by {
        if k < k1.len() {
            assert(a[k] == k1[k]);
        } else if k < k1.len() + k2.len() {
            assert(a[k] == k2[k - k1.len()]);
        } else if k < k1.len() + k2.len() + k3.len() {
            assert(a[k] == k3[k - k1.len() - k2.len()]);
        } else {
            assert(a[k] == k4[k - k1.len() - k2.len() - k3.len()]);
        }
    }
}

/// A pawn attacks the two squares diagonally in front of it: a pawn of `c`
/// standing one file to the left or right of `t` and one rank behind it (a
/// rank lower for White, a rank higher for Black) is among the attackers
/// of `t`, so `t` is attacked by `c`.
pub proof fn law_pawn_attacks_diagonally(b: Seq<Option<Piece>>, t: int, c: Color, s: int)
    requires
        0 <= t < 64,
        0 <= s < 64,
        b[s] == Some(Piece { color: c, role: Role::Pawn }),
        s % 8 == t % 8 - 1 || s % 8 == t % 8 + 1,
        c == Color::White ==> s / 8 == t / 8 - 1,
        c == Color::Black ==> s / 8 == t / 8 + 1,
    ensures
        attackers(b, t, c).contains(s as u8),
        is_attacked(b, t, c),
{
    let df: int = if s % 8 == t % 8 - 1 { -1 } else { 1 };
    assert(offset_square(t, df, -pawn_dir(c)) == Some(s as u8));
    let p1 = pawn_attackers(b, t, c, 1);
    let p2 = pawn_attackers(b, t, c, 2);
    assert(pawn_attackers(b, t, c, 0) =~= Seq::<u8>::empty());
    let k1 = knight_attackers(b, t, c, 8);
    let a = attackers(b, t, c);
    if df == -1 {
        assert(p1 =~= seq![s as u8]);
        assert(p2[0] == s as u8);
        assert(a[k1.len() as int] == s as u8);
        assert(a.contains(s as u8));
    } else {
        assert(p2[p1.len() as int] == s as u8);
        assert(a[(k1.len() + p1.len()) as int] == s as u8);
        assert(a.contains(s as u8));
    }
}

proof fn lemma_knight_found(b: Seq<Option<Piece>>, t: int, c: Color, n: int, k: int)
    requires
        0 <= k < n,
        holds(b, offset_square(t, knight_jump(k).0, knight_jump(k).1), Piece { color: c, role: Role::Knight }),
    ensures
        knight_attackers(b, t, c, n).contains(offset_square(t, knight_jump(k).0, knight_jump(k).1)->0),
    decreases n,
{
    let a = knight_attackers(b, t, c, n);
    let q = offset_square(t, knight_jump(k).0, knight_jump(k).1)->0;
    if k == n - 1 {
        assert(a[a.len() - 1] == q);
    } else {
        lemma_knight_found(b, t, c, n - 1, k);
        let prev = knight_attackers(b, t, c, n - 1);
        let i = choose|i: int| 0 <= i < prev.len() && prev[i] == q;
        assert(a[i] == q);
    }
}

proof fn lemma_king_found(b: Seq<Option<Piece>>, t: int, c: Color, n: int, k: int)
    requires
        0 <= k < n,
        holds(b, offset_square(t, king_step(k).0, king_step(k).1), Piece { color: c, role: Role::King }),
    ensures
        king_attackers(b, t, c, n).contains(offset_square(t, king_step(k).0, king_step(k).1)->0),
    decreases n,
{
    let a = king_attackers(b, t, c, n);
    let q = offset_square(t, king_step(k).0, king_step(k).1)->0;
    if k == n - 1 {
        assert(a[a.len() - 1] == q);
    } else {
        lemma_king_found(b, t, c, n - 1, k);
        let prev = king_attackers(b, t, c, n - 1);
        let i = choose|i: int| 0 <= i < prev.len() && prev[i] == q;
        assert(a[i] == q);
    }
}

/// A knight attacks every square a knight's jump away: a knight of `c`
/// standing one file and two ranks, or two files and one rank, from `t`
/// is among the attackers of `t`, so `t` is attacked by `c`.
pub proof fn law_knight_attacks_by_jump(b: Seq<Option<Piece>>, t: int, c: Color, s: int)
    requires
        0 <= t < 64,
        0 <= s < 64,
        b[s] == Some(Piece { color: c, role: Role::Knight }),
        ({
            let df = s % 8 - t % 8;
            let dr = s / 8 - t / 8;
            ||| (df == 1 || df == -1) && (dr == 2 || dr == -2)
            ||| (df == 2 || df == -2) && (dr == 1 || dr == -1)
        }),
    ensures
        attackers(b, t, c).contains(s as u8),
        is_attacked(b, t, c),
{
    let df = s % 8 - t % 8;
    let dr = s / 8 - t / 8;
    let k: int = if df == -2 && dr == -1 { 0 } else if df == -2 && dr == 1 { 1 } else if df == -1 && dr
        == -2 { 2 } else if df == -1 && dr == 2 { 3 } else if df == 1 && dr == -2 { 4 } else if df == 1
        && dr == 2 { 5 } else if df == 2 && dr == -1 { 6 } else { 7 };
    assert(knight_jump(k) == (df, dr));
    assert(offset_square(t, df, dr) == Some(s as u8));
    lemma_knight_found(b, t, c, 8, k);
    let k1 = knight_attackers(b, t, c, 8);
    let a = attackers(b, t, c);
    let i = choose|i: int| 0 <= i < k1.len() && k1[i] == s as u8;
    assert(a[i] == s as u8);
}

/// A king attacks the eight squares around it: a king of `c` standing at
/// most one file and one rank from `t` (and not on `t`) is among the
/// attackers of `t`, so `t` is attacked by `c`.
pub proof fn law_king_attacks_around(b: Seq<Option<Piece>>, t: int, c: Color, s: int)
    requires
        0 <= t < 64,
        0 <= s < 64,
        s != t,
        b[s] == Some(Piece { color: c, role: Role::King }),
        -1 <= s % 8 - t % 8 <= 1,
        -1 <= s / 8 - t / 8 <= 1,
    ensures
        attackers(b, t, c).contains(s as u8),
        is_attacked(b, t, c),
{
    let df = s % 8 - t % 8;
    let dr = s / 8 - t / 8;
    let k: int = if df == -1 && dr == -1 { 0 } else if df == -1 && dr == 0 { 1 } else if df == -1 { 2 } else if df
        == 0 && dr == -1 { 3 } else if df == 0 { 4 } else if dr == -1 { 5 } else if dr == 0 { 6 } else { 7 };
    assert(king_step(k) == (df, dr));
    assert(offset_square(t, df, dr) == Some(s as u8));
    lemma_king_found(b, t, c, 8, k);
    let k3 = king_attackers(b, t, c, 8);
    let a = attackers(b, t, c);
    let pre = knight_attackers(b, t, c, 8).len() + pawn_attackers(b, t, c, 2).len();
    let i = choose|i: int| 0 <= i < k3.len() && k3[i] == s as u8;
    assert(a[pre + i] == s as u8);
}

proof fn lemma_ray_reaches(b: Seq<Option<Piece>>, t: int, df: int, dr: int, d: int, step: int)
    requires
        0 <= t < 64,
        -1 <= df <= 1,
        -1 <= dr <= 1,
        1 <= step <= d <= 7,
        0 <= t % 8 + df * d < 8,
        0 <= t / 8 + dr * d < 8,
        b.len() == 64,
        b[t + (dr * 8 + df) * d] is Some,
        forall|e: int| 1 <= e < d ==> b[#[trigger] (t + (dr * 8 + df) * e)] is None,
    ensures
        0 <= t + (dr * 8 + df) * d < 64,
        ray_first(b, t, df, dr, step) == Some((t + (dr * 8 + df) * d) as u8),
    decreases d - step,
{
    assert(0 <= t % 8 + df * step < 8 && 0 <= t / 8 + dr * step < 8 && (t / 8 + dr * step) * 8 + (t % 8 + df
        * step) == t + (dr * 8 + df) * step) by (nonlinear_arith)
        requires
            0 <= t < 64,
            -1 <= df <= 1,
            -1 <= dr <= 1,
            1 <= step <= d,
            0 <= t % 8 < 8,
            t == (t / 8) * 8 + t % 8,
            0 <= t / 8 < 8,
            0 <= t % 8 + df * d < 8,
            0 <= t / 8 + dr * d < 8,
    ;
    assert(offset_square(t, df * step, dr * step) == Some((t + (dr * 8 + df) * step) as u8));
    if step < d {
        assert(b[t + (dr * 8 + df) * step] is None);
        lemma_ray_reaches(b, t, df, dr, d, step + 1);
    }
}

/// Bishops, rooks and queens attack along open lines: a piece of `c` that
/// moves along the direction (`df` files, `dr` ranks per step) and stands
/// `d` steps from `t`, with every square between empty, is among the
/// attackers of `t`, so `t` is attacked by `c`. Bishops move along the
/// diagonals, rooks along files and ranks, queens along both.
pub proof fn law_line_pieces_attack_open_lines(
    b: Seq<Option<Piece>>,
    t: int,
    c: Color,
    df: int,
    dr: int,
    d: int,
    role: Role,
)
    requires
        b.len() == 64,
        0 <= t < 64,
        -1 <= df <= 1,
        -1 <= dr <= 1,
        df != 0 || dr != 0,
        1 <= d <= 7,
        0 <= t % 8 + df * d < 8,
        0 <= t / 8 + dr * d < 8,
        b[t + (dr * 8 + df) * d] == Some(Piece { color: c, role }),
        forall|e: int| 1 <= e < d ==> b[#[trigger] (t + (dr * 8 + df) * e)] is None,
        role == Role::Queen || (role == Role::Bishop && df != 0 && dr != 0) || (role == Role::Rook
            && (df == 0 || dr == 0)),
    ensures
        attackers(b, t, c).contains((t + (dr * 8 + df) * d) as u8),
        is_attacked(b, t, c),
{
    let sq = (t + (dr * 8 + df) * d) as u8;
    lemma_ray_reaches(b, t, df, dr, d, 1);
    assert(sq as int == t + (dr * 8 + df) * d);
    let k: int = if df == -1 && dr == -1 { 0 } else if df == -1 && dr == 1 { 1 } else if df == 1 && dr
        == -1 { 2 } else if df == 1 && dr == 1 { 3 } else if dr == 0 && df == -1 { 4 } else if dr == 0 { 5 } else if dr
        == -1 { 6 } else { 7 };
    assert(ray_dir(k) == (df, dr));
    assert(slides_along(role, k));
    lemma_ray_found(b, t, c, 8, k);
    let k4 = ray_attackers(b, t, c, 8);
    let a = attackers(b, t, c);
    let pre = knight_attackers(b, t, c, 8).len() + pawn_attackers(b, t, c, 2).len() + king_attackers(
        b,
        t,
        c,
        8,
    ).len();
    let i = choose|i: int| 0 <= i < k4.len() && k4[i] == sq;
    assert(a[pre + i] == sq);
}

proof fn lemma_ray_found(b: Seq<Option<Piece>>, t: int, c: Color, n: int, k: int)
    requires
        0 <= k < n,
        ray_first(b, t, ray_dir(k).0, ray_dir(k).1, 1) matches Some(q) && b[q as int] matches Some(p)
            && p.color == c && slides_along(p.role, k),
    ensures
        ray_attackers(b, t, c, n).contains(ray_first(b, t, ray_dir(k).0, ray_dir(k).1, 1)->0),
    decreases n,
{
    let a = ray_attackers(b, t, c, n);
    let q = ray_first(b, t, ray_dir(k).0, ray_dir(k).1, 1)->0;
    if k == n - 1 {
        assert(a[a.len() - 1] == q);
    } else {
        lemma_ray_found(b, t, c, n - 1, k);
        let prev = ray_attackers(b, t, c, n - 1);
        let i = choose|i: int| 0 <= i < prev.len() && prev[i] == q;
        assert(a[i] == q);
    }
}

proof fn lemma_knights_own(b: Seq<Option<Piece>>, t: int, c: Color, n: int)
    ensures
        forall|k: int| 0 <= k < knight_attackers(b, t, c, n).len() ==> (b[#[trigger] knight_attackers(b, t, c, n)[k] as int] matches Some(p) && p.color == c),
    decreases n,
{
    if n > 0 {
        lemma_knights_own(b, t, c, n - 1);
        let prev = knight_attackers(b, t, c, n - 1);
        let cur = knight_attackers(b, t, c, n);
        assert forall|k: int| 0 <= k < cur.len() implies (b[#[trigger] cur[k] as int] matches Some(p) && p.color == c) by {
            if k < prev.len() {
                assert(cur[k] == prev[k]);
            }
        }
    }
}

proof fn lemma_pawns_own(b: Seq<Option<Piece>>, t: int, c: Color, n: int)
    ensures
        forall|k: int| 0 <= k < pawn_attackers(b, t, c, n).len() ==> (b[#[trigger] pawn_attackers(b, t, c, n)[k] as int] matches Some(p) && p.color == c),
    decreases n,
{
    if n > 0 {
        lemma_pawns_own(b, t, c, n - 1);
        let prev = pawn_attackers(b, t, c, n - 1);
        let cur = pawn_attackers(b, t, c, n);
        assert forall|k: int| 0 <= k < cur.len() implies (b[#[trigger] cur[k] as int] matches Some(p) && p.color == c) by {
            if k < prev.len() {
                assert(cur[k] == prev[k]);
            }
        }
    }
}

proof fn lemma_kings_own(b: Seq<Option<Piece>>, t: int, c: Color, n: int)
    ensures
        forall|k: int| 0 <= k < king_attackers(b, t, c, n).len() ==> (b[#[trigger] king_attackers(b, t, c, n)[k] as int] matches Some(p) && p.color == c),
    decreases n,
{
    if n > 0 {
        lemma_kings_own(b, t, c, n - 1);
        let prev = king_attackers(b, t, c, n - 1);
        let cur = king_attackers(b, t, c, n);
        assert forall|k: int| 0 <= k < cur.len() implies (b[#[trigger] cur[k] as int] matches Some(p) && p.color == c) by {
            if k < prev.len() {
                assert(cur[k] == prev[k]);
            }
        }
    }
}

proof fn lemma_rays_own(b: Seq<Option<Piece>>, t: int, c: Color, n: int)
    ensures
        forall|k: int| 0 <= k < ray_attackers(b, t, c, n).len() ==> (b[#[trigger] ray_attackers(b, t, c, n)[k] as int] matches Some(p) && p.color == c),
    decreases n,
{
    if n > 0 {
        lemma_rays_own(b, t, c, n - 1);
        let prev = ray_attackers(b, t, c, n - 1);
        let cur = ray_attackers(b, t, c, n);
        assert forall|k: int| 0 <= k < cur.len() implies (b[#[trigger] cur[k] as int] matches Some(p) && p.color == c) by {
            if k < prev.len() {
                assert(cur[k] == prev[k]);
            }
        }
    }
}

/// `is_square_attacked`: whether a piece of `c` attacks `target`.
pub fn is_square_attacked(b: &Board, target: u8, c: Color) -> (r: bool)
    requires
        target < 64,
    ensures
        r == is_attacked(b@, target as int, c),
{
    let a = get_attackers(b, target, c);
    a.len() > 0
}


// ---------------------------------------------------------------------
// The board as text
// ---------------------------------------------------------------------

/// The letter of a piece: p n b r q k, upper case for White.
pub open spec fn piece_letter(p: Piece) -> char {
    let c = match p.role {
        Role::Pawn => 'p',
        Role::Knight => 'n',
        Role::Bishop => 'b',
        Role::Rook => 'r',
        Role::Queen => 'q',
        Role::King => 'k',
    };
    if p.color == Color::White {
        crate::text::ascii_upper(c)
    } else {
        c
    }
}

/// One square of the diagram: the piece's letter or a dot, then a space.
pub open spec fn square_text(s: Option<Piece>) -> Seq<char> {
    match s {
        Some(p) => seq![piece_letter(p), ' '],
        None => ". "@,
    }
}

/// The first `n` squares of rank `r`, from the a-file.
pub open spec fn rank_squares(b: Seq<Option<Piece>>, r: int, n: int) -> Seq<char>
    decreases n,
{
    if n <= 0 {
        Seq::empty()
    } else {
        rank_squares(b, r, n - 1) + square_text(b[r * 8 + n - 1])
    }
}

/// The line of rank `r` (0 for the first rank): its number, the squares, its number again.
pub open spec fn rank_line(b: Seq<Option<Piece>>, r: int) -> Seq<char> {
    crate::text::decimal((r + 1) as nat) + " | "@ + rank_squares(b, r, 8) + "| "@ + crate::text::decimal(
        (r + 1) as nat,
    ) + "\n"@
}

/// The lines of the ranks from rank `r` down to the first.
pub open spec fn ranks_down(b: Seq<Option<Piece>>, r: int) -> Seq<char>
    decreases r + 1,
{
    if r < 0 {
        Seq::empty()
    } else {
        rank_line(b, r) + ranks_down(b, r - 1)
    }
}

/// The board as text, White at the bottom, framed by the file letters.
pub open spec fn diagram(b: Seq<Option<Piece>>) -> Seq<char> {
    "\n    a b c d e f g h\n"@ + "  +-----------------+\n"@ + ranks_down(b, 7) + "  +-----------------+\n"@
        + "    a b c d e f g h\n\n"@
}

fn push_square(out: &mut Vec<char>, s: Option<Piece>)
    ensures
        final(out)@ == old(out)@ + square_text(s),
{
    match s {
        Some(p) => {
            let c = match p.role {
                Role::Pawn => 'p',
                Role::Knight => 'n',
                Role::Bishop => 'b',
                Role::Rook => 'r',
                Role::Queen => 'q',
                Role::King => 'k',
            };
            let letter = if p.color == Color::White {
                crate::text::to_ascii_upper(c)
            } else {
                c
            };
            out.push(letter);
            out.push(' ');
            assert(final(out)@ =~= old(out)@ + square_text(s));
        },
        None => {
            crate::text::push_str(out, ". ");
        },
    }
}

/// The text that `print_board` shows for the board.
pub fn board_diagram(b: &Board) -> (r: String)
    ensures
        r@ == diagram(b@),
{
    let mut out = crate::text::chars_of("\n    a b c d e f g h\n");
    crate::text::push_str(&mut out, "  +-----------------+\n");
    let ghost head = out@;
    let mut r: i32 = 7;
    while r >= 0
        invariant
            -1 <= r <= 7,
            out@ + ranks_down(b@, r as int) == head + ranks_down(b@, 7),
        decreases r + 1,
    {
        let ghost before = out@;
        crate::text::push_decimal(&mut out, (r + 1) as u64);
        crate::text::push_str(&mut out, " | ");
        let ghost mid = out@;
        let mut f: u8 = 0;
        while f < 8
            invariant
                0 <= r <= 7,
                f <= 8,
                out@ == mid + rank_squares(b@, r as int, f as int),
            decreases 8 - f,
        {
            let sq: u8 = (r as u8) * 8 + f;
            push_square(&mut out, b.get(sq));
            f = f + 1;
        }
        crate::text::push_str(&mut out, "| ");
        crate::text::push_decimal(&mut out, (r + 1) as u64);
        crate::text::push_str(&mut out, "\n");
        assert(out@ =~= before + rank_line(b@, r as int));
        r = r - 1;
    }
    crate::text::push_str(&mut out, "  +-----------------+\n");
    crate::text::push_str(&mut out, "    a b c d e f g h\n\n");
    assert(out@ =~= diagram(b@));
    crate::text::string_of(&out)
}

} // verus!
