//! The rules of chess, from the `shakmaty` crate.
//!
//! A position travels through the library as its FEN text, and a move as its
//! UCI text in that position. Everything the rules decide (which moves are
//! legal, where they lead, how they are written, whether a king is in check)
//! is asked of `shakmaty` through the wrappers below, each of which names its
//! result with an uninterpreted function of the texts it is given.
use vstd::prelude::*;
use shakmaty::fen::Fen;
use shakmaty::san::San;
use shakmaty::uci::UciMove;
use shakmaty::{CastlingMode, Chess, EnPassantMode, Position, Square};
use crate::board::{lemma_board_len, piece_value, value_of, Board, Color, Piece, Role};
use crate::review::{
    base_category, book_plies, brilliance, final_category, is_sacrifice, loss_fits, loss_of, move_loss,
    perspective, review_category, review_reason, review_reason_text, side_eval, category_name,
    Category,
};
use crate::notation::{get_san_candidates, san_candidates, GameResult};
use crate::tactics::{
    detect_tactical_motive, move_ok, tactical_motive, MoveFacts, PositionFacts, PositionView,
};
use crate::text::{
    chars_of, decimal, joined, lemma_joined_push, lowercase, push_all, push_decimal, push_str,
    string_of, trimmed, unicode_lowercase, ascii_lowered, is_ascii_text, lemma_trimmed_ascii,
};

verus! {

// ---------------------------------------------------------------------
// Names for what shakmaty computes
// ---------------------------------------------------------------------

/// The FEN of the position after the UCI move `uci` in the position `fen`.
pub uninterp spec fn played_uci(fen: Seq<char>, uci: Seq<char>) -> Option<Seq<char>>;

/// The UCI text (standard castling notation) of the legal move that `uci` denotes in `fen`.
pub uninterp spec fn legal_uci(fen: Seq<char>, uci: Seq<char>) -> Option<Seq<char>>;

/// The UCI text of the legal move that the algebraic notation `san` denotes in `fen`.
pub uninterp spec fn san_to_uci(fen: Seq<char>, san: Seq<char>) -> Option<Seq<char>>;

/// The algebraic notation of the legal move that `uci` denotes in `fen`.
pub uninterp spec fn uci_to_san(fen: Seq<char>, uci: Seq<char>) -> Option<Seq<char>>;

/// The facts of the legal move that `uci` denotes in `fen`: the code of the
/// moving role, its square of departure, its square of arrival, the code of
/// the captured role, whether it is en passant, whether it castles, and the
/// code of the promotion role (codes 1 to 6: pawn, knight, bishop, rook, queen, king).
pub uninterp spec fn move_facts_of(fen: Seq<char>, uci: Seq<char>) -> Option<(u8, Option<u8>, u8, Option<u8>, bool, bool, Option<u8>)>;

/// What stands on square `sq` of `fen`: whether it is white, and the code of its role.
pub uninterp spec fn piece_on(fen: Seq<char>, sq: u8) -> Option<Option<(bool, u8)>>;

/// Whether White is to move in `fen`.
pub uninterp spec fn white_to_move(fen: Seq<char>) -> Option<bool>;

/// The full-move number of `fen`.
pub uninterp spec fn fullmove_number(fen: Seq<char>) -> Option<u32>;

/// How many legal moves the side to move has in `fen`.
pub uninterp spec fn legal_move_count(fen: Seq<char>) -> Option<usize>;

/// Whether the side to move is in check in `fen`.
pub uninterp spec fn in_check(fen: Seq<char>) -> Option<bool>;

/// Whether the side to move is checkmated in `fen`.
pub uninterp spec fn checkmated(fen: Seq<char>) -> Option<bool>;

/// Whether the side to move is stalemated in `fen`.
pub uninterp spec fn stalemated(fen: Seq<char>) -> Option<bool>;

/// Whether the game is over in `fen`: checkmate, stalemate or insufficient material.
pub uninterp spec fn game_over(fen: Seq<char>) -> Option<bool>;

/// Whether the piece on `sq` gives check in `fen`.
pub uninterp spec fn gives_check(fen: Seq<char>, sq: u8) -> Option<bool>;

// ---------------------------------------------------------------------
// Wrappers
// ---------------------------------------------------------------------

/// Plays a move: reads `fen` with `Fen::from_ascii` and `Fen::into_position::<Chess>`
/// (standard castling), reads `uci` with `UciMove::from_ascii`, makes it a move with
/// `UciMove::to_move`, plays it with `Position::play` and writes the new position with
/// `Fen::from_position` (en passant square only when the capture is legal).
/// Claimed: the result is `played_uci` of the two texts.
#[verifier::external_body]
fn fen_play_uci(fen: &str, uci: &str) -> (r: Option<String>)
    ensures
        r.deep_view() == played_uci(fen@, uci@),
{
    let pos: Chess = Fen::from_ascii(fen.as_bytes()).ok()?.into_position(CastlingMode::Standard).ok()?;
    let m = UciMove::from_ascii(uci.as_bytes()).ok()?.to_move(&pos).ok()?;
    let next = pos.play(&m).ok()?;
    Some(Fen::from_position(next, EnPassantMode::Legal).to_string())
}

/// Makes a UCI text a legal move of `fen` with `UciMove::to_move` and writes it back
/// with `Move::to_uci(CastlingMode::Standard)`. Claimed: the result is `legal_uci`, and
/// the text written can be played in `fen`: `UciMove::to_move` reads it back as the
/// same legal move (castling, written as the king's two-square step, is read as
/// castling again, since the standard castling mode keeps the king on the e-file and
/// the rooks in the corners).
#[verifier::external_body]
fn fen_legal_uci(fen: &str, uci: &str) -> (r: Option<String>)
    ensures
        r.deep_view() == legal_uci(fen@, uci@),
        r.deep_view() matches Some(c) ==> played_uci(fen@, c) is Some,
{
    let pos: Chess = Fen::from_ascii(fen.as_bytes()).ok()?.into_position(CastlingMode::Standard).ok()?;
    let m = UciMove::from_ascii(uci.as_bytes()).ok()?.to_move(&pos).ok()?;
    Some(m.to_uci(CastlingMode::Standard).to_string())
}

/// Reads algebraic notation with `San::from_ascii`, makes it a legal move of `fen` with
/// `San::to_move` and writes it in UCI with `Move::to_uci(CastlingMode::Standard)`.
/// Claimed: the result is `san_to_uci`, and, as for `fen_legal_uci`, the UCI text
/// written is read back by `UciMove::to_move` as the same legal move, so it can be
/// played in `fen`.
#[verifier::external_body]
fn fen_san_to_uci(fen: &str, san: &str) -> (r: Option<String>)
    ensures
        r.deep_view() == san_to_uci(fen@, san@),
        r.deep_view() matches Some(c) ==> played_uci(fen@, c) is Some,
{
    let pos: Chess = Fen::from_ascii(fen.as_bytes()).ok()?.into_position(CastlingMode::Standard).ok()?;
    let m = San::from_ascii(san.as_bytes()).ok()?.to_move(&pos).ok()?;
    Some(m.to_uci(CastlingMode::Standard).to_string())
}

/// Makes a UCI text a legal move of `fen` with `UciMove::to_move` and writes it with
/// `San::from_move` (no check mark). Claimed: the result is `uci_to_san`.
#[verifier::external_body]
fn fen_uci_to_san(fen: &str, uci: &str) -> (r: Option<String>)
    ensures
        r.deep_view() == uci_to_san(fen@, uci@),
{
    let pos: Chess = Fen::from_ascii(fen.as_bytes()).ok()?.into_position(CastlingMode::Standard).ok()?;
    let m = UciMove::from_ascii(uci.as_bytes()).ok()?.to_move(&pos).ok()?;
    Some(San::from_move(&pos, &m).to_string())
}

/// Makes a UCI text a legal move of `fen` with `UciMove::to_move` and reads it with
/// `Move::role`, `Move::from`, `Move::to`, `Move::capture`, `Move::is_en_passant`,
/// `Move::is_castle` and `Move::promotion`, roles as their `u8` codes (1 to 6) and
/// squares as their `u8` indices. Claimed: the result is `move_facts_of`, its codes
/// between 1 and 6 and its squares below 64, as shakmaty documents for `Role` and `Square`.
#[verifier::external_body]
fn fen_move_facts(fen: &str, uci: &str) -> (r: Option<(u8, Option<u8>, u8, Option<u8>, bool, bool, Option<u8>)>)
    ensures
        r == move_facts_of(fen@, uci@),
        r matches Some(f) ==> 1 <= f.0 <= 6 && f.2 < 64 && (f.1 matches Some(s) ==> s < 64)
            && (f.3 matches Some(c) ==> 1 <= c <= 6) && (f.6 matches Some(c) ==> 1 <= c <= 6),
{
    let pos: Chess = Fen::from_ascii(fen.as_bytes()).ok()?.into_position(CastlingMode::Standard).ok()?;
    let m = UciMove::from_ascii(uci.as_bytes()).ok()?.to_move(&pos).ok()?;
    Some((u8::from(m.role()), m.from().map(u8::from), u8::from(m.to()), m.capture().map(u8::from),
        m.is_en_passant(), m.is_castle(), m.promotion().map(u8::from)))
}

/// Reads square `sq` of `fen` with `Board::piece_at` (`Square::new(sq)`), the piece as
/// `Color::is_white` and the `u8` code of its role. Claimed: the result is `piece_on`,
/// the code between 1 and 6.
#[verifier::external_body]
fn fen_piece_at(fen: &str, sq: u8) -> (r: Option<Option<(bool, u8)>>)
    requires
        sq < 64,
    ensures
        r == piece_on(fen@, sq),
        r matches Some(Some(p)) ==> 1 <= p.1 <= 6,
{
    let pos: Chess = Fen::from_ascii(fen.as_bytes()).ok()?.into_position(CastlingMode::Standard).ok()?;
    Some(pos.board().piece_at(Square::new(sq as u32)).map(|p| (p.color.is_white(), u8::from(p.role))))
}

/// `Position::turn` of `fen`, as `Color::is_white`. Claimed: the result is `white_to_move`.
#[verifier::external_body]
fn fen_white_to_move(fen: &str) -> (r: Option<bool>)
    ensures
        r == white_to_move(fen@),
{
    let pos: Chess = Fen::from_ascii(fen.as_bytes()).ok()?.into_position(CastlingMode::Standard).ok()?;
    Some(pos.turn().is_white())
}

/// `Position::fullmoves` of `fen`. Claimed: the result is `fullmove_number`.
#[verifier::external_body]
fn fen_fullmoves(fen: &str) -> (r: Option<u32>)
    ensures
        r == fullmove_number(fen@),
{
    let pos: Chess = Fen::from_ascii(fen.as_bytes()).ok()?.into_position(CastlingMode::Standard).ok()?;
    Some(pos.fullmoves().get())
}

/// The length of `Position::legal_moves` of `fen`. Claimed: the result is `legal_move_count`.
#[verifier::external_body]
fn fen_legal_move_count(fen: &str) -> (r: Option<usize>)
    ensures
        r == legal_move_count(fen@),
{
    let pos: Chess = Fen::from_ascii(fen.as_bytes()).ok()?.into_position(CastlingMode::Standard).ok()?;
    Some(pos.legal_moves().len())
}

/// `Position::is_check` of `fen`. Claimed: the result is `in_check`.
#[verifier::external_body]
fn fen_is_check(fen: &str) -> (r: Option<bool>)
    ensures
        r == in_check(fen@),
{
    let pos: Chess = Fen::from_ascii(fen.as_bytes()).ok()?.into_position(CastlingMode::Standard).ok()?;
    Some(pos.is_check())
}

/// `Position::is_checkmate` of `fen`. Claimed: the result is `checkmated`.
#[verifier::external_body]
fn fen_is_checkmate(fen: &str) -> (r: Option<bool>)
    ensures
        r == checkmated(fen@),
{
    let pos: Chess = Fen::from_ascii(fen.as_bytes()).ok()?.into_position(CastlingMode::Standard).ok()?;
    Some(pos.is_checkmate())
}

/// `Position::is_stalemate` of `fen`. Claimed: the result is `stalemated`.
#[verifier::external_body]
fn fen_is_stalemate(fen: &str) -> (r: Option<bool>)
    ensures
        r == stalemated(fen@),
{
    let pos: Chess = Fen::from_ascii(fen.as_bytes()).ok()?.into_position(CastlingMode::Standard).ok()?;
    Some(pos.is_stalemate())
}

/// `Position::is_game_over` of `fen`. Claimed: the result is `game_over`.
#[verifier::external_body]
fn fen_is_game_over(fen: &str) -> (r: Option<bool>)
    ensures
        r == game_over(fen@),
{
    let pos: Chess = Fen::from_ascii(fen.as_bytes()).ok()?.into_position(CastlingMode::Standard).ok()?;
    Some(pos.is_game_over())
}

/// Whether `Position::checkers` of `fen` contains square `sq` (`Bitboard::contains`,
/// `Square::new(sq)`). Claimed: the result is `gives_check`.
#[verifier::external_body]
fn fen_gives_check(fen: &str, sq: u8) -> (r: Option<bool>)
    requires
        sq < 64,
    ensures
        r == gives_check(fen@, sq),
{
    let pos: Chess = Fen::from_ascii(fen.as_bytes()).ok()?.into_position(CastlingMode::Standard).ok()?;
    Some(pos.checkers().contains(Square::new(sq as u32)))
}


// ---------------------------------------------------------------------
// Reading a position and a move
// ---------------------------------------------------------------------

/// The role with code `c` (1 to 6: pawn, knight, bishop, rook, queen, king).
pub open spec fn role_code(c: u8) -> Role {
    if c == 1 {
        Role::Pawn
    } else if c == 2 {
        Role::Knight
    } else if c == 3 {
        Role::Bishop
    } else if c == 4 {
        Role::Rook
    } else if c == 5 {
        Role::Queen
    } else {
        Role::King
    }
}

fn role_from_code(c: u8) -> (r: Role)
    ensures
        r == role_code(c),
{
    if c == 1 {
        Role::Pawn
    } else if c == 2 {
        Role::Knight
    } else if c == 3 {
        Role::Bishop
    } else if c == 4 {
        Role::Rook
    } else if c == 5 {
        Role::Queen
    } else {
        Role::King
    }
}

pub open spec fn piece_from(p: (bool, u8)) -> Piece {
    Piece {
        color: if p.0 {
            Color::White
        } else {
            Color::Black
        },
        role: role_code(p.1),
    }
}

/// What stands on square `sq` of `fen`, as a piece of the library.
pub open spec fn square_content(fen: Seq<char>, sq: int) -> Option<Piece> {
    match piece_on(fen, sq as u8) {
        Some(Some(p)) => Some(piece_from(p)),
        _ => None,
    }
}

/// The squares below `n` whose piece gives check in `fen`, in increasing order.
pub open spec fn checkers_below(fen: Seq<char>, n: int) -> Seq<u8>
    decreases n,
{
    if n <= 0 {
        Seq::empty()
    } else {
        checkers_below(fen, n - 1) + if gives_check(fen, (n - 1) as u8) == Some(true) {
            seq![(n - 1) as u8]
        } else {
            Seq::empty()
        }
    }
}

/// Whether shakmaty reads every fact of `fen` that the coach needs.
pub open spec fn readable(fen: Seq<char>) -> bool {
    &&& white_to_move(fen) is Some
    &&& fullmove_number(fen) is Some
    &&& legal_move_count(fen) is Some
    &&& in_check(fen) is Some
    &&& stalemated(fen) is Some
    &&& forall|s: u8| s < 64 ==> (#[trigger] piece_on(fen, s)) is Some
    &&& forall|s: u8| s < 64 ==> (#[trigger] gives_check(fen, s)) is Some
}

/// The facts of the position `fen`, when shakmaty reads them all.
pub open spec fn position_view_of(fen: Seq<char>) -> Option<PositionView> {
    if readable(fen) {
        Some(
            PositionView {
                board: Seq::new(64, |i: int| square_content(fen, i)),
                turn: if white_to_move(fen)->0 {
                    Color::White
                } else {
                    Color::Black
                },
                fullmoves: fullmove_number(fen)->0 as int,
                legal_moves: legal_move_count(fen)->0 as int,
                in_check: in_check(fen)->0,
                stalemate: stalemated(fen)->0,
                checkers: checkers_below(fen, 64),
            },
        )
    } else {
        None
    }
}

/// The facts of the position given in FEN, read with shakmaty.
pub fn position_facts(fen: &str) -> (r: Option<PositionFacts>)
    ensures
        r matches Some(p) ==> position_view_of(fen@) == Some(p@),
        r is None ==> position_view_of(fen@) is None,
{
    let white = match fen_white_to_move(fen) {
        Some(w) => w,
        None => return None,
    };
    let fullmoves = match fen_fullmoves(fen) {
        Some(n) => n,
        None => return None,
    };
    let legal_moves = match fen_legal_move_count(fen) {
        Some(n) => n,
        None => return None,
    };
    let check = match fen_is_check(fen) {
        Some(b) => b,
        None => return None,
    };
    let stalemate = match fen_is_stalemate(fen) {
        Some(b) => b,
        None => return None,
    };
    let mut board = Board::empty();
    proof {
        lemma_board_len(board);
    }
    let mut checkers: Vec<u8> = Vec::new();
    let mut sq: u8 = 0;
    while sq < 64
        invariant
            sq <= 64,
            board@.len() == 64,
            forall|k: int| 0 <= k < sq ==> board@[k] == square_content(fen@, k),
            forall|k: int| sq <= k < 64 ==> board@[k] == None::<Piece>,
            forall|s: u8| s < sq ==> (#[trigger] piece_on(fen@, s)) is Some,
            forall|s: u8| s < sq ==> (#[trigger] gives_check(fen@, s)) is Some,
            checkers@ == checkers_below(fen@, sq as int),
        decreases 64 - sq,
    {
        let content = match fen_piece_at(fen, sq) {
            Some(c) => c,
            None => {
                assert(!readable(fen@));
                return None;
            },
        };
        let gives = match fen_gives_check(fen, sq) {
            Some(g) => g,
            None => {
                assert(!readable(fen@));
                return None;
            },
        };
        match content {
            Some(p) => {
                let color = if p.0 {
                    Color::White
                } else {
                    Color::Black
                };
                board.set(sq, Some(Piece { color, role: role_from_code(p.1) }));
            },
            None => {},
        }
        if gives {
            checkers.push(sq);
        }
        proof {
            lemma_board_len(board);
            assert(((sq as int) as u8) == sq);
            assert(board@[sq as int] == square_content(fen@, sq as int));
        }
        sq = sq + 1;
        assert(checkers@ =~= checkers_below(fen@, sq as int));
    }
    proof {
        lemma_board_len(board);
        assert(board@ =~= Seq::new(64, |i: int| square_content(fen@, i)));
    }
    Some(
        PositionFacts {
            board,
            turn: if white {
                Color::White
            } else {
                Color::Black
            },
            fullmoves,
            legal_moves,
            in_check: check,
            stalemate,
            checkers,
        },
    )
}

/// The library's facts of a move, from the codes shakmaty gives.
pub open spec fn facts_from(t: (u8, Option<u8>, u8, Option<u8>, bool, bool, Option<u8>)) -> MoveFacts {
    MoveFacts {
        role: role_code(t.0),
        from: t.1,
        to: t.2,
        capture: match t.3 {
            Some(c) => Some(role_code(c)),
            None => None,
        },
        en_passant: t.4,
        castle: t.5,
        promotion: match t.6 {
            Some(c) => Some(role_code(c)),
            None => None,
        },
    }
}

/// The facts of the legal move that `uci` denotes in `fen`.
pub open spec fn move_view_of(fen: Seq<char>, uci: Seq<char>) -> Option<MoveFacts> {
    match move_facts_of(fen, uci) {
        Some(t) => Some(facts_from(t)),
        None => None,
    }
}

/// The facts of a move given in UCI notation, read with shakmaty.
pub fn move_facts(fen: &str, uci: &str) -> (r: Option<MoveFacts>)
    ensures
        r == move_view_of(fen@, uci@),
        r matches Some(m) ==> move_ok(m),
{
    match fen_move_facts(fen, uci) {
        Some(t) => {
            let capture = match t.3 {
                Some(c) => Some(role_from_code(c)),
                None => None,
            };
            let promotion = match t.6 {
                Some(c) => Some(role_from_code(c)),
                None => None,
            };
            Some(
                MoveFacts {
                    role: role_from_code(t.0),
                    from: t.1,
                    to: t.2,
                    capture,
                    en_passant: t.4,
                    castle: t.5,
                    promotion,
                },
            )
        },
        None => None,
    }
}


// ---------------------------------------------------------------------
// Games
// ---------------------------------------------------------------------

/// The starting position of a game, in FEN.
pub open spec fn start_position() -> Seq<char> {
    "rnbqkbnr/pppppppp/8/8/8/8/PPPPPPPP/RNBQKBNR w KQkq - 0 1"@
}

/// The starting position of a game, in FEN.
pub fn start_fen() -> (r: String)
    ensures
        r@ == start_position(),
{
    string_of(&chars_of("rnbqkbnr/pppppppp/8/8/8/8/PPPPPPPP/RNBQKBNR w KQkq - 0 1"))
}

/// The position reached by playing the moves of `history` (UCI texts) from
/// the start, passing over any move that is not legal where it comes.
pub open spec fn replay(history: Seq<Seq<char>>) -> Seq<char>
    decreases history.len(),
{
    if history.len() == 0 {
        start_position()
    } else {
        let before = replay(history.drop_last());
        match played_uci(before, history.last()) {
            Some(after) => after,
            None => before,
        }
    }
}

/// `rebuild_board`: the position (in FEN) after the moves of the history.
pub fn rebuild_board(history: &Vec<String>) -> (r: String)
    ensures
        r@ == replay(history.deep_view()),
{
    let ghost h = history.deep_view();
    let mut pos = start_fen();
    let mut i: usize = 0;
    while i < history.len()
        invariant
            i <= history.len(),
            h == history.deep_view(),
            pos@ == replay(h.take(i as int)),
        decreases history.len() - i,
    {
        assert(h.take(i + 1).drop_last() =~= h.take(i as int));
        assert(h.take(i + 1).last() == history@[i as int]@);
        match fen_play_uci(pos.as_str(), history[i].as_str()) {
            Some(next) => {
                pos = next;
            },
            None => {},
        }
        i = i + 1;
    }
    assert(h.take(history.len() as int) =~= h);
    pos
}

/// Taking back the last move and rebuilding the position gives the position
/// from before that move.
pub proof fn law_undo(history: Seq<Seq<char>>, m: Seq<char>)
    ensures
        replay(history.push(m).drop_last()) == replay(history),
        played_uci(replay(history), m) matches Some(after) ==> replay(history.push(m)) == after,
        played_uci(replay(history), m) is None ==> replay(history.push(m)) == replay(history),
{
    assert(history.push(m).drop_last() =~= history);
}

// ---------------------------------------------------------------------
// The record of a game in progress
// ---------------------------------------------------------------------

/// An evaluation kept for a position: the score in centipawns, the engine's
/// best move, the expected reply and the follow-up, as UCI texts.
pub type Evaluation = (i32, String, String, String);

/// The moves of a game (UCI and algebraic notation), the evaluation of the
/// position before each move and after the last, and the current position.
pub struct GameRecord {
    moves: Vec<String>,
    sans: Vec<String>,
    evals: Vec<Evaluation>,
    pos: String,
}

impl GameRecord {
    /// The moves played, as UCI texts.
    pub closed spec fn moves_played(&self) -> Seq<Seq<char>> {
        self.moves.deep_view()
    }

    /// The moves played, in algebraic notation.
    pub closed spec fn notation(&self) -> Seq<Seq<char>> {
        self.sans.deep_view()
    }

    /// The evaluations: one for the start and one after each move.
    pub closed spec fn evaluations(&self) -> Seq<(i32, Seq<char>, Seq<char>, Seq<char>)> {
        self.evals.deep_view()
    }

    /// The current position, in FEN.
    pub closed spec fn position(&self) -> Seq<char> {
        self.pos@
    }

    /// The lists stay aligned (one evaluation more than moves, one notation
    /// per move) and the position is the one the moves lead to.
    pub open spec fn wf(&self) -> bool {
        &&& self.evaluations().len() == self.moves_played().len() + 1
        &&& self.notation().len() == self.moves_played().len()
        &&& self.position() == replay(self.moves_played())
    }

    /// Every record is well formed.
    #[verifier::type_invariant]
    spec fn aligned(&self) -> bool {
        self.wf()
    }

    /// A record at the starting position, with its first evaluation.
    pub fn new(initial: Evaluation) -> (r: GameRecord)
        ensures
            r.wf(),
            r.moves_played() == Seq::<Seq<char>>::empty(),
            r.notation() == Seq::<Seq<char>>::empty(),
            r.evaluations() == seq![initial.deep_view()],
            r.position() == start_position(),
    {
        let mut evals: Vec<Evaluation> = Vec::new();
        evals.push(initial);
        let r = GameRecord { moves: Vec::new(), sans: Vec::new(), evals, pos: start_fen() };
        assert(r.moves_played() =~= Seq::<Seq<char>>::empty());
        assert(r.notation() =~= Seq::<Seq<char>>::empty());
        assert(r.evaluations() =~= seq![initial.deep_view()]);
        r
    }

    /// Plays `uci` in the current position and records it with its notation
    /// and the evaluation of the position it leads to; a move that cannot be
    /// played leaves the record as it was.
    pub fn play(&mut self, uci: String, san: String, eval: Evaluation) -> (ok: bool)
        ensures
            final(self).wf(),
            ok == played_uci(old(self).position(), uci@) is Some,
            ok ==> final(self).moves_played() == old(self).moves_played().push(uci@),
            ok ==> final(self).notation() == old(self).notation().push(san@),
            ok ==> final(self).evaluations() == old(self).evaluations().push(eval.deep_view()),
            ok ==> Some(final(self).position()) == played_uci(old(self).position(), uci@),
            !ok ==> *final(self) == *old(self),
    {
        proof {
            use_type_invariant(&*self);
        }
        match play_move(self.pos.as_str(), uci.as_str()) {
            Some(after) => {
                let mut taken = GameRecord::new((0, String::new(), String::new(), String::new()));
                std::mem::swap(&mut taken, self);
                let ghost u = uci@;
                let ghost sn = san@;
                let ghost ev = eval.deep_view();
                let GameRecord { mut moves, mut sans, mut evals, pos: _ } = taken;
                let ghost m0 = moves.deep_view();
                let ghost s0 = sans.deep_view();
                let ghost e0 = evals.deep_view();
                moves.push(uci);
                sans.push(san);
                evals.push(eval);
                assert(moves.deep_view() =~= m0.push(u));
                assert(sans.deep_view() =~= s0.push(sn));
                assert(evals.deep_view() =~= e0.push(ev));
                assert(m0.push(u).drop_last() =~= m0);
                *self = GameRecord { moves, sans, evals, pos: after };
                true
            },
            None => false,
        }
    }

    /// Takes back the last move with its notation and evaluation, and
    /// rebuilds the position; with no move played nothing changes.
    pub fn undo(&mut self) -> (undone: bool)
        ensures
            final(self).wf(),
            undone == (old(self).moves_played().len() > 0),
            undone ==> final(self).moves_played() == old(self).moves_played().drop_last(),
            undone ==> final(self).notation() == old(self).notation().drop_last(),
            undone ==> final(self).evaluations() == old(self).evaluations().drop_last(),
            !undone ==> *final(self) == *old(self),
    {
        proof {
            use_type_invariant(&*self);
        }
        if self.moves.len() == 0 {
            return false;
        }
        let mut taken = GameRecord::new((0, String::new(), String::new(), String::new()));
        std::mem::swap(&mut taken, self);
        let GameRecord { mut moves, mut sans, mut evals, pos: _ } = taken;
        let ghost m0 = moves.deep_view();
        let ghost s0 = sans.deep_view();
        let ghost e0 = evals.deep_view();
        moves.pop();
        sans.pop();
        evals.pop();
        assert(moves.deep_view() =~= m0.drop_last());
        assert(sans.deep_view() =~= s0.drop_last());
        assert(evals.deep_view() =~= e0.drop_last());
        let pos = rebuild_board(&moves);
        *self = GameRecord { moves, sans, evals, pos };
        true
    }

    /// The moves played, as UCI texts.
    pub fn moves(&self) -> (r: &Vec<String>)
        ensures
            r.deep_view() == self.moves_played(),
    {
        &self.moves
    }

    /// The moves played, in algebraic notation.
    pub fn sans(&self) -> (r: &Vec<String>)
        ensures
            r.deep_view() == self.notation(),
    {
        &self.sans
    }

    /// The evaluations, the first for the start.
    pub fn evals(&self) -> (r: &Vec<Evaluation>)
        ensures
            r.deep_view() == self.evaluations(),
    {
        &self.evals
    }

    /// The evaluation of the current position.
    pub fn last_eval(&self) -> (r: &Evaluation)
        ensures
            r.deep_view() == self.evaluations().last(),
    {
        proof {
            use_type_invariant(self);
        }
        let n = self.evals.len();
        proof {
            assert(self.evals.deep_view()[n - 1] == self.evals@[n - 1].deep_view());
        }
        &self.evals[n - 1]
    }

    /// The current position, in FEN.
    pub fn position_fen(&self) -> (r: &str)
        ensures
            r@ == self.position(),
    {
        self.pos.as_str()
    }
}

/// Taking back a move just played gives back the record as it was: the same
/// moves, notation, evaluations and position.
pub proof fn law_record_undo(before: GameRecord, played: GameRecord, undone: GameRecord, m: Seq<char>, san: Seq<char>, eval: (i32, Seq<char>, Seq<char>, Seq<char>))
    requires
        before.wf(),
        undone.wf(),
        played.moves_played() == before.moves_played().push(m),
        played.notation() == before.notation().push(san),
        played.evaluations() == before.evaluations().push(eval),
        undone.moves_played() == played.moves_played().drop_last(),
        undone.notation() == played.notation().drop_last(),
        undone.evaluations() == played.evaluations().drop_last(),
    ensures
        undone.moves_played() == before.moves_played(),
        undone.notation() == before.notation(),
        undone.evaluations() == before.evaluations(),
        undone.position() == before.position(),
{
    assert(before.moves_played().push(m).drop_last() =~= before.moves_played());
    assert(before.notation().push(san).drop_last() =~= before.notation());
    assert(before.evaluations().push(eval).drop_last() =~= before.evaluations());
}

/// The first candidate spelling that is a legal move in `fen`, as UCI text.
pub open spec fn first_legal_san(fen: Seq<char>, cands: Seq<Seq<char>>) -> Option<Seq<char>>
    decreases cands.len(),
{
    if cands.len() == 0 {
        None
    } else {
        match san_to_uci(fen, cands[0]) {
            Some(u) => Some(u),
            None => first_legal_san(fen, cands.drop_first()),
        }
    }
}

/// The legal move (as UCI text) that a typed or spoken command denotes in
/// `fen`: the first candidate spelling read as algebraic notation, else the
/// lower-cased command read as UCI.
pub open spec fn input_move(fen: Seq<char>, cmd: Seq<char>) -> Option<Seq<char>> {
    move_from_spellings(fen, trimmed(cmd), unicode_lowercase(trimmed(cmd)), unicode_lowercase(cmd))
}

/// The legal move denoted by the trimmed command `t`, given `t` lower-cased
/// and the whole command lower-cased: the first candidate spelling read as
/// algebraic notation, else the lower-cased command read as UCI.
pub open spec fn move_from_spellings(
    fen: Seq<char>,
    t: Seq<char>,
    lowered_t: Seq<char>,
    lowered_cmd: Seq<char>,
) -> Option<Seq<char>> {
    match first_legal_san(fen, san_candidates(t, lowered_t)) {
        Some(u) => Some(u),
        None => legal_uci(fen, lowered_cmd),
    }
}

/// `input_move` of an ASCII command, with its lower-casing spelled out.
pub open spec fn ascii_input_move(fen: Seq<char>, cmd: Seq<char>) -> Option<Seq<char>> {
    move_from_spellings(fen, trimmed(cmd), ascii_lowered(trimmed(cmd)), ascii_lowered(cmd))
}

/// The legal move that a command denotes in the position, as UCI text.
pub fn resolve_move_input(fen: &str, cmd: &str) -> (r: Option<String>)
    ensures
        r.deep_view() == input_move(fen@, cmd@),
        is_ascii_text(cmd@) ==> r.deep_view() == ascii_input_move(fen@, cmd@),
        r.deep_view() matches Some(u) ==> played_uci(fen@, u) is Some,
{
    proof {
        if is_ascii_text(cmd@) {
            lemma_trimmed_ascii(cmd@);
        }
    }
    let cands = get_san_candidates(cmd);
    let ghost cv = cands.deep_view();
    assert(cv.skip(0) =~= cv);
    let mut i: usize = 0;
    while i < cands.len()
        invariant
            i <= cands.len(),
            cv == cands.deep_view(),
            cv == san_candidates(trimmed(cmd@), unicode_lowercase(trimmed(cmd@))),
            is_ascii_text(cmd@) ==> is_ascii_text(trimmed(cmd@)),
            is_ascii_text(trimmed(cmd@)) ==> cv == san_candidates(
                trimmed(cmd@),
                ascii_lowered(trimmed(cmd@)),
            ),
            first_legal_san(fen@, cv.skip(i as int)) == first_legal_san(fen@, cv),
        decreases cands.len() - i,
    {
        assert(cv.skip(i as int)[0] == cands@[i as int]@);
        assert(cv.skip(i as int).drop_first() =~= cv.skip(i + 1));
        match fen_san_to_uci(fen, cands[i].as_str()) {
            Some(u) => {
                return Some(u);
            },
            None => {},
        }
        i = i + 1;
    }
    assert(cv.skip(cands.len() as int).len() == 0);
    let lowered = lowercase(cmd);
    fen_legal_uci(fen, lowered.as_str())
}

/// The coach's sentence for the move `uci` played in `fen`, `op` telling
/// whether the opponent plays it.
pub open spec fn move_description(fen: Seq<char>, uci: Seq<char>, op: bool) -> Option<Seq<char>> {
    match position_view_of(fen) {
        None => None,
        Some(before) => match played_uci(fen, uci) {
            None => None,
            Some(next) => match position_view_of(next) {
                None => None,
                Some(after) => match move_view_of(fen, uci) {
                    None => None,
                    Some(m) => Some(tactical_motive(before, after, m, after.in_check, op)),
                },
            },
        },
    }
}

/// The coach's sentence for a move given in UCI notation.
pub fn describe_move(fen: &str, uci: &str, is_opponent: bool) -> (r: Option<String>)
    ensures
        r.deep_view() == move_description(fen@, uci@, is_opponent),
{
    let before = match position_facts(fen) {
        Some(p) => p,
        None => return None,
    };
    let next = match fen_play_uci(fen, uci) {
        Some(n) => n,
        None => return None,
    };
    let after = match position_facts(next.as_str()) {
        Some(p) => p,
        None => return None,
    };
    let m = match move_facts(fen, uci) {
        Some(m) => m,
        None => return None,
    };
    let check = after.in_check;
    Some(detect_tactical_motive(&before, &after, &m, check, is_opponent))
}

/// A move in algebraic notation, or its UCI text when it is not legal in `fen`.
pub open spec fn san_or_uci_text(fen: Seq<char>, uci: Seq<char>) -> Seq<char> {
    match uci_to_san(fen, uci) {
        Some(s) => s,
        None => uci,
    }
}

/// Writes a move in algebraic notation, keeping its UCI text when it is not legal.
pub fn san_or_uci(fen: &str, uci: &str) -> (r: String)
    ensures
        r@ == san_or_uci_text(fen@, uci@),
{
    match fen_uci_to_san(fen, uci) {
        Some(s) => s,
        None => string_of(&chars_of(uci)),
    }
}

/// A move in algebraic notation, or nothing when it is not legal in `fen`.
pub open spec fn san_or_empty(fen: Seq<char>, uci: Seq<char>) -> Seq<char> {
    match uci_to_san(fen, uci) {
        Some(s) => s,
        None => Seq::empty(),
    }
}

fn san_or_nothing(fen: &str, uci: &str) -> (r: String)
    ensures
        r@ == san_or_empty(fen@, uci@),
{
    match fen_uci_to_san(fen, uci) {
        Some(s) => s,
        None => string_of(&Vec::new()),
    }
}

/// The engine's suggestion to the player, as shown and spoken.
pub struct Suggestion {
    /// The suggested move in UCI notation, when it is legal.
    pub uci: Option<String>,
    /// The suggested move in algebraic notation (empty when it is not legal).
    pub san: String,
    /// Whether it gives check.
    pub is_check: bool,
    /// Whether it mates.
    pub is_mate: bool,
    /// The idea behind it, and the expected continuation.
    pub idea: String,
}

pub struct SuggestionView {
    pub uci: Option<Seq<char>>,
    pub san: Seq<char>,
    pub is_check: bool,
    pub is_mate: bool,
    pub idea: Seq<char>,
}

impl View for Suggestion {
    type V = SuggestionView;

    open spec fn view(&self) -> SuggestionView {
        SuggestionView {
            uci: self.uci.deep_view(),
            san: self.san@,
            is_check: self.is_check,
            is_mate: self.is_mate,
            idea: self.idea@,
        }
    }
}

/// The idea behind the suggested move `best` of `fen`, followed, when the
/// engine's expected reply and follow-up are both legal, by
/// " If they reply with <reply>, we follow up with <follow-up>."
pub open spec fn suggestion_idea(fen: Seq<char>, next: Seq<char>, best: Seq<char>, reply: Seq<char>, follow: Seq<char>) -> Seq<char> {
    let idea = match move_description(fen, best, false) {
        Some(t) => t,
        None => Seq::empty(),
    };
    let expected = san_or_empty(next, reply);
    let follow_up = if uci_to_san(next, reply) is Some {
        match played_uci(next, reply) {
            Some(p2) => san_or_empty(p2, follow),
            None => Seq::empty(),
        }
    } else {
        Seq::empty()
    };
    if expected.len() != 0 && follow_up.len() != 0 {
        idea + " If they reply with "@ + expected + ", we follow up with "@ + follow_up + "."@
    } else {
        idea
    }
}

/// The suggestion made from the engine's principal variation `best`, `reply`, `follow`.
pub open spec fn suggestion_of(fen: Seq<char>, best: Seq<char>, reply: Seq<char>, follow: Seq<char>) -> SuggestionView {
    match uci_to_san(fen, best) {
        None => SuggestionView { uci: None, san: Seq::empty(), is_check: false, is_mate: false, idea: Seq::empty() },
        Some(san) => match played_uci(fen, best) {
            None => SuggestionView { uci: legal_uci(fen, best), san, is_check: false, is_mate: false, idea: Seq::empty() },
            Some(next) => SuggestionView {
                uci: legal_uci(fen, best),
                san,
                is_check: in_check(next) == Some(true),
                is_mate: checkmated(next) == Some(true),
                idea: suggestion_idea(fen, next, best, reply, follow),
            },
        },
    }
}

/// What to suggest to the player from the engine's principal variation.
pub fn suggest(fen: &str, best: &str, reply: &str, follow: &str) -> (r: Suggestion)
    ensures
        r@ == suggestion_of(fen@, best@, reply@, follow@),
{
    let san = match fen_uci_to_san(fen, best) {
        Some(s) => s,
        None => {
            return Suggestion {
                uci: None,
                san: string_of(&Vec::new()),
                is_check: false,
                is_mate: false,
                idea: string_of(&Vec::new()),
            };
        },
    };
    let uci = fen_legal_uci(fen, best);
    let next = match fen_play_uci(fen, best) {
        Some(n) => n,
        None => {
            return Suggestion { uci, san, is_check: false, is_mate: false, idea: string_of(&Vec::new()) };
        },
    };
    let expected = san_or_nothing(next.as_str(), reply);
    let follow_up = match fen_uci_to_san(next.as_str(), reply) {
        Some(_) => match fen_play_uci(next.as_str(), reply) {
            Some(p2) => san_or_nothing(p2.as_str(), follow),
            None => string_of(&Vec::new()),
        },
        None => string_of(&Vec::new()),
    };
    let is_check = match fen_is_check(next.as_str()) {
        Some(b) => b,
        None => false,
    };
    let is_mate = match fen_is_checkmate(next.as_str()) {
        Some(b) => b,
        None => false,
    };
    let mut idea = match describe_move(fen, best, false) {
        Some(t) => chars_of(t.as_str()),
        None => Vec::new(),
    };
    let ev = chars_of(expected.as_str());
    let fv = chars_of(follow_up.as_str());
    if ev.len() != 0 && fv.len() != 0 {
        push_str(&mut idea, " If they reply with ");
        push_all(&mut idea, &ev);
        push_str(&mut idea, ", we follow up with ");
        push_all(&mut idea, &fv);
        push_str(&mut idea, ".");
    }
    Suggestion { uci, san, is_check, is_mate, idea: string_of(&idea) }
}

/// Whether the game has ended in `fen` (checkmate, stalemate or insufficient
/// material); `None` when the position cannot be read.
pub fn game_is_over(fen: &str) -> (r: Option<bool>)
    ensures
        r == game_over(fen@),
{
    fen_is_game_over(fen)
}

/// How the game stands in `fen`: checkmate is won by the side that is not
/// to move, any other end of the game (stalemate, insufficient material) is
/// a draw, and a game that goes on, or cannot be read, is unfinished.
pub open spec fn result_of(fen: Seq<char>) -> GameResult {
    if checkmated(fen) == Some(true) {
        match white_to_move(fen) {
            Some(true) => GameResult::BlackWins,
            Some(false) => GameResult::WhiteWins,
            None => GameResult::Unfinished,
        }
    } else if game_over(fen) == Some(true) {
        GameResult::Draw
    } else {
        GameResult::Unfinished
    }
}

/// The result written in the game record for the final position.
pub fn game_result(fen: &str) -> (r: GameResult)
    ensures
        r == result_of(fen@),
{
    if fen_is_checkmate(fen) == Some(true) {
        match fen_white_to_move(fen) {
            Some(true) => GameResult::BlackWins,
            Some(false) => GameResult::WhiteWins,
            None => GameResult::Unfinished,
        }
    } else if fen_is_game_over(fen) == Some(true) {
        GameResult::Draw
    } else {
        GameResult::Unfinished
    }
}

/// Whether the side to move is checkmated in `fen`.
pub fn is_checkmated(fen: &str) -> (r: Option<bool>)
    ensures
        r == checkmated(fen@),
{
    fen_is_checkmate(fen)
}

/// Whether the side to move is in check in `fen`.
pub fn is_in_check(fen: &str) -> (r: Option<bool>)
    ensures
        r == in_check(fen@),
{
    fen_is_check(fen)
}

/// Whether White is to move in `fen`.
pub fn is_white_to_move(fen: &str) -> (r: Option<bool>)
    ensures
        r == white_to_move(fen@),
{
    fen_white_to_move(fen)
}

/// The position after a legal move given in UCI notation.
pub fn play_move(fen: &str, uci: &str) -> (r: Option<String>)
    ensures
        r.deep_view() == played_uci(fen@, uci@),
{
    fen_play_uci(fen, uci)
}

/// A legal move written in algebraic notation.
pub fn move_san(fen: &str, uci: &str) -> (r: Option<String>)
    ensures
        r.deep_view() == uci_to_san(fen@, uci@),
{
    fen_uci_to_san(fen, uci)
}

/// The standard UCI text of the legal move that `uci` denotes.
pub fn canonical_uci(fen: &str, uci: &str) -> (r: Option<String>)
    ensures
        r.deep_view() == legal_uci(fen@, uci@),
        r.deep_view() matches Some(c) ==> played_uci(fen@, c) is Some,
{
    fen_legal_uci(fen, uci)
}


// ---------------------------------------------------------------------
// The review after the game
// ---------------------------------------------------------------------

/// How one move of the game is judged in the review.
pub struct ReviewedMove {
    /// The move, as it was recorded in algebraic notation.
    pub san: String,
    /// The engine's choice in algebraic notation, or "a safer move".
    pub best_san: String,
    pub category: Category,
    /// How much of the evaluation the move gave away.
    pub loss: i32,
    /// The mover's evaluation before the move.
    pub p_before: i32,
    /// The mover's evaluation after the move.
    pub p_after: i32,
}

pub struct ReviewedView {
    pub san: Seq<char>,
    pub best_san: Seq<char>,
    pub category: Category,
    pub loss: int,
    pub p_before: int,
    pub p_after: int,
}

impl View for ReviewedMove {
    type V = ReviewedView;

    open spec fn view(&self) -> ReviewedView {
        ReviewedView {
            san: self.san@,
            best_san: self.best_san@,
            category: self.category,
            loss: self.loss as int,
            p_before: self.p_before as int,
            p_after: self.p_after as int,
        }
    }
}

/// Whether the review's arithmetic on the evaluations of the first `n`
/// half-moves fits 32 bits: Black's evaluations are negated, and each loss subtracted.
pub open spec fn review_fits(evals: Seq<i32>, n: int) -> bool {
    forall|k: int| 0 <= k < n ==> #[trigger] ply_fits(evals, k)
}

/// Whether the loss of half-move `k` fits 32 bits.
pub open spec fn ply_fits(evals: Seq<i32>, k: int) -> bool {
    &&& k % 2 == 1 ==> evals[k] != i32::MIN && evals[k + 1] != i32::MIN
    &&& loss_fits(k % 2 == 0, evals[k] as int, evals[k + 1] as int)
}

/// The square the next move of the game (at half-move `ply + 1`) goes to.
pub open spec fn next_move_target(next: Seq<char>, ply: int, history: Seq<Seq<char>>) -> Option<u8> {
    if ply + 1 < history.len() {
        match san_to_uci(next, history[ply + 1]) {
            Some(nu) => match move_view_of(next, nu) {
                Some(nm) => Some(nm.to),
                None => None,
            },
            None => None,
        }
    } else {
        None
    }
}

/// The category of the legal move `m` played at half-move `ply` from `cur`,
/// looking for a sacrifice.
pub open spec fn reviewed_category(cur: Seq<char>, next: Seq<char>, m: MoveFacts, base: Category, ply: int, history: Seq<Seq<char>>, loss: int, p_before: int) -> Category {
    let forced = legal_move_count(cur) == Some(1usize);
    let recaptured = next_move_target(next, ply, history) == Some(m.to);
    let cap_val: int = match m.capture {
        Some(c) => value_of(c) as int,
        None => 0,
    };
    final_category(
        base,
        is_sacrifice(value_of(m.role) as int, cap_val, recaptured, m.role == Role::Pawn),
        forced,
        loss,
        p_before,
    )
}

/// The review of half-move `ply`, played from `cur`, and the position after it.
pub open spec fn ply_review(cur: Seq<char>, ply: int, history: Seq<Seq<char>>, evals: Seq<i32>, bests: Seq<Seq<char>>) -> (Seq<char>, ReviewedView) {
    let white = ply % 2 == 0;
    let p_before = side_eval(white, evals[ply] as int);
    let p_after = side_eval(white, evals[ply + 1] as int);
    let loss = loss_of(white, evals[ply] as int, evals[ply + 1] as int);
    let san = history[ply];
    let best_san = match uci_to_san(cur, bests[ply]) {
        Some(b) => b,
        None => "a safer move"@,
    };
    let base = base_category(ply, san == best_san, loss, p_before, p_after);
    match san_to_uci(cur, san) {
        None => (cur, ReviewedView { san, best_san, category: base, loss, p_before, p_after }),
        Some(u) => {
            let next = match played_uci(cur, u) {
                Some(n) => n,
                None => cur,
            };
            let category = match move_view_of(cur, u) {
                Some(m) => if base == Category::Best || base == Category::Excellent {
                    reviewed_category(cur, next, m, base, ply, history, loss, p_before)
                } else {
                    base
                },
                None => base,
            };
            (next, ReviewedView { san, best_san, category, loss, p_before, p_after })
        },
    }
}

/// The reviews of the first `n` half-moves, and the position after them.
pub open spec fn review_upto(history: Seq<Seq<char>>, evals: Seq<i32>, bests: Seq<Seq<char>>, n: int) -> (Seq<char>, Seq<ReviewedView>)
    decreases n,
{
    if n <= 0 {
        (start_position(), Seq::empty())
    } else {
        let prev = review_upto(history, evals, bests, n - 1);
        let step = ply_review(prev.0, n - 1, history, evals, bests);
        (step.0, prev.1.push(step.1))
    }
}

fn review_ply(cur: &String, ply: usize, history: &Vec<String>, evals: &Vec<i32>, bests: &Vec<String>) -> (r: (String, ReviewedMove))
    requires
        ply < history.len(),
        ply + 1 < evals.len(),
        ply < bests.len(),
        review_fits(evals@, history.len() as int),
    ensures
        (r.0@, r.1@) == ply_review(cur@, ply as int, history.deep_view(), evals@, bests.deep_view()),
{
    let ghost h = history.deep_view();
    let white = ply % 2 == 0;
    let eval_before = evals[ply];
    let eval_after = evals[ply + 1];
    assert(ply_fits(evals@, ply as int));
    let p_before = perspective(white, eval_before);
    let p_after = perspective(white, eval_after);
    let loss = move_loss(white, eval_before, eval_after);
    let san = history[ply].clone();
    assert(san@ == h[ply as int]);
    let best_san = match fen_uci_to_san(cur.as_str(), bests[ply].as_str()) {
        Some(b) => b,
        None => string_of(&chars_of("a safer move")),
    };
    let same = crate::text::chars_equal(&chars_of(san.as_str()), &chars_of(best_san.as_str()));
    let base = review_category(ply, same, loss, p_before, p_after);
    match fen_san_to_uci(cur.as_str(), san.as_str()) {
        None => (cur.clone(), ReviewedMove { san, best_san, category: base, loss, p_before, p_after }),
        Some(u) => {
            let next = match fen_play_uci(cur.as_str(), u.as_str()) {
                Some(n) => n,
                None => cur.clone(),
            };
            let category = match move_facts(cur.as_str(), u.as_str()) {
                Some(m) => if base == Category::Best || base == Category::Excellent {
                    let forced = match fen_legal_move_count(cur.as_str()) {
                        Some(n) => n == 1,
                        None => false,
                    };
                    let mut next_to: Option<u8> = None;
                    if ply + 1 < history.len() {
                        match fen_san_to_uci(next.as_str(), history[ply + 1].as_str()) {
                            Some(nu) => match move_facts(next.as_str(), nu.as_str()) {
                                Some(nm) => {
                                    next_to = Some(nm.to);
                                },
                                None => {},
                            },
                            None => {},
                        }
                    }
                    assert(next_to == next_move_target(next@, ply as int, h));
                    let recaptured = match next_to {
                        Some(t) => t == m.to,
                        None => false,
                    };
                    let cap_val = match m.capture {
                        Some(c) => piece_value(c),
                        None => 0,
                    };
                    let sacrifice = (piece_value(m.role) > cap_val && recaptured) || (cap_val == 0
                        && recaptured && m.role != Role::Pawn);
                    brilliance(base, sacrifice, forced, loss, p_before)
                } else {
                    base
                },
                None => base,
            };
            (next, ReviewedMove { san, best_san, category, loss, p_before, p_after })
        },
    }
}

/// The review of every move of the game: `history` holds the moves in
/// algebraic notation, `evals[k]` the engine's evaluation (White's side)
/// before half-move `k` and `bests[k]` its best move then, in UCI notation.
pub fn review_game(history: &Vec<String>, evals: &Vec<i32>, bests: &Vec<String>) -> (r: Vec<ReviewedMove>)
    requires
        evals.len() > history.len(),
        bests.len() >= history.len(),
        review_fits(evals@, history.len() as int),
    ensures
        r@.len() == history.len(),
        forall|k: int|
            0 <= k < history.len() ==> (#[trigger] r@[k])@ == review_upto(
                history.deep_view(),
                evals@,
                bests.deep_view(),
                history.len() as int,
            ).1[k],
{
    let ghost h = history.deep_view();
    let ghost bv = bests.deep_view();
    let mut out: Vec<ReviewedMove> = Vec::new();
    let mut cur = start_fen();
    let mut ply: usize = 0;
    while ply < history.len()
        invariant
            ply <= history.len(),
            evals.len() > history.len(),
            bests.len() >= history.len(),
            review_fits(evals@, history.len() as int),
            h == history.deep_view(),
            bv == bests.deep_view(),
            out@.len() == ply,
            cur@ == review_upto(h, evals@, bv, ply as int).0,
            forall|k: int| 0 <= k < ply ==> (#[trigger] out@[k])@ == review_upto(h, evals@, bv, ply as int).1[k],
        decreases history.len() - ply,
    {
        let step = review_ply(&cur, ply, history, evals, bests);
        proof {
            lemma_review_prefix(h, evals@, bv, ply as int, ply as int);
        }
        let ghost prev = review_upto(h, evals@, bv, ply as int).1;
        cur = step.0;
        out.push(step.1);
        ply = ply + 1;
        assert(review_upto(h, evals@, bv, ply as int).1 == prev.push(step.1@));
    }
    proof {
        lemma_review_prefix(h, evals@, bv, ply as int, history.len() as int);
    }
    out
}

proof fn lemma_review_prefix(h: Seq<Seq<char>>, evals: Seq<i32>, bests: Seq<Seq<char>>, a: int, b: int)
    requires
        0 <= a <= b,
    ensures
        review_upto(h, evals, bests, a).1.len() == a,
        review_upto(h, evals, bests, b).1.take(a) == review_upto(h, evals, bests, a).1,
    decreases b,
{
    if b > a {
        lemma_review_prefix(h, evals, bests, a, b - 1);
        lemma_review_prefix(h, evals, bests, b - 1, b - 1);
        assert(review_upto(h, evals, bests, b).1.take(a) =~= review_upto(h, evals, bests, b - 1).1.take(a));
    } else {
        if a > 0 {
            lemma_review_prefix(h, evals, bests, a - 1, a - 1);
        }
        assert(review_upto(h, evals, bests, a).1.take(a) =~= review_upto(h, evals, bests, a).1);
    }
}

/// In the review, every move of the first three full moves is a book move.
pub proof fn law_review_opening_is_book(h: Seq<Seq<char>>, evals: Seq<i32>, bests: Seq<Seq<char>>, n: int, k: int)
    requires
        0 <= k < n,
        k < book_plies(),
    ensures
        review_upto(h, evals, bests, n).1[k].category == Category::Book,
    decreases n,
{
    lemma_review_prefix(h, evals, bests, n - 1, n - 1);
    if k < n - 1 {
        law_review_opening_is_book(h, evals, bests, n - 1, k);
    }
}

// ---------------------------------------------------------------------
// The review's listing by category
// ---------------------------------------------------------------------

/// The moves (in algebraic notation) of one side, White's being the
/// half-moves at even places, that the review put in category `cat`, in
/// the order they were played.
pub open spec fn moves_in(reviewed: Seq<ReviewedMove>, white: bool, cat: Category) -> Seq<Seq<char>>
    decreases reviewed.len(),
{
    if reviewed.len() == 0 {
        Seq::empty()
    } else {
        let k = reviewed.len() - 1;
        let rest = moves_in(reviewed.drop_last(), white, cat);
        if ((k % 2 == 0) == white) && reviewed[k]@.category == cat {
            rest.push(reviewed[k]@.san)
        } else {
            rest
        }
    }
}

/// The moves of one side that the review put in category `cat`.
pub fn moves_in_category(reviewed: &Vec<ReviewedMove>, white: bool, cat: Category) -> (r: Vec<String>)
    ensures
        r.deep_view() == moves_in(reviewed@, white, cat),
{
    let mut out: Vec<String> = Vec::new();
    let mut i: usize = 0;
    while i < reviewed.len()
        invariant
            i <= reviewed.len(),
            out.deep_view() == moves_in(reviewed@.take(i as int), white, cat),
        decreases reviewed.len() - i,
    {
        assert(reviewed@.take(i + 1).drop_last() =~= reviewed@.take(i as int));
        assert(reviewed@.take(i + 1)[i as int] == reviewed@[i as int]);
        let white_move = i % 2 == 0;
        if white_move == white && reviewed[i].category == cat {
            let ghost before = out.deep_view();
            out.push(reviewed[i].san.clone());
            assert(out.deep_view() =~= before.push(reviewed@[i as int]@.san));
        }
        i = i + 1;
    }
    assert(reviewed@.take(reviewed.len() as int) =~= reviewed@);
    out
}

/// A line of the review's listing: the category's name and how many moves
/// it holds, with the moves themselves in brackets when there are any:
/// "  * Best: 2 (e4, Nf3)" or "  * Blunder: 0".
pub open spec fn listing_line(name: Seq<char>, moves: Seq<Seq<char>>) -> Seq<char> {
    if moves.len() == 0 {
        "  * "@ + name + ": 0"@
    } else {
        "  * "@ + name + ": "@ + decimal(moves.len()) + " ("@ + joined(moves, ", "@) + ")"@
    }
}

/// The listing line of category `cat` for one side of the reviewed game.
pub fn category_line(reviewed: &Vec<ReviewedMove>, white: bool, cat: Category) -> (r: String)
    ensures
        r@ == listing_line(category_name(cat), moves_in(reviewed@, white, cat)),
{
    let moves = moves_in_category(reviewed, white, cat);
    let ghost m = moves.deep_view();
    let mut out = chars_of("  * ");
    push_str(&mut out, cat.name());
    if moves.len() == 0 {
        push_str(&mut out, ": 0");
    } else {
        push_str(&mut out, ": ");
        push_decimal(&mut out, moves.len() as u64);
        push_str(&mut out, " (");
        let ghost prefix = out@;
        let mut i: usize = 0;
        while i < moves.len()
            invariant
                i <= moves.len(),
                m == moves.deep_view(),
                out@ == prefix + joined(m.take(i as int), ", "@),
            decreases moves.len() - i,
        {
            proof {
                lemma_joined_push(m.take(i as int), ", "@, m[i as int]);
                assert(m.take(i + 1) =~= m.take(i as int).push(m[i as int]));
            }
            if i > 0 {
                push_str(&mut out, ", ");
            }
            let w = chars_of(moves[i].as_str());
            push_all(&mut out, &w);
            i = i + 1;
        }
        assert(m.take(moves.len() as int) =~= m);
        push_str(&mut out, ")");
    }
    string_of(&out)
}

// ---------------------------------------------------------------------
// The coach's notes of the review
// ---------------------------------------------------------------------

/// The side that played the half-move at place `ply`, as the notes name it.
pub open spec fn side_name(ply: int) -> Seq<char> {
    if ply % 2 == 0 {
        "White"@
    } else {
        "Black"@
    }
}

/// The coach's note on the reviewed half-move at place `ply`: mistakes,
/// misses and blunders get the better move and the reason, brilliant moves
/// a word of praise, and the other moves no note.
pub open spec fn coach_note_of(ply: int, r: ReviewedView) -> Option<Seq<char>> {
    match r.category {
        Category::Mistake | Category::Blunder | Category::Miss => Some(
            "❌ ["@ + side_name(ply) + "] "@ + r.san + " is a "@ + category_name(r.category)
                + "!\n   🎯 You should have played: **"@ + r.best_san + "**\n   💡 Why: "@
                + review_reason_text(r.loss, r.p_before, r.p_after),
        ),
        Category::Brilliant => Some(
            "✨ ["@ + side_name(ply) + "] "@ + r.san
                + " is Brilliant! A true sacrifice that shatters the opponent's position."@,
        ),
        _ => None,
    }
}

/// Which reviewed moves get a note, and how it reads: every mistake, miss
/// and blunder gets one, opening with the cross and the side in brackets
/// (White for the half-moves at even places) and ending with the reason
/// the review gives for the loss; every brilliant move gets the note of
/// praise; no other move gets a note.
pub proof fn law_coach_notes(ply: int, r: ReviewedView)
    ensures
        coach_note_of(ply, r) is Some <==> (r.category == Category::Mistake || r.category
            == Category::Blunder || r.category == Category::Miss || r.category
            == Category::Brilliant),
        (r.category == Category::Mistake || r.category == Category::Blunder || r.category
            == Category::Miss) ==> ({
            let n = coach_note_of(ply, r)->0;
            let side = if ply % 2 == 0 { "White"@ } else { "Black"@ };
            let reason = review_reason_text(r.loss, r.p_before, r.p_after);
            &&& n.take(8) == "❌ ["@ + side
            &&& n.subrange(8, 10) == "] "@
            &&& n.subrange(10, 10int + r.san.len()) == r.san
            &&& n.skip(n.len() - reason.len()) == reason
        }),
        r.category == Category::Brilliant ==> ({
            let n = coach_note_of(ply, r)->0;
            let side = if ply % 2 == 0 { "White"@ } else { "Black"@ };
            &&& n.take(8) == "✨ ["@ + side
            &&& n.subrange(10, 10int + r.san.len()) == r.san
            &&& n.skip(10int + r.san.len()) == " is Brilliant! A true sacrifice that shatters the opponent's position."@
        }),
{
    reveal_strlit("❌ [");
    reveal_strlit("✨ [");
    reveal_strlit("White");
    reveal_strlit("Black");
    reveal_strlit("] ");
    let side = side_name(ply);
    assert(side.len() == 5);
    match r.category {
        Category::Mistake | Category::Blunder | Category::Miss => {
            let n = coach_note_of(ply, r)->0;
            let reason = review_reason_text(r.loss, r.p_before, r.p_after);
            let rest = " is a "@ + category_name(r.category) + "!\n   🎯 You should have played: **"@ + r.best_san
                + "**\n   💡 Why: "@;
            assert(n =~= "❌ ["@ + side + "] "@ + r.san + rest + reason);
            assert(n.take(8) =~= "❌ ["@ + side);
            assert(n.subrange(8, 10) =~= "] "@);
            assert(n.subrange(10, 10int + r.san.len()) =~= r.san);
            assert(n.skip(n.len() - reason.len()) =~= reason);
        },
        Category::Brilliant => {
            let n = coach_note_of(ply, r)->0;
            let tail = " is Brilliant! A true sacrifice that shatters the opponent's position."@;
            assert(n =~= "✨ ["@ + side + "] "@ + r.san + tail);
            assert(n.take(8) =~= "✨ ["@ + side);
            assert(n.subrange(10, 10int + r.san.len()) =~= r.san);
            assert(n.skip(10int + r.san.len()) =~= tail);
        },
        _ => {},
    }
}

/// The coach's note on the reviewed half-move `r`, played at place `ply`.
pub fn coach_note(ply: usize, r: &ReviewedMove) -> (n: Option<String>)
    ensures
        n.deep_view() == coach_note_of(ply as int, r@),
{
    let side = if ply % 2 == 0 {
        "White"
    } else {
        "Black"
    };
    match r.category {
        Category::Mistake | Category::Blunder | Category::Miss => {
            let mut out = chars_of("❌ [");
            push_str(&mut out, side);
            push_str(&mut out, "] ");
            push_str(&mut out, r.san.as_str());
            push_str(&mut out, " is a ");
            push_str(&mut out, r.category.name());
            push_str(&mut out, "!\n   🎯 You should have played: **");
            push_str(&mut out, r.best_san.as_str());
            push_str(&mut out, "**\n   💡 Why: ");
            push_str(&mut out, review_reason(r.loss, r.p_before, r.p_after));
            assert(out@ =~= coach_note_of(ply as int, r@)->0);
            Some(string_of(&out))
        },
        Category::Brilliant => {
            let mut out = chars_of("✨ [");
            push_str(&mut out, side);
            push_str(&mut out, "] ");
            push_str(&mut out, r.san.as_str());
            push_str(&mut out, " is Brilliant! A true sacrifice that shatters the opponent's position.");
            assert(out@ =~= coach_note_of(ply as int, r@)->0);
            Some(string_of(&out))
        },
        _ => None,
    }
}

} // verus!
