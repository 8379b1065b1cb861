//! Grading moves by how much of the evaluation they give away.
//!
//! Evaluations are in centipawns from White's side; a player's loss is how
//! much their own evaluation dropped with the move, never below zero.
use vstd::prelude::*;

verus! {

/// The evaluation from the side of the player (White when `white`).
pub open spec fn side_eval(white: bool, eval: int) -> int {
    if white {
        eval
    } else {
        -eval
    }
}

/// The evaluation from one side's point of view.
pub fn perspective(white: bool, eval: i32) -> (r: i32)
    requires
        white || eval != i32::MIN,
    ensures
        r == side_eval(white, eval as int),
{
    if white {
        eval
    } else {
        -eval
    }
}

/// How much of the evaluation the mover gave away, never below zero.
pub open spec fn loss_of(white_moved: bool, before: int, after: int) -> int {
    let d = side_eval(white_moved, before) - side_eval(white_moved, after);
    if d < 0 {
        0
    } else {
        d
    }
}

/// Whether the loss of a move can be computed in 32-bit arithmetic.
pub open spec fn loss_fits(white_moved: bool, before: int, after: int) -> bool {
    let d = side_eval(white_moved, before) - side_eval(white_moved, after);
    i32::MIN <= d <= i32::MAX
}

/// The loss of a move (`move_loss` of the live game).
pub fn move_loss(white_moved: bool, eval_before: i32, eval_after: i32) -> (r: i32)
    requires
        loss_fits(white_moved, eval_before as int, eval_after as int),
    ensures
        r == loss_of(white_moved, eval_before as int, eval_after as int),
        r >= 0,
{
    let d: i32 = if white_moved {
        eval_before - eval_after
    } else {
        eval_after - eval_before
    };
    if d < 0 {
        0
    } else {
        d
    }
}

// ---------------------------------------------------------------------
// The live game
// ---------------------------------------------------------------------

/// The grade shown right after a move is registered.
#[derive(Clone, Copy, Debug, PartialEq, Eq, Structural)]
pub enum LiveGrade {
    Best,
    Good,
    Inaccuracy,
    Mistake,
    Blunder,
}

/// The grade of a move by its loss: at most 15, 40, 90, 200 centipawns, or more.
pub open spec fn grade_of(loss: int) -> LiveGrade {
    if loss <= 15 {
        LiveGrade::Best
    } else if loss <= 40 {
        LiveGrade::Good
    } else if loss <= 90 {
        LiveGrade::Inaccuracy
    } else if loss <= 200 {
        LiveGrade::Mistake
    } else {
        LiveGrade::Blunder
    }
}

/// The rank of a grade, 0 for the best.
pub open spec fn grade_rank(g: LiveGrade) -> int {
    match g {
        LiveGrade::Best => 0,
        LiveGrade::Good => 1,
        LiveGrade::Inaccuracy => 2,
        LiveGrade::Mistake => 3,
        LiveGrade::Blunder => 4,
    }
}

/// The label shown after a move for its grade.
pub open spec fn grade_label_text(g: LiveGrade) -> Seq<char> {
    match g {
        LiveGrade::Best => "[⭐ Best]"@,
        LiveGrade::Good => "[👍 Good]"@,
        LiveGrade::Inaccuracy => "[?! Inaccuracy]"@,
        LiveGrade::Mistake => "[❓ Mistake]"@,
        LiveGrade::Blunder => "[❌ Blunder]"@,
    }
}

impl LiveGrade {
    /// The label shown after a move for this grade.
    pub fn label(&self) -> (r: &'static str)
        ensures
            r@ == grade_label_text(*self),
    {
        match self {
            LiveGrade::Best => "[⭐ Best]",
            LiveGrade::Good => "[👍 Good]",
            LiveGrade::Inaccuracy => "[?! Inaccuracy]",
            LiveGrade::Mistake => "[❓ Mistake]",
            LiveGrade::Blunder => "[❌ Blunder]",
        }
    }
}

pub fn live_grade(loss: i32) -> (r: LiveGrade)
    ensures
        r == grade_of(loss as int),
{
    if loss <= 15 {
        LiveGrade::Best
    } else if loss <= 40 {
        LiveGrade::Good
    } else if loss <= 90 {
        LiveGrade::Inaccuracy
    } else if loss <= 200 {
        LiveGrade::Mistake
    } else {
        LiveGrade::Blunder
    }
}

/// A move that loses more loses at least as much grade.
pub proof fn law_grade_monotone(a: int, b: int)
    requires
        a <= b,
    ensures
        grade_rank(grade_of(a)) <= grade_rank(grade_of(b)),
{
}

/// Why a move that lost more than 40 centipawns is bad, given the mover's
/// evaluations before and after it; empty for smaller losses.
pub open spec fn live_reason_text(loss: int, p_before: int, p_after: int) -> Seq<char> {
    if loss <= 40 {
        ""@
    } else if p_after < -9000 {
        " (Allows forced checkmate)"@
    } else if p_before > 9000 && p_after < 9000 {
        " (Missed a forced checkmate)"@
    } else if p_before > 150 && p_after < -50 {
        " (Threw away a winning position)"@
    } else if loss > 300 {
        " (Loses significant material)"@
    } else {
        " (Creates a positional weakness)"@
    }
}

pub fn live_reason(loss: i32, p_before: i32, p_after: i32) -> (r: &'static str)
    ensures
        r@ == live_reason_text(loss as int, p_before as int, p_after as int),
{
    if loss <= 40 {
        ""
    } else if p_after < -9000 {
        " (Allows forced checkmate)"
    } else if p_before > 9000 && p_after < 9000 {
        " (Missed a forced checkmate)"
    } else if p_before > 150 && p_after < -50 {
        " (Threw away a winning position)"
    } else if loss > 300 {
        " (Loses significant material)"
    } else {
        " (Creates a positional weakness)"
    }
}

/// Whether the engine's refutation of the move is shown: the move lost more
/// than a pawn.
pub fn shows_refutation(loss: i32) -> (r: bool)
    ensures
        r == (loss > 100),
{
    loss > 100
}

// ---------------------------------------------------------------------
// The review after the game
// ---------------------------------------------------------------------

/// The categories of the review, in the order they are listed.
#[derive(Clone, Copy, Debug, PartialEq, Eq, Structural)]
pub enum Category {
    Book,
    Brilliant,
    Best,
    Excellent,
    Good,
    Inaccuracy,
    Mistake,
    Miss,
    Blunder,
}

pub open spec fn category_name(c: Category) -> Seq<char> {
    match c {
        Category::Book => "Book"@,
        Category::Brilliant => "Brilliant"@,
        Category::Best => "Best"@,
        Category::Excellent => "Excellent"@,
        Category::Good => "Good"@,
        Category::Inaccuracy => "Inaccuracy"@,
        Category::Mistake => "Mistake"@,
        Category::Miss => "Miss"@,
        Category::Blunder => "Blunder"@,
    }
}

impl Category {
    /// The name under which the category is listed.
    pub fn name(&self) -> (r: &'static str)
        ensures
            r@ == category_name(*self),
    {
        match self {
            Category::Book => "Book",
            Category::Brilliant => "Brilliant",
            Category::Best => "Best",
            Category::Excellent => "Excellent",
            Category::Good => "Good",
            Category::Inaccuracy => "Inaccuracy",
            Category::Mistake => "Mistake",
            Category::Miss => "Miss",
            Category::Blunder => "Blunder",
        }
    }
}

/// The number of half-moves from the start that count as opening theory:
/// the first three full moves.
pub open spec fn book_plies() -> int {
    6
}

/// The category of the move played at half-move `ply`, before any sacrifice
/// is looked for: book moves first, then the engine's own choice, then by loss.
pub open spec fn base_category(ply: int, is_engine_choice: bool, loss: int, p_before: int, p_after: int) -> Category {
    if ply < book_plies() {
        Category::Book
    } else if is_engine_choice {
        Category::Best
    } else if loss <= 15 {
        Category::Excellent
    } else if loss <= 40 {
        Category::Good
    } else if loss <= 90 {
        Category::Inaccuracy
    } else if loss <= 200 {
        Category::Mistake
    } else if p_before > 300 && p_after < 50 {
        Category::Miss
    } else {
        Category::Blunder
    }
}

pub fn review_category(ply: usize, is_engine_choice: bool, loss: i32, p_before: i32, p_after: i32) -> (r: Category)
    ensures
        r == base_category(ply as int, is_engine_choice, loss as int, p_before as int, p_after as int),
{
    if ply < 6 {
        Category::Book
    } else if is_engine_choice {
        Category::Best
    } else if loss <= 15 {
        Category::Excellent
    } else if loss <= 40 {
        Category::Good
    } else if loss <= 90 {
        Category::Inaccuracy
    } else if loss <= 200 {
        Category::Mistake
    } else if p_before > 300 && p_after < 50 {
        Category::Miss
    } else {
        Category::Blunder
    }
}

/// Whether a move gives material: the opponent recaptured on its square
/// after it took less than it risked, or it was a quiet move of a piece
/// (not a pawn) that was taken at once.
pub open spec fn is_sacrifice(moved_val: int, cap_val: int, recaptured: bool, is_pawn: bool) -> bool {
    (moved_val > cap_val && recaptured) || (cap_val == 0 && recaptured && !is_pawn)
}

/// The category after looking for a sacrifice: a best or excellent move
/// that sacrifices, was not forced, lost at most 20 centipawns and came from
/// a position not already decided (evaluation under 2000 either way) is brilliant.
pub open spec fn final_category(base: Category, sacrifice: bool, forced: bool, loss: int, p_before: int) -> Category {
    if (base == Category::Best || base == Category::Excellent) && sacrifice && !forced && loss <= 20
        && -2000 < p_before < 2000 {
        Category::Brilliant
    } else {
        base
    }
}

pub fn brilliance(base: Category, sacrifice: bool, forced: bool, loss: i32, p_before: i32) -> (r: Category)
    ensures
        r == final_category(base, sacrifice, forced, loss as int, p_before as int),
{
    if (base == Category::Best || base == Category::Excellent) && sacrifice && !forced && loss <= 20
        && -2000 < p_before && p_before < 2000 {
        Category::Brilliant
    } else {
        base
    }
}

/// Why a mistake, miss or blunder is bad.
pub open spec fn review_reason_text(loss: int, p_before: int, p_after: int) -> Seq<char> {
    if p_after < -9000 {
        "It allows a forced checkmate."@
    } else if p_before > 9000 && p_after < 9000 {
        "You missed a forced checkmate sequence."@
    } else if p_before > 150 && p_after < -50 {
        "You threw away a winning position."@
    } else if loss > 300 {
        "It loses significant material."@
    } else {
        "It gives up too much positional control."@
    }
}

pub fn review_reason(loss: i32, p_before: i32, p_after: i32) -> (r: &'static str)
    ensures
        r@ == review_reason_text(loss as int, p_before as int, p_after as int),
{
    if p_after < -9000 {
        "It allows a forced checkmate."
    } else if p_before > 9000 && p_after < 9000 {
        "You missed a forced checkmate sequence."
    } else if p_before > 150 && p_after < -50 {
        "You threw away a winning position."
    } else if loss > 300 {
        "It loses significant material."
    } else {
        "It gives up too much positional control."
    }
}

/// Only a best or excellent move that lost at most 20 centipawns, from a
/// position not already decided, can be brilliant; every other move keeps its category.
pub proof fn law_brilliant_only_from_good_moves(base: Category, sacrifice: bool, forced: bool, loss: int, p_before: int)
    requires
        base != Category::Brilliant,
    ensures
        final_category(base, sacrifice, forced, loss, p_before) == Category::Brilliant ==> (base
            == Category::Best || base == Category::Excellent) && sacrifice && !forced && loss <= 20
            && -2000 < p_before < 2000,
        final_category(base, sacrifice, forced, loss, p_before) != Category::Brilliant ==> final_category(
            base,
            sacrifice,
            forced,
            loss,
            p_before,
        ) == base,
{
}

/// The moves of the first three full moves are book moves, whatever they lose.
pub proof fn law_opening_is_book(ply: int, is_engine_choice: bool, loss: int, p_before: int, p_after: int)
    requires
        0 <= ply < book_plies(),
    ensures
        base_category(ply, is_engine_choice, loss, p_before, p_after) == Category::Book,
{
}

} // verus!
