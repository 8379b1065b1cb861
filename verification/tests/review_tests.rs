use chessbot::review::{
    brilliance, live_grade, live_reason, move_loss, perspective, review_category, review_reason,
    shows_refutation, Category, LiveGrade,
};

#[test]
fn loss_of_a_move() {
    assert_eq!(move_loss(true, 30, -300), 330);
    assert_eq!(move_loss(false, 30, -300), 0);
    assert_eq!(move_loss(false, -30, 100), 130);
    assert_eq!(move_loss(true, 50, 80), 0);
}

#[test]
fn live_grades_by_loss() {
    assert_eq!(live_grade(0), LiveGrade::Best);
    assert_eq!(live_grade(15), LiveGrade::Best);
    assert_eq!(live_grade(16), LiveGrade::Good);
    assert_eq!(live_grade(40), LiveGrade::Good);
    assert_eq!(live_grade(90), LiveGrade::Inaccuracy);
    assert_eq!(live_grade(200), LiveGrade::Mistake);
    assert_eq!(live_grade(201), LiveGrade::Blunder);
}

#[test]
fn grades_never_improve_with_more_loss() {
    let rank = |g: LiveGrade| match g {
        LiveGrade::Best => 0,
        LiveGrade::Good => 1,
        LiveGrade::Inaccuracy => 2,
        LiveGrade::Mistake => 3,
        LiveGrade::Blunder => 4,
    };
    for l in 0..400 {
        assert!(rank(live_grade(l)) <= rank(live_grade(l + 1)));
    }
}

#[test]
fn live_reasons() {
    assert_eq!(live_reason(40, 0, -9500), "");
    assert_eq!(live_reason(50, 0, -9500), " (Allows forced checkmate)");
    assert_eq!(live_reason(500, 9500, 8000), " (Missed a forced checkmate)");
    assert_eq!(live_reason(300, 200, -60), " (Threw away a winning position)");
    assert_eq!(live_reason(330, 30, -300), " (Loses significant material)");
    assert_eq!(live_reason(60, 30, -30), " (Creates a positional weakness)");
}

#[test]
fn refutation_shown_above_a_pawn() {
    assert!(!shows_refutation(100));
    assert!(shows_refutation(101));
}

#[test]
fn perspective_flips_for_black() {
    assert_eq!(perspective(true, 120), 120);
    assert_eq!(perspective(false, 120), -120);
}

#[test]
fn review_categories() {
    assert_eq!(review_category(0, false, 900, 0, -900), Category::Book);
    assert_eq!(review_category(5, false, 900, 0, -900), Category::Book);
    assert_eq!(review_category(6, true, 900, 0, -900), Category::Best);
    assert_eq!(review_category(6, false, 15, 0, 0), Category::Excellent);
    assert_eq!(review_category(6, false, 40, 0, 0), Category::Good);
    assert_eq!(review_category(6, false, 90, 0, 0), Category::Inaccuracy);
    assert_eq!(review_category(6, false, 200, 0, 0), Category::Mistake);
    assert_eq!(review_category(6, false, 400, 350, -50), Category::Miss);
    assert_eq!(review_category(6, false, 400, 300, -100), Category::Blunder);
}

#[test]
fn brilliant_moves() {
    assert_eq!(brilliance(Category::Best, true, false, 10, 100), Category::Brilliant);
    assert_eq!(brilliance(Category::Excellent, true, false, 20, -1999), Category::Brilliant);
    assert_eq!(brilliance(Category::Excellent, true, false, 21, 0), Category::Excellent);
    assert_eq!(brilliance(Category::Best, true, true, 0, 0), Category::Best);
    assert_eq!(brilliance(Category::Best, false, false, 0, 0), Category::Best);
    assert_eq!(brilliance(Category::Best, true, false, 0, 2000), Category::Best);
    assert_eq!(brilliance(Category::Good, true, false, 0, 0), Category::Good);
}

#[test]
fn review_reasons() {
    assert_eq!(review_reason(100, 0, -9100), "It allows a forced checkmate.");
    assert_eq!(review_reason(800, 9800, 8999), "You missed a forced checkmate sequence.");
    assert_eq!(review_reason(250, 200, -60), "You threw away a winning position.");
    assert_eq!(review_reason(330, 30, -300), "It loses significant material.");
    assert_eq!(review_reason(210, 30, -180), "It gives up too much positional control.");
}

#[test]
fn category_names() {
    assert_eq!(Category::Book.name(), "Book");
    assert_eq!(Category::Brilliant.name(), "Brilliant");
    assert_eq!(Category::Miss.name(), "Miss");
}

#[test]
fn live_grade_labels() {
    assert_eq!(live_grade(10).label(), "[⭐ Best]");
    assert_eq!(live_grade(30).label(), "[👍 Good]");
    assert_eq!(live_grade(80).label(), "[?! Inaccuracy]");
    assert_eq!(live_grade(150).label(), "[❓ Mistake]");
    assert_eq!(live_grade(500).label(), "[❌ Blunder]");
    assert_eq!(LiveGrade::Good.label(), "[👍 Good]");
}
