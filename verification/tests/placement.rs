use circle_game::placement::{validate, PlacementError};
use circle_game::shape::{Circle, Rect};

fn board() -> Rect {
    Rect::new(0, 0, 100, 100)
}

#[test]
fn a_legal_circle_is_accepted() {
    let placed = [Circle::new(20, 20, 10)];
    assert_eq!(validate(&board(), &placed, &Circle::new(70, 70, 10), 5, 50), Ok(()));
    assert_eq!(validate(&board(), &[], &Circle::new(50, 50, 50), 5, 50), Ok(()));
    assert_eq!(validate(&board(), &[], &Circle::new(50, 50, 5), 5, 50), Ok(()));
}

#[test]
fn overlap_is_rejected() {
    let placed = [Circle::new(20, 20, 10), Circle::new(70, 70, 10)];
    assert_eq!(
        validate(&board(), &placed, &Circle::new(60, 70, 10), 5, 50),
        Err(PlacementError::Overlap)
    );
    // touching counts as overlapping
    assert_eq!(
        validate(&board(), &placed, &Circle::new(50, 70, 10), 5, 50),
        Err(PlacementError::Overlap)
    );
    assert_eq!(validate(&board(), &placed, &Circle::new(49, 70, 10), 5, 50), Ok(()));
}

#[test]
fn overlap_with_any_placed_circle_counts() {
    let placed = [Circle::new(20, 20, 10), Circle::new(70, 70, 10), Circle::new(20, 80, 10)];
    for hit in placed {
        assert_eq!(
            validate(&board(), &placed, &Circle::new(hit.position().x, hit.position().y, 5), 5, 50),
            Err(PlacementError::Overlap)
        );
    }
}

#[test]
fn leaving_the_board_is_rejected() {
    assert_eq!(
        validate(&board(), &[], &Circle::new(5, 50, 10), 5, 50),
        Err(PlacementError::OutOfBounds)
    );
    assert_eq!(
        validate(&board(), &[], &Circle::new(50, 95, 10), 5, 50),
        Err(PlacementError::OutOfBounds)
    );
    assert_eq!(
        validate(&board(), &[], &Circle::new(-50, -50, 10), 5, 50),
        Err(PlacementError::OutOfBounds)
    );
    // touching an edge from inside is allowed
    assert_eq!(validate(&board(), &[], &Circle::new(10, 50, 10), 5, 50), Ok(()));
}

#[test]
fn a_small_radius_is_rejected() {
    assert_eq!(
        validate(&board(), &[], &Circle::new(50, 50, 4), 5, 50),
        Err(PlacementError::TooSmall)
    );
    assert_eq!(
        validate(&board(), &[], &Circle::new(50, 50, 0), 5, 50),
        Err(PlacementError::TooSmall)
    );
}

#[test]
fn a_large_radius_is_rejected() {
    assert_eq!(
        validate(&board(), &[], &Circle::new(50, 50, 31), 5, 30),
        Err(PlacementError::TooLarge)
    );
    assert_eq!(validate(&board(), &[], &Circle::new(50, 50, 30), 5, 30), Ok(()));
}

#[test]
fn the_first_broken_rule_is_reported() {
    let placed = [Circle::new(50, 50, 10)];
    // overlaps, leaves the board and is too large: overlap wins
    assert_eq!(
        validate(&board(), &placed, &Circle::new(50, 50, 200), 5, 50),
        Err(PlacementError::Overlap)
    );
    // overlaps and is too small: overlap wins
    assert_eq!(
        validate(&board(), &placed, &Circle::new(50, 50, 1), 5, 50),
        Err(PlacementError::Overlap)
    );
    // leaves the board and is too small: the board wins
    assert_eq!(
        validate(&board(), &placed, &Circle::new(0, 0, 1), 5, 50),
        Err(PlacementError::OutOfBounds)
    );
    // leaves the board and is too large: the board wins
    assert_eq!(
        validate(&board(), &[], &Circle::new(50, 50, 60), 5, 50),
        Err(PlacementError::OutOfBounds)
    );
    // with the bounds crossed, a radius between them is too small first
    assert_eq!(
        validate(&board(), &[], &Circle::new(50, 50, 20), 30, 10),
        Err(PlacementError::TooSmall)
    );
}
