//! The rules that decide whether a circle may be placed on the board.

use crate::shape::{Circle, Rect};
use vstd::prelude::*;

verus! {

/// Why a circle may not be placed.
#[derive(Debug, Clone, Copy, PartialEq, Eq, Structural)]
pub enum PlacementError {
    /// The circle overlaps or touches a circle that is already on the board.
    Overlap,
    /// The circle reaches beyond an edge of the board.
    OutOfBounds,
    /// The radius is below the smallest radius allowed.
    TooSmall,
    /// The radius is above the largest radius allowed.
    TooLarge,
}

/// Whether `candidate` overlaps or touches one of `circles`.
pub open spec fn overlaps_any(circles: Seq<Circle>, candidate: Circle) -> bool {
    exists|i: int| 0 <= i < circles.len() && (#[trigger] circles[i]).overlaps(candidate)
}

/// The verdict on placing `candidate` on `board` beside `circles`. The rules
/// are tried in a fixed order and the first one broken is reported: overlap,
/// then the edges of the board, then the smallest and the largest radius.
pub open spec fn verdict(
    board: Rect,
    circles: Seq<Circle>,
    candidate: Circle,
    min_radius: u32,
    max_radius: u32,
) -> Result<(), PlacementError> {
    if overlaps_any(circles, candidate) {
        Err(PlacementError::Overlap)
    } else if board.excludes(candidate) {
        Err(PlacementError::OutOfBounds)
    } else if candidate.radius < min_radius {
        Err(PlacementError::TooSmall)
    } else if candidate.radius > max_radius {
        Err(PlacementError::TooLarge)
    } else {
        Ok(())
    }
}

/// Whether `current_circle` overlaps or touches one of `circles`.
fn overlaps_some(circles: &[Circle], current_circle: &Circle) -> (found: bool)
    ensures
        found == overlaps_any(circles@, *current_circle),
{
    let mut i: usize = 0;
    while i < circles.len()
        invariant
            i <= circles.len(),
            forall|j: int| 0 <= j < i ==> !(#[trigger] circles@[j]).overlaps(*current_circle),
        decreases circles.len() - i,
    {
        if circles[i].is_overlapped(current_circle) {
            return true;
        }
        i += 1;
    }
    false
}

/// Decides whether `current_circle` may be placed on `board` beside
/// `circles`, and reports the first rule it breaks.
pub fn validate(
    board: &Rect,
    circles: &[Circle],
    current_circle: &Circle,
    min_radius: u32,
    max_radius: u32,
) -> (result: Result<(), PlacementError>)
    ensures
        result == verdict(*board, circles@, *current_circle, min_radius, max_radius),
{
    let radius: u32 = current_circle.radius();
    if overlaps_some(circles, current_circle) {
        Err(PlacementError::Overlap)
    } else if board.is_outside(current_circle) {
        Err(PlacementError::OutOfBounds)
    } else if min_radius > radius {
        Err(PlacementError::TooSmall)
    } else if radius > max_radius {
        Err(PlacementError::TooLarge)
    } else {
        Ok(())
    }
}

/// A circle is accepted exactly when it breaks none of the four rules.
pub proof fn lemma_accepted_iff_legal(
    board: Rect,
    circles: Seq<Circle>,
    candidate: Circle,
    min_radius: u32,
    max_radius: u32,
)
    ensures
        verdict(board, circles, candidate, min_radius, max_radius) is Ok <==> {
            &&& forall|i: int|
                0 <= i < circles.len() ==> !(#[trigger] circles[i]).overlaps(candidate)
            &&& !board.excludes(candidate)
            &&& min_radius <= candidate.radius <= max_radius
        },
{
}

} // verus!
