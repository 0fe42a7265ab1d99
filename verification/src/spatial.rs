//! Queries on lists of points: the nearest point to a target, and whether a
//! point crowds any point of a list.

use crate::geometry::{dist_sq, within_reach, Point};
use vstd::prelude::*;

verus! {

/// Whether `positions[i]` is the nearest point to `target` and the first
/// such point of the list: every earlier point is strictly farther away,
/// and no later point is closer.
pub open spec fn is_first_nearest(target: Point, positions: Seq<Point>, i: int) -> bool {
    &&& 0 <= i < positions.len()
    &&& forall|j: int|
        0 <= j < i ==> dist_sq(#[trigger] positions[j], target) > dist_sq(positions[i], target)
    &&& forall|j: int|
        i <= j < positions.len() ==> dist_sq(#[trigger] positions[j], target) >= dist_sq(
            positions[i],
            target,
        )
}

/// The index of the first nearest point of a list that is not empty.
pub open spec fn nearest_index(target: Point, positions: Seq<Point>) -> int {
    choose|i: int| is_first_nearest(target, positions, i)
}

/// The point of `positions` that is nearest to `target`; among equally
/// near points the one that comes first in the list. An empty list has no
/// nearest point.
pub open spec fn nearest(target: Point, positions: Seq<Point>) -> Option<Point> {
    if positions.len() == 0 {
        None
    } else {
        Some(positions[nearest_index(target, positions)])
    }
}

/// A list has at most one first nearest point, so an index that is one is
/// the index that `nearest` speaks of.
pub proof fn lemma_first_nearest_is_nearest(target: Point, positions: Seq<Point>, i: int)
    requires
        is_first_nearest(target, positions, i),
    ensures
        nearest_index(target, positions) == i,
        nearest(target, positions) == Some(positions[i]),
{
}

/// Every list that is not empty has a nearest point, and it is a point of
/// the list that no other point of the list undercuts.
pub proof fn lemma_nearest_exists(target: Point, positions: Seq<Point>)
    requires
        positions.len() > 0,
    ensures
        is_first_nearest(target, positions, nearest_index(target, positions)),
    decreases positions.len(),
{
    if positions.len() == 1 {
        assert(is_first_nearest(target, positions, 0));
    } else {
        let front = positions.drop_last();
        lemma_nearest_exists(target, front);
        let k = nearest_index(target, front);
        let last = positions.len() - 1;
        assert(forall|j: int| 0 <= j < last ==> positions[j] == front[j]);
        if dist_sq(positions[last], target) < dist_sq(front[k], target) {
            assert(is_first_nearest(target, positions, last));
        } else {
            assert(is_first_nearest(target, positions, k));
        }
    }
}

/// The nearest-point query is a function of the target and the list in its
/// given order: an empty list yields nothing, a list of one point yields
/// that point, and of two equally near points the earlier one wins.
pub proof fn lemma_nearest_by_cases(target: Point, positions: Seq<Point>, i: int, j: int)
    ensures
        nearest(target, Seq::<Point>::empty()) == None::<Point>,
        positions.len() == 1 ==> nearest(target, positions) == Some(positions[0]),
        0 <= i < j < positions.len() && dist_sq(positions[i], target) == dist_sq(
            positions[j],
            target,
        ) ==> nearest_index(target, positions) != j,
{
    if positions.len() == 1 {
        lemma_first_nearest_is_nearest(target, positions, 0);
    }
    if 0 <= i < j < positions.len() {
        lemma_nearest_exists(target, positions);
    }
}

/// The point of `positions` nearest to `target`, found by one scan in list
/// order; a later point replaces an earlier one only if it is strictly
/// nearer.
pub fn get_closest(target: Point, positions: &Vec<Point>) -> (closest: Option<Point>)
    ensures
        closest == nearest(target, positions@),
        closest is None <==> positions@.len() == 0,
        closest matches Some(point) ==> exists|i: int|
            is_first_nearest(target, positions@, i) && positions@[i] == point,
{
    if positions.len() == 0 {
        return None;
    }
    let mut best: usize = 0;
    let mut best_distance: u128 = positions[0].distance_squared(target);
    let mut i: usize = 1;
    while i < positions.len()
        invariant
            1 <= i <= positions.len(),
            best < i,
            best_distance == dist_sq(positions@[best as int], target),
            is_first_nearest(target, positions@.take(i as int), best as int),
        decreases positions.len() - i,
    {
        let distance = positions[i].distance_squared(target);
        if best_distance > distance {
            best = i;
            best_distance = distance;
        }
        i += 1;
    }
    proof {
        assert(positions@.take(i as int) == positions@);
        lemma_first_nearest_is_nearest(target, positions@, best as int);
    }
    Some(positions[best])
}

/// Whether `point` lies strictly closer than `reach` to some point of
/// `taken`.
pub open spec fn crowds(point: Point, taken: Seq<Point>, reach: int) -> bool {
    exists|i: int| 0 <= i < taken.len() && within_reach(#[trigger] taken[i], point, reach)
}

/// Whether `point` lies strictly closer than `reach` to a point that is
/// already taken.
pub fn vec3_conflicts_with_existing(point: Point, taken_positions: &Vec<Point>, reach: u32) -> (conflict:
    bool)
    ensures
        conflict == crowds(point, taken_positions@, reach as int),
{
    let mut i: usize = 0;
    while i < taken_positions.len()
        invariant
            i <= taken_positions.len(),
            forall|j: int| 0 <= j < i ==> !within_reach(#[trigger] taken_positions@[j], point, reach as int),
        decreases taken_positions.len() - i,
    {
        if taken_positions[i].is_within(point, reach) {
            return true;
        }
        i += 1;
    }
    false
}

} // verus!
