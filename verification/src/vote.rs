//! The vote over a window of readings: which category occurs most often, the
//! more recent one winning a tie, and whether it occurs often enough to count.

use vstd::prelude::*;
use crate::color::BrickColor;

verus! {

/// How often a category occurs in a window.
pub open spec fn occurrences(window: Seq<BrickColor>, category: BrickColor) -> nat
    decreases window.len(),
{
    if window.len() == 0 {
        0
    } else {
        occurrences(window.drop_last(), category) + if window.last() == category {
            1nat
        } else {
            0nat
        }
    }
}

/// The index of the most recent occurrence of a category in a window whose
/// last reading is the newest; -1 where it does not occur.
pub open spec fn latest(window: Seq<BrickColor>, category: BrickColor) -> int
    decreases window.len(),
{
    if window.len() == 0 {
        -1
    } else if window.last() == category {
        window.len() - 1
    } else {
        latest(window.drop_last(), category)
    }
}

/// Whether `category` comes before `other` in the vote: it occurs more often,
/// or as often and more recently.
pub open spec fn outranks(window: Seq<BrickColor>, category: BrickColor, other: BrickColor) -> bool {
    ||| occurrences(window, category) > occurrences(window, other)
    ||| (occurrences(window, category) == occurrences(window, other) && latest(window, category)
        > latest(window, other))
}

/// Whether `category` wins the vote: it occurs in the window and comes before
/// every other category.
pub open spec fn wins(window: Seq<BrickColor>, category: BrickColor) -> bool {
    &&& occurrences(window, category) > 0
    &&& forall|other: BrickColor| other != category ==> #[trigger] outranks(window, category, other)
}

/// The winner of the vote over a window; `Unclassified` for an empty window.
pub open spec fn candidate(window: Seq<BrickColor>) -> BrickColor {
    if exists|category: BrickColor| wins(window, category) {
        choose|category: BrickColor| wins(window, category)
    } else {
        BrickColor::Unclassified
    }
}

/// The stable category of a window: the winner of the vote, if it is a real
/// category and occurs at least `threshold` times; `Unclassified` otherwise.
pub open spec fn debounced(window: Seq<BrickColor>, threshold: nat) -> BrickColor {
    let winner = candidate(window);
    if winner != BrickColor::Unclassified && occurrences(window, winner) >= threshold {
        winner
    } else {
        BrickColor::Unclassified
    }
}

/// A category occurs at most as often as the window is long, and at least
/// once exactly where some reading has it.
pub proof fn lemma_occurrences(window: Seq<BrickColor>, category: BrickColor)
    ensures
        occurrences(window, category) <= window.len(),
        occurrences(window, category) > 0 <==> window.contains(category),
    decreases window.len(),
{
    if window.len() > 0 {
        let front = window.drop_last();
        lemma_occurrences(front, category);
        if window.last() == category {
            assert(window[window.len() - 1] == category);
        } else if front.contains(category) {
            let k = choose|k: int| 0 <= k < front.len() && front[k] == category;
            assert(window[k] == category);
        } else if window.contains(category) {
            let k = choose|k: int| 0 <= k < window.len() && window[k] == category;
            assert(front[k] == category);
        }
    }
}

/// The most recent occurrence is an occurrence, and none comes after it.
pub proof fn lemma_latest(window: Seq<BrickColor>, category: BrickColor)
    ensures
        -1 <= latest(window, category) < window.len(),
        latest(window, category) >= 0 ==> window[latest(window, category)] == category,
        forall|k: int|
            0 <= k < window.len() && #[trigger] window[k] == category ==> k <= latest(
                window,
                category,
            ),
    decreases window.len(),
{
    if window.len() > 0 {
        let front = window.drop_last();
        lemma_latest(front, category);
        assert forall|k: int| 0 <= k < window.len() && #[trigger] window[k] == category implies k
            <= latest(window, category) by {
            if k < front.len() {
                assert(front[k] == category);
            }
        }
    }
}

/// No two categories win the same vote.
pub proof fn lemma_winner_unique(window: Seq<BrickColor>, first: BrickColor, second: BrickColor)
    requires
        wins(window, first),
        wins(window, second),
    ensures
        first == second,
{
    if first != second {
        assert(outranks(window, first, second));
        assert(outranks(window, second, first));
    }
}

/// The one of two categories that comes first in the vote; the first of
/// them where neither does.
pub open spec fn leader(window: Seq<BrickColor>, first: BrickColor, second: BrickColor) -> BrickColor {
    if outranks(window, second, first) {
        second
    } else {
        first
    }
}

/// Every vote over a window that is not empty has a winner.
pub proof fn lemma_winner_exists(window: Seq<BrickColor>)
    requires
        window.len() > 0,
    ensures
        wins(window, candidate(window)),
{
    let over_black = leader(window, BrickColor::Unclassified, BrickColor::Black);
    let over_blue = leader(window, over_black, BrickColor::Blue);
    let over_green = leader(window, over_blue, BrickColor::Green);
    let over_yellow = leader(window, over_green, BrickColor::Yellow);
    let over_red = leader(window, over_yellow, BrickColor::Red);
    let over_white = leader(window, over_red, BrickColor::White);
    let over_all = leader(window, over_white, BrickColor::Brown);
    assert forall|category: BrickColor|
        (occurrences(window, category) > 0 <==> latest(window, category) >= 0) && (latest(
            window,
            category,
        ) >= 0 ==> window[latest(window, category)] == category) by {
        lemma_occurrences(window, category);
        lemma_latest(window, category);
        if window.contains(category) {
            let k = choose|k: int| 0 <= k < window.len() && window[k] == category;
            assert(window[k] == category);
        }
    }
    lemma_occurrences(window, window[0]);
    assert(window.contains(window[0]));
    assert(occurrences(window, window[0]) > 0);
    assert(occurrences(window, over_all) >= occurrences(window, window[0]));
    assert forall|other: BrickColor| other != over_all implies #[trigger] outranks(
        window,
        over_all,
        other,
    ) by {
        assert(occurrences(window, other) > 0 ==> latest(window, other) != latest(
            window,
            over_all,
        ));
    }
    assert(wins(window, over_all));
}

/// The winner of a vote is its candidate.
pub proof fn lemma_winner_is_candidate(window: Seq<BrickColor>, category: BrickColor)
    requires
        wins(window, category),
    ensures
        candidate(window) == category,
{
    lemma_winner_unique(window, category, candidate(window));
}

/// A stable category other than `Unclassified` has won the vote and occurs
/// in the window at least as often as the threshold asks.
pub proof fn lemma_debounced_occurs(window: Seq<BrickColor>, threshold: nat)
    ensures
        debounced(window, threshold) != BrickColor::Unclassified ==> {
            &&& wins(window, debounced(window, threshold))
            &&& window.contains(debounced(window, threshold))
            &&& occurrences(window, debounced(window, threshold)) >= threshold
        },
{
    lemma_occurrences(window, debounced(window, threshold));
}

/// A window that holds no real category has no stable one.
pub proof fn lemma_debounced_blank(window: Seq<BrickColor>, threshold: nat)
    requires
        forall|i: int| 0 <= i < window.len() ==> window[i] == BrickColor::Unclassified,
    ensures
        debounced(window, threshold) == BrickColor::Unclassified,
{
    lemma_debounced_occurs(window, threshold);
}

/// A real category that wins the vote and occurs at least as often as the
/// threshold asks is the stable category.
pub proof fn lemma_confident_winner_is_stable(
    window: Seq<BrickColor>,
    threshold: nat,
    category: BrickColor,
)
    requires
        category != BrickColor::Unclassified,
        occurrences(window, category) >= threshold,
        wins(window, category),
    ensures
        debounced(window, threshold) == category,
{
    lemma_winner_is_candidate(window, category);
}

/// Where no real category occurs as often as the threshold asks, the stable
/// category is `Unclassified`.
pub proof fn lemma_unconfident_is_unclassified(window: Seq<BrickColor>, threshold: nat)
    requires
        forall|category: BrickColor|
            category != BrickColor::Unclassified ==> occurrences(window, category) < threshold,
    ensures
        debounced(window, threshold) == BrickColor::Unclassified,
{
}

/// Two different categories together occur at most as often as the window is
/// long.
pub proof fn lemma_occurrences_disjoint(
    window: Seq<BrickColor>,
    first: BrickColor,
    second: BrickColor,
)
    requires
        first != second,
    ensures
        occurrences(window, first) + occurrences(window, second) <= window.len(),
    decreases window.len(),
{
    if window.len() > 0 {
        lemma_occurrences_disjoint(window.drop_last(), first, second);
    }
}

/// A category that fills more than half of the window wins the vote.
pub proof fn lemma_majority_wins(window: Seq<BrickColor>, category: BrickColor)
    requires
        2 * occurrences(window, category) > window.len(),
    ensures
        wins(window, category),
        candidate(window) == category,
{
    assert forall|other: BrickColor| other != category implies #[trigger] outranks(
        window,
        category,
        other,
    ) by {
        lemma_occurrences_disjoint(window, category, other);
    }
    lemma_winner_is_candidate(window, category);
}

} // verus!
