//! The sliding window as a sequence of readings: how readings come in, and
//! what the window votes for after they have.

use vstd::prelude::*;
use crate::color::BrickColor;
use crate::vote::{
    debounced, latest, lemma_confident_winner_is_stable, lemma_majority_wins, lemma_occurrences,
    lemma_unconfident_is_unclassified, occurrences, outranks,
};

verus! {

/// The window after a reading has come in: the reading is appended, and the
/// oldest one leaves where the window would grow beyond its capacity.
pub open spec fn slid(window: Seq<BrickColor>, reading: BrickColor, capacity: nat) -> Seq<
    BrickColor,
> {
    let grown = window.push(reading);
    if grown.len() > capacity {
        grown.drop_first()
    } else {
        grown
    }
}

/// A window of the given length that holds nothing but `Unclassified`.
pub open spec fn blank(capacity: nat) -> Seq<BrickColor> {
    Seq::new(capacity, |i: int| BrickColor::Unclassified)
}

/// The window after a sequence of readings has come in, one after the other.
pub open spec fn fed(window: Seq<BrickColor>, readings: Seq<BrickColor>, capacity: nat) -> Seq<
    BrickColor,
>
    decreases readings.len(),
{
    if readings.len() == 0 {
        window
    } else {
        slid(fed(window, readings.drop_last(), capacity), readings.last(), capacity)
    }
}

/// A window of `blanks` readings of `Unclassified` followed by `copies`
/// readings of one category.
pub open spec fn blank_then(blanks: nat, copies: nat, category: BrickColor) -> Seq<BrickColor> {
    Seq::new(
        blanks + copies,
        |i: int|
            if i < blanks {
                BrickColor::Unclassified
            } else {
                category
            },
    )
}

/// Whatever comes in, a window never holds more readings than its capacity.
pub proof fn lemma_fed_bounded(window: Seq<BrickColor>, readings: Seq<BrickColor>, capacity: nat)
    requires
        window.len() <= capacity,
    ensures
        fed(window, readings, capacity).len() <= capacity,
        window.len() == capacity ==> fed(window, readings, capacity).len() == capacity,
    decreases readings.len(),
{
    if readings.len() > 0 {
        lemma_fed_bounded(window, readings.drop_last(), capacity);
    }
}

/// Readings that fill a window replace whatever it held.
pub proof fn lemma_fed_full(window: Seq<BrickColor>, readings: Seq<BrickColor>, capacity: nat)
    requires
        window.len() == capacity,
        readings.len() == capacity,
    ensures
        fed(window, readings, capacity) == readings,
{
    lemma_fed_tail(window, readings, capacity, capacity);
    assert(readings.take(capacity as int) =~= readings);
    assert(window.skip(capacity as int) + readings =~= readings);
}

/// After `count` readings have come in, a full window holds its own last
/// readings followed by those that came in.
proof fn lemma_fed_tail(
    window: Seq<BrickColor>,
    readings: Seq<BrickColor>,
    capacity: nat,
    count: nat,
)
    requires
        window.len() == capacity,
        count <= readings.len(),
        count <= capacity,
    ensures
        fed(window, readings.take(count as int), capacity) == window.skip(count as int)
            + readings.take(count as int),
    decreases count,
{
    let head = readings.take(count as int);
    if count == 0 {
        assert(window.skip(0) + head =~= window);
    } else {
        let fewer = (count - 1) as nat;
        lemma_fed_tail(window, readings, capacity, fewer);
        assert(head.drop_last() =~= readings.take(fewer as int));
        let before = window.skip(fewer as int) + readings.take(fewer as int);
        assert(slid(before, head.last(), capacity) =~= window.skip(count as int) + head);
    }
}

/// What a window of blanks followed by copies of a real category holds.
pub proof fn lemma_blank_then(blanks: nat, copies: nat, category: BrickColor, other: BrickColor)
    requires
        category != BrickColor::Unclassified,
    ensures
        occurrences(blank_then(blanks, copies, category), BrickColor::Unclassified) == blanks,
        occurrences(blank_then(blanks, copies, category), category) == copies,
        other != category && other != BrickColor::Unclassified ==> occurrences(
            blank_then(blanks, copies, category),
            other,
        ) == 0,
        latest(blank_then(blanks, copies, category), BrickColor::Unclassified) == blanks - 1,
        copies > 0 ==> latest(blank_then(blanks, copies, category), category) == blanks + copies
            - 1,
    decreases blanks + copies,
{
    let window = blank_then(blanks, copies, category);
    if copies > 0 {
        assert(window.drop_last() =~= blank_then(blanks, (copies - 1) as nat, category));
        lemma_blank_then(blanks, (copies - 1) as nat, category, other);
    } else if blanks > 0 {
        assert(window.drop_last() =~= blank_then((blanks - 1) as nat, 0, category));
        lemma_blank_then((blanks - 1) as nat, 0, category, other);
    }
}

/// Copies of one category fed into a blank window push the blanks out, one
/// for each copy.
pub proof fn lemma_fed_copies(capacity: nat, copies: nat, category: BrickColor)
    requires
        copies <= capacity,
    ensures
        fed(blank(capacity), Seq::new(copies, |i: int| category), capacity) == blank_then(
            (capacity - copies) as nat,
            copies,
            category,
        ),
    decreases copies,
{
    let readings = Seq::new(copies, |i: int| category);
    if copies == 0 {
        assert(blank(capacity) =~= blank_then(capacity, 0, category));
    } else {
        let fewer = (copies - 1) as nat;
        assert(readings.drop_last() =~= Seq::new(fewer, |i: int| category));
        lemma_fed_copies(capacity, fewer, category);
        let before = blank_then((capacity - fewer) as nat, fewer, category);
        assert(slid(before, category, capacity) =~= blank_then(
            (capacity - copies) as nat,
            copies,
            category,
        ));
    }
}

/// Dropping the oldest reading takes at most one occurrence away.
proof fn lemma_occurrences_drop_first(window: Seq<BrickColor>, category: BrickColor)
    requires
        window.len() > 0,
    ensures
        occurrences(window.drop_first(), category) <= occurrences(window, category),
    decreases window.len(),
{
    if window.len() > 1 {
        assert(window.drop_first().drop_last() =~= window.drop_last().drop_first());
        lemma_occurrences_drop_first(window.drop_last(), category);
    } else {
        assert(window.drop_first() =~= Seq::<BrickColor>::empty());
    }
}

/// A window holds a category at most as often as it held it before and it
/// came in since.
pub proof fn lemma_fed_occurrences(
    window: Seq<BrickColor>,
    readings: Seq<BrickColor>,
    capacity: nat,
    category: BrickColor,
)
    ensures
        occurrences(fed(window, readings, capacity), category) <= occurrences(window, category)
            + occurrences(readings, category),
    decreases readings.len(),
{
    if readings.len() > 0 {
        let before = fed(window, readings.drop_last(), capacity);
        lemma_fed_occurrences(window, readings.drop_last(), capacity, category);
        let grown = before.push(readings.last());
        assert(grown.drop_last() =~= before);
        lemma_occurrences_drop_first(grown, category);
    }
}

/// Fewer copies of a real category than the threshold asks, fed into a blank
/// window, leave the stable category `Unclassified`.
pub proof fn lemma_below_threshold_is_unclassified(
    capacity: nat,
    threshold: nat,
    copies: nat,
    category: BrickColor,
)
    requires
        copies < threshold,
    ensures
        debounced(fed(blank(capacity), Seq::new(copies, |i: int| category), capacity), threshold)
            == BrickColor::Unclassified,
{
    let readings = Seq::new(copies, |i: int| category);
    let window = fed(blank(capacity), readings, capacity);
    assert forall|other: BrickColor| other != BrickColor::Unclassified implies occurrences(
        window,
        other,
    ) < threshold by {
        lemma_fed_occurrences(blank(capacity), readings, capacity, other);
        lemma_occurrences(readings, other);
        lemma_occurrences(blank(capacity), other);
    }
    lemma_unconfident_is_unclassified(window, threshold);
}

/// As many copies of a real category as the threshold asks, fed into a blank
/// window that is at most twice as long as the threshold, make that category
/// stable. One copy fewer leaves the stable category `Unclassified`.
///
/// In a longer window the blanks that remain outnumber the copies: see
/// `lemma_outnumbered_is_unclassified`.
pub proof fn lemma_threshold_flips(capacity: nat, threshold: nat, category: BrickColor)
    requires
        category != BrickColor::Unclassified,
        1 <= threshold <= capacity <= 2 * threshold,
    ensures
        debounced(
            fed(blank(capacity), Seq::new((threshold - 1) as nat, |i: int| category), capacity),
            threshold,
        ) == BrickColor::Unclassified,
        debounced(
            fed(blank(capacity), Seq::new(threshold, |i: int| category), capacity),
            threshold,
        ) == category,
{
    lemma_below_threshold_is_unclassified(capacity, threshold, (threshold - 1) as nat, category);
    lemma_fed_copies(capacity, threshold, category);
    let blanks = (capacity - threshold) as nat;
    let window = blank_then(blanks, threshold, category);
    assert forall|other: BrickColor| other != category implies #[trigger] outranks(
        window,
        category,
        other,
    ) by {
        lemma_blank_then(blanks, threshold, category, other);
    }
    lemma_blank_then(blanks, threshold, category, category);
    lemma_confident_winner_is_stable(window, threshold, category);
}

/// Copies of a real category that fill less than half of a window, fed into
/// it while it was blank, are outnumbered by the blanks that remain: the
/// stable category is `Unclassified`, however many the copies are.
pub proof fn lemma_outnumbered_is_unclassified(
    capacity: nat,
    threshold: nat,
    copies: nat,
    category: BrickColor,
)
    requires
        category != BrickColor::Unclassified,
        2 * copies < capacity,
    ensures
        debounced(fed(blank(capacity), Seq::new(copies, |i: int| category), capacity), threshold)
            == BrickColor::Unclassified,
{
    lemma_fed_copies(capacity, copies, category);
    let window = blank_then((capacity - copies) as nat, copies, category);
    lemma_blank_then((capacity - copies) as nat, copies, category, category);
    lemma_majority_wins(window, BrickColor::Unclassified);
}

} // verus!
