//! The debouncer: a sliding window over the classifications of one sensor,
//! from which a stable category is voted.

use vstd::prelude::*;
use crate::color::BrickColor;
use crate::config::{SorterConfig, DEFAULT_CONFIDENCE_THRESHOLD};
use crate::vote::{
    candidate, debounced, latest, lemma_debounced_blank, lemma_debounced_occurs, lemma_latest,
    lemma_occurrences, lemma_winner_is_candidate, occurrences, outranks, wins,
};
use crate::window::{blank, fed, slid};

verus! {

/// Stable categories kept in the diagnostic log.
pub const HISTORY_LENGTH: usize = 5;

/// The diagnostic log after an entry has been added: the entry is appended,
/// and the oldest one leaves where the log would hold more than
/// `HISTORY_LENGTH` entries.
pub open spec fn logged(history: Seq<BrickColor>, entry: BrickColor) -> Seq<BrickColor> {
    let grown = history.push(entry);
    if grown.len() > HISTORY_LENGTH {
        grown.drop_first()
    } else {
        grown
    }
}

/// The diagnostic log after a sequence of readings has come into a window,
/// one after the other: each time the stable category of the window, as the
/// reading left it, is added to the log.
pub open spec fn trailed(
    window: Seq<BrickColor>,
    history: Seq<BrickColor>,
    readings: Seq<BrickColor>,
    capacity: nat,
    threshold: nat,
) -> Seq<BrickColor>
    decreases readings.len(),
{
    if readings.len() == 0 {
        history
    } else {
        logged(
            trailed(window, history, readings.drop_last(), capacity, threshold),
            debounced(fed(window, readings, capacity), threshold),
        )
    }
}

/// The debounce window of one sensor.
#[derive(Debug)]
pub struct SensorDebouncer {
    readings: Vec<BrickColor>,
    window_size: usize,
    confidence_threshold: usize,
    most_likely_brick: BrickColor,
    brick_window: Vec<BrickColor>,
}

impl Clone for SensorDebouncer {
    /// A debouncer with the same window, log and stable category.
    fn clone(&self) -> (copy: SensorDebouncer)
        ensures
            copy.window() == self.window(),
            copy.history() == self.history(),
            copy.capacity() == self.capacity(),
            copy.threshold() == self.threshold(),
            copy.stable() == self.stable(),
            self.wf() ==> copy.wf(),
    {
        SensorDebouncer {
            readings: self.readings.clone(),
            window_size: self.window_size,
            confidence_threshold: self.confidence_threshold,
            most_likely_brick: self.most_likely_brick,
            brick_window: self.brick_window.clone(),
        }
    }
}

impl SensorDebouncer {
    /// The readings in the window, oldest first.
    pub closed spec fn window(self) -> Seq<BrickColor> {
        self.readings@
    }

    /// The number of readings that the window holds.
    pub closed spec fn capacity(self) -> nat {
        self.window_size as nat
    }

    /// The occurrences that make a category stable.
    pub closed spec fn threshold(self) -> nat {
        self.confidence_threshold as nat
    }

    /// The stable category.
    pub closed spec fn stable(self) -> BrickColor {
        self.most_likely_brick
    }

    /// The diagnostic log of stable categories, oldest first.
    pub closed spec fn history(self) -> Seq<BrickColor> {
        self.brick_window@
    }

    /// What holds of every debouncer: the window is full, the log is short,
    /// and the stable category is the one that the window votes for.
    pub closed spec fn wf(self) -> bool {
        &&& self.readings@.len() == self.window_size
        &&& self.brick_window@.len() <= HISTORY_LENGTH
        &&& self.most_likely_brick == debounced(self.readings@, self.confidence_threshold as nat)
    }

    /// What well-formedness says in terms of the window: it is full, and the
    /// stable category is the one it votes for.
    pub proof fn lemma_well_formed(self)
        requires
            self.wf(),
        ensures
            self.window().len() == self.capacity(),
            self.history().len() <= HISTORY_LENGTH,
            self.stable() == debounced(self.window(), self.threshold()),
    {
    }

    /// A debouncer with a window of `window_size` readings, all of them
    /// `Unclassified`, and the default confidence threshold.
    pub fn new(window_size: usize) -> (debouncer: SensorDebouncer)
        ensures
            debouncer.wf(),
            debouncer.capacity() == window_size,
            debouncer.threshold() == DEFAULT_CONFIDENCE_THRESHOLD,
            debouncer.window() == blank(window_size as nat),
            debouncer.stable() == BrickColor::Unclassified,
            debouncer.history() == Seq::<BrickColor>::empty(),
    {
        SensorDebouncer::with_threshold(window_size, DEFAULT_CONFIDENCE_THRESHOLD)
    }

    /// A debouncer with a window of `window_size` readings, all of them
    /// `Unclassified`, in which a category is stable once it occurs
    /// `confidence_threshold` times.
    pub fn with_threshold(window_size: usize, confidence_threshold: usize) -> (debouncer:
        SensorDebouncer)
        ensures
            debouncer.wf(),
            debouncer.capacity() == window_size,
            debouncer.threshold() == confidence_threshold,
            debouncer.window() == blank(window_size as nat),
            debouncer.stable() == BrickColor::Unclassified,
            debouncer.history() == Seq::<BrickColor>::empty(),
    {
        let mut readings: Vec<BrickColor> = Vec::new();
        let mut i: usize = 0;
        while i < window_size
            invariant
                i <= window_size,
                readings@ == blank(i as nat),
            decreases window_size - i,
        {
            readings.push(BrickColor::Unclassified);
            i = i + 1;
        }
        proof {
            lemma_debounced_blank(readings@, confidence_threshold as nat);
        }
        SensorDebouncer {
            readings,
            window_size,
            confidence_threshold,
            most_likely_brick: BrickColor::Unclassified,
            brick_window: Vec::new(),
        }
    }

    /// A debouncer with the window size and confidence threshold of a
    /// configuration.
    pub fn from_config(config: &SorterConfig) -> (debouncer: SensorDebouncer)
        ensures
            debouncer.wf(),
            debouncer.capacity() == config.window_size,
            debouncer.threshold() == config.confidence_threshold,
            debouncer.window() == blank(config.window_size as nat),
            debouncer.stable() == BrickColor::Unclassified,
            debouncer.history() == Seq::<BrickColor>::empty(),
    {
        SensorDebouncer::with_threshold(config.window_size, config.confidence_threshold)
    }

    /// Takes a new reading into the window and votes again.
    ///
    /// The reading is appended and the oldest one leaves. The stable category
    /// becomes the winner of the vote over the window, if that is a real
    /// category and occurs at least as often as the confidence threshold asks,
    /// and `Unclassified` otherwise. The stable category is added to the log.
    pub fn update(&mut self, new_reading: BrickColor)
        requires
            old(self).wf(),
        ensures
            final(self).wf(),
            final(self).capacity() == old(self).capacity(),
            final(self).threshold() == old(self).threshold(),
            final(self).window() == slid(old(self).window(), new_reading, old(self).capacity()),
            final(self).window().len() <= final(self).capacity(),
            final(self).stable() == debounced(final(self).window(), final(self).threshold()),
            final(self).history() == logged(old(self).history(), final(self).stable()),
    {
        self.readings.push(new_reading);
        if self.readings.len() > self.window_size {
            self.readings.remove(0);
        }
        let curr_brick = vote(&self.readings);
        if curr_brick != BrickColor::Unclassified && count_of(&self.readings, curr_brick)
            >= self.confidence_threshold {
            self.most_likely_brick = curr_brick;
        } else {
            self.most_likely_brick = BrickColor::Unclassified;
        }
        let stable = self.most_likely_brick;
        self.update_brick_window(stable);
    }

    /// Appends an entry to the diagnostic log and drops the oldest one where
    /// the log would hold more than `HISTORY_LENGTH`. The log plays no part in
    /// any decision.
    pub fn update_brick_window(&mut self, brick: BrickColor)
        requires
            old(self).wf(),
        ensures
            final(self).wf(),
            final(self).history() == logged(old(self).history(), brick),
            final(self).history().len() <= HISTORY_LENGTH,
            final(self).window() == old(self).window(),
            final(self).capacity() == old(self).capacity(),
            final(self).threshold() == old(self).threshold(),
            final(self).stable() == old(self).stable(),
    {
        self.brick_window.push(brick);
        if self.brick_window.len() > HISTORY_LENGTH {
            self.brick_window.remove(0);
        }
    }

    /// The stable category: `Unclassified`, or a category that the window
    /// holds at least as often as the confidence threshold asks.
    pub fn get_most_likely_brick(&self) -> (brick: BrickColor)
        ensures
            brick == self.stable(),
            self.wf() ==> brick == debounced(self.window(), self.threshold()),
            self.wf() && brick != BrickColor::Unclassified ==> occurrences(self.window(), brick)
                >= self.threshold(),
    {
        proof {
            lemma_debounced_occurs(self.readings@, self.confidence_threshold as nat);
        }
        self.most_likely_brick
    }

    /// A copy of the readings in the window, oldest first.
    pub fn get_readings(&self) -> (readings: Vec<BrickColor>)
        ensures
            readings@ == self.window(),
    {
        self.readings.clone()
    }

    /// A copy of the diagnostic log, oldest first.
    pub fn get_brick_window(&self) -> (history: Vec<BrickColor>)
        ensures
            history@ == self.history(),
    {
        self.brick_window.clone()
    }

    /// The number of readings that the window holds.
    pub fn window_size(&self) -> (size: usize)
        ensures
            size == self.capacity(),
    {
        self.window_size
    }

    /// The occurrences that make a category stable.
    pub fn confidence_threshold(&self) -> (threshold: usize)
        ensures
            threshold == self.threshold(),
    {
        self.confidence_threshold
    }
}

/// Counts the readings of a category.
fn count_of(readings: &Vec<BrickColor>, category: BrickColor) -> (count: usize)
    ensures
        count == occurrences(readings@, category),
{
    let mut count: usize = 0;
    let mut i: usize = 0;
    while i < readings.len()
        invariant
            i <= readings.len(),
            count <= i,
            count == occurrences(readings@.take(i as int), category),
        decreases readings.len() - i,
    {
        assert(readings@.take(i + 1).drop_last() =~= readings@.take(i as int));
        if readings[i] == category {
            count = count + 1;
        }
        i = i + 1;
    }
    assert(readings@.take(i as int) =~= readings@);
    count
}

/// Votes over the readings, scanning from the newest to the oldest and
/// keeping the first category met that none outnumbers.
fn vote(readings: &Vec<BrickColor>) -> (winner: BrickColor)
    ensures
        winner == candidate(readings@),
        readings@.len() > 0 ==> wins(readings@, winner),
{
    let len = readings.len();
    if len == 0 {
        assert forall|category: BrickColor| !wins(readings@, category) by {
            lemma_occurrences(readings@, category);
        }
        return BrickColor::Unclassified;
    }
    let mut best_at: usize = len - 1;
    let mut best = readings[best_at];
    let mut best_count = count_of(readings, best);
    let mut i: usize = len - 1;
    while i > 0
        invariant
            len == readings.len(),
            i <= best_at < len,
            best == readings@[best_at as int],
            best_count == occurrences(readings@, best),
            forall|j: int|
                best_at < j < len ==> occurrences(readings@, #[trigger] readings@[j]) < best_count,
            forall|j: int|
                i <= j <= best_at ==> occurrences(readings@, #[trigger] readings@[j]) <= best_count,
        decreases i,
    {
        i = i - 1;
        let reading = readings[i];
        let count = count_of(readings, reading);
        if count > best_count {
            best = reading;
            best_count = count;
            best_at = i;
        }
    }
    proof {
        let window = readings@;
        lemma_occurrences(window, best);
        lemma_latest(window, best);
        assert forall|other: BrickColor| other != best implies #[trigger] outranks(
            window,
            best,
            other,
        ) by {
            lemma_occurrences(window, other);
            lemma_latest(window, other);
            if occurrences(window, other) > 0 {
                let j = latest(window, other);
                assert(window[j] == other);
            }
        }
        lemma_winner_is_candidate(window, best);
    }
    best
}

} // verus!
