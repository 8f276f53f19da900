//! The state that the sampling context and the control context share: the
//! debounce window of one sensor behind a readers-writer lock.

use vstd::prelude::*;
use vstd::rwlock::{RwLock, RwLockPredicate};
use crate::color::BrickColor;
use crate::debounce::{trailed, SensorDebouncer, HISTORY_LENGTH};
use crate::window::{blank, fed, lemma_fed_full};
use crate::vote::debounced;

verus! {

/// What the lock admits: well-formed debouncers of one window size and one
/// confidence threshold, as some sequence of readings has left the debouncer
/// that was put behind the lock.
pub struct WindowShape {
    /// The number of readings that the window holds.
    pub capacity: nat,
    /// The occurrences that make a category stable.
    pub threshold: nat,
    /// The readings in the window when it was put behind the lock.
    pub initial_window: Seq<BrickColor>,
    /// The diagnostic log when the window was put behind the lock.
    pub initial_history: Seq<BrickColor>,
}

impl WindowShape {
    /// Whether `window` is what the readings leave, taken in one after the
    /// other by the debouncer that was put behind the lock.
    pub open spec fn left_by(self, readings: Seq<BrickColor>, window: SensorDebouncer) -> bool {
        &&& window.window() == fed(self.initial_window, readings, self.capacity)
        &&& window.history() == trailed(
            self.initial_window,
            self.initial_history,
            readings,
            self.capacity,
            self.threshold,
        )
    }
}

impl RwLockPredicate<SensorDebouncer> for WindowShape {
    open spec fn inv(self, window: SensorDebouncer) -> bool {
        &&& window.wf()
        &&& window.capacity() == self.capacity
        &&& window.threshold() == self.threshold
        &&& exists|readings: Seq<BrickColor>| #[trigger] self.left_by(readings, window)
    }
}

/// The debounce window of one sensor, shared between the context that
/// samples the sensor and those that read the result. Writes exclude each
/// other and every read; reads may overlap.
pub struct SharedClassificationState {
    lock: RwLock<SensorDebouncer, WindowShape>,
}

impl SharedClassificationState {
    /// The shape of the window behind the lock.
    pub closed spec fn shape(self) -> WindowShape {
        self.lock.pred()
    }

    /// Whether `category` can be read from a state of this shape: it is the
    /// stable category that some sequence of completed writes leaves.
    pub open spec fn can_read(self, category: BrickColor) -> bool {
        exists|readings: Seq<BrickColor>|
            category == debounced(
                #[trigger] fed(blank(self.shape().capacity), readings, self.shape().capacity),
                self.shape().threshold,
            )
    }

    /// Whether `history` can be read as the diagnostic log of this state: it
    /// is the log that some sequence of completed writes leaves, each write
    /// adding the stable category of the window as it left it.
    pub open spec fn can_log(self, history: Seq<BrickColor>) -> bool {
        exists|readings: Seq<BrickColor>|
            history == #[trigger] trailed(
                self.shape().initial_window,
                self.shape().initial_history,
                readings,
                self.shape().capacity,
                self.shape().threshold,
            )
    }

    /// Puts the window of one sensor behind a lock.
    pub fn new(window: SensorDebouncer) -> (state: SharedClassificationState)
        requires
            window.wf(),
        ensures
            state.shape().capacity == window.capacity(),
            state.shape().threshold == window.threshold(),
            state.shape().initial_window == window.window(),
            state.shape().initial_history == window.history(),
    {
        let ghost shape = WindowShape {
            capacity: window.capacity(),
            threshold: window.threshold(),
            initial_window: window.window(),
            initial_history: window.history(),
        };
        proof {
            assert(shape.left_by(Seq::empty(), window));
        }
        SharedClassificationState { lock: RwLock::new(window, Ghost(shape)) }
    }

    /// Takes a new classification into the window, with every reader and
    /// every other writer locked out.
    pub fn write(&self, category: BrickColor) {
        let (mut window, handle) = self.lock.acquire_write();
        let ghost before = window;
        window.update(category);
        proof {
            let shape = self.shape();
            let readings = choose|readings: Seq<BrickColor>| shape.left_by(readings, before);
            let longer = readings.push(category);
            assert(longer.drop_last() =~= readings);
            assert(shape.left_by(longer, window));
        }
        handle.release_write(window);
    }

    /// A copy of the diagnostic log as the latest write left it: the log of
    /// the window that was put behind the lock, with the stable category
    /// after each completed write added and the oldest entries dropped
    /// beyond `HISTORY_LENGTH`. It plays no part in any decision.
    pub fn history(&self) -> (history: Vec<BrickColor>)
        ensures
            self.can_log(history@),
            history@.len() <= HISTORY_LENGTH,
    {
        let handle = self.lock.acquire_read();
        let history = handle.borrow().get_brick_window();
        proof {
            handle@.lemma_well_formed();
            let shape = self.shape();
            let readings = choose|readings: Seq<BrickColor>| shape.left_by(readings, handle@);
            assert(shape.left_by(readings, handle@));
        }
        handle.release_read();
        history
    }

    /// The stable category as the latest write left it. Whatever is read is
    /// the stable category after a sequence of completed writes: no
    /// half-written state is ever seen.
    pub fn read(&self) -> (category: BrickColor)
        ensures
            self.can_read(category),
    {
        let handle = self.lock.acquire_read();
        let category = handle.borrow().get_most_likely_brick();
        proof {
            let capacity = self.shape().capacity;
            let window = handle@.window();
            handle@.lemma_well_formed();
            lemma_fed_full(blank(capacity), window, capacity);
            assert(fed(blank(capacity), window, capacity) == window);
        }
        handle.release_read();
        category
    }
}

} // verus!
