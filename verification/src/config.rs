//! The configuration of a sorter: the debouncer's window, the kicker's
//! trajectory, the two polling periods and the direction of each category.

use vstd::prelude::*;
use crate::color::BrickColor;

verus! {

/// Readings kept by a debounce window.
pub const DEFAULT_WINDOW_SIZE: usize = 10;

/// Occurrences within the window that make a category stable.
pub const DEFAULT_CONFIDENCE_THRESHOLD: usize = 3;

/// Degrees by which the kicker is drawn back before the strike.
pub const DEFAULT_PRIME_ANGLE: i32 = 170;

/// Degrees by which the strike passes the rest position.
pub const DEFAULT_KICK_ANGLE: i32 = 45;

/// Speed of the first priming sub-move.
pub const DEFAULT_MAX_SPEED: i32 = 120;

/// Sub-moves into which the priming rotation is split.
pub const DEFAULT_SUB_MOVE_COUNT: i32 = 5;

/// Speed of the strike and of the return.
pub const DEFAULT_STRIKE_SPEED: i32 = 500;

/// Longest wait for a move to settle, in milliseconds.
pub const DEFAULT_SETTLE_TIMEOUT_MS: u64 = 1000;

/// Pause after the strike, in milliseconds.
pub const DEFAULT_STRIKE_HOLD_MS: u64 = 500;

/// Period of the sampling context, in milliseconds.
pub const DEFAULT_SAMPLE_PERIOD_MS: u64 = 16;

/// Period of the control context, in milliseconds.
pub const DEFAULT_POLL_PERIOD_MS: u64 = 200;

/// Time from detection to strike, in milliseconds.
pub const DEFAULT_KICK_TARGET_DURATION_MS: u64 = 4900;

/// The sign of a kicker rotation: which way an object is diverted, if at all.
#[derive(Clone, Copy, Debug, PartialEq, Eq, Structural)]
pub enum Direction {
    /// Divert with a rotation of sign -1.
    Negative,
    /// Leave the object on the belt.
    Neutral,
    /// Divert with a rotation of sign +1.
    Positive,
}

impl Direction {
    /// The sign as an integer: -1, 0 or +1.
    pub open spec fn sign_of(self) -> int {
        match self {
            Direction::Negative => -1,
            Direction::Neutral => 0,
            Direction::Positive => 1,
        }
    }

    /// The sign as an integer: -1, 0 or +1.
    pub fn sign(self) -> (sign: i32)
        ensures
            sign == self.sign_of(),
    {
        match self {
            Direction::Negative => -1,
            Direction::Neutral => 0,
            Direction::Positive => 1,
        }
    }

    /// The direction with the given sign; `None` unless the sign is -1, 0 or +1.
    pub fn from_sign(sign: i32) -> (direction: Option<Direction>)
        ensures
            direction.is_some() <==> -1 <= sign <= 1,
            direction matches Some(d) ==> d.sign_of() == sign,
    {
        if sign == -1 {
            Some(Direction::Negative)
        } else if sign == 0 {
            Some(Direction::Neutral)
        } else if sign == 1 {
            Some(Direction::Positive)
        } else {
            None
        }
    }
}

/// The direction in which each category is diverted. `Unclassified` has no
/// entry: an unknown object is never kicked, whatever is assigned.
#[derive(Clone, Copy, Debug, PartialEq, Eq, Structural)]
pub struct DirectionMap {
    black: Direction,
    blue: Direction,
    green: Direction,
    yellow: Direction,
    red: Direction,
    white: Direction,
    brown: Direction,
}

impl DirectionMap {
    /// The direction that the map gives a category.
    pub closed spec fn direction_of(self, category: BrickColor) -> Direction {
        match category {
            BrickColor::Unclassified => Direction::Neutral,
            BrickColor::Black => self.black,
            BrickColor::Blue => self.blue,
            BrickColor::Green => self.green,
            BrickColor::Yellow => self.yellow,
            BrickColor::Red => self.red,
            BrickColor::White => self.white,
            BrickColor::Brown => self.brown,
        }
    }

    /// The map that a call of `assign` leaves: the entry of `category` is
    /// replaced unless the category is `Unclassified`.
    pub open spec fn assigned(self, next: DirectionMap, category: BrickColor, direction: Direction) -> bool {
        forall|c: BrickColor|
            #[trigger] next.direction_of(c) == if c == category && c != BrickColor::Unclassified {
                direction
            } else {
                self.direction_of(c)
            }
    }

    /// A map that diverts nothing.
    pub fn new() -> (map: DirectionMap)
        ensures
            forall|c: BrickColor| #[trigger] map.direction_of(c) == Direction::Neutral,
    {
        DirectionMap {
            black: Direction::Neutral,
            blue: Direction::Neutral,
            green: Direction::Neutral,
            yellow: Direction::Neutral,
            red: Direction::Neutral,
            white: Direction::Neutral,
            brown: Direction::Neutral,
        }
    }

    /// Binds a category to a direction. The entry of `Unclassified` stays
    /// neutral; the result says whether the map now gives `category` the
    /// direction asked for.
    pub fn assign(&mut self, category: BrickColor, direction: Direction) -> (applied: bool)
        ensures
            old(self).assigned(*final(self), category, direction),
            applied <==> (category != BrickColor::Unclassified || direction == Direction::Neutral),
            applied <==> final(self).direction_of(category) == direction,
    {
        match category {
            BrickColor::Unclassified => {},
            BrickColor::Black => { self.black = direction; },
            BrickColor::Blue => { self.blue = direction; },
            BrickColor::Green => { self.green = direction; },
            BrickColor::Yellow => { self.yellow = direction; },
            BrickColor::Red => { self.red = direction; },
            BrickColor::White => { self.white = direction; },
            BrickColor::Brown => { self.brown = direction; },
        }
        match category {
            BrickColor::Unclassified => direction == Direction::Neutral,
            _ => true,
        }
    }

    /// The direction in which a category is diverted.
    pub fn direction(&self, category: BrickColor) -> (direction: Direction)
        ensures
            direction == self.direction_of(category),
            category == BrickColor::Unclassified ==> direction == Direction::Neutral,
    {
        match category {
            BrickColor::Unclassified => Direction::Neutral,
            BrickColor::Black => self.black,
            BrickColor::Blue => self.blue,
            BrickColor::Green => self.green,
            BrickColor::Yellow => self.yellow,
            BrickColor::Red => self.red,
            BrickColor::White => self.white,
            BrickColor::Brown => self.brown,
        }
    }
}

/// No map diverts an unclassified object, whatever was assigned to it.
pub proof fn lemma_unclassified_stays(map: DirectionMap)
    ensures
        map.direction_of(BrickColor::Unclassified) == Direction::Neutral,
        map.direction_of(BrickColor::Unclassified).sign_of() == 0,
{
}

/// Assigning to `Unclassified` changes no entry of a map.
pub proof fn lemma_assign_unclassified(map: DirectionMap, next: DirectionMap, direction: Direction)
    requires
        map.assigned(next, BrickColor::Unclassified, direction),
    ensures
        forall|c: BrickColor| next.direction_of(c) == map.direction_of(c),
{
    assert forall|c: BrickColor| next.direction_of(c) == map.direction_of(c) by {
        assert(next.direction_of(c) == map.direction_of(c));
    }
}

/// Why a configuration cannot drive the kicker.
#[derive(Clone, Copy, Debug, PartialEq, Eq, Structural)]
pub enum ConfigError {
    /// The priming rotation is split into fewer than one sub-move.
    NoSubMoves,
    /// Some move of the trajectory does not fit the actuator's 32-bit range.
    AngleOutOfRange,
}

/// Everything that can be tuned, handed to each component when it is built.
/// Angles are motor-encoder degrees and speeds are in the actuator's own
/// units; neither is derived from anything else.
#[derive(Clone, Copy, Debug, PartialEq, Eq, Structural)]
pub struct SorterConfig {
    /// Readings kept by each debounce window.
    pub window_size: usize,
    /// Occurrences within the window that make a category stable.
    pub confidence_threshold: usize,
    /// Degrees by which the kicker is drawn back before the strike.
    pub prime_angle: i32,
    /// Degrees by which the strike passes the rest position.
    pub kick_angle: i32,
    /// Speed of the first priming sub-move; later ones are slower.
    pub max_speed: i32,
    /// Sub-moves into which the priming rotation is split.
    pub sub_move_count: i32,
    /// Speed of the strike and of the return.
    pub strike_speed: i32,
    /// Longest wait for a move to settle, in milliseconds.
    pub settle_timeout_ms: u64,
    /// Pause after the strike, in milliseconds.
    pub strike_hold_ms: u64,
    /// Period of the sampling context, in milliseconds.
    pub sample_period_ms: u64,
    /// Period of the control context, in milliseconds.
    pub poll_period_ms: u64,
    /// Time from detection to strike, in milliseconds.
    pub kick_target_duration_ms: u64,
    /// The direction in which each category is diverted.
    pub direction_map: DirectionMap,
}

impl SorterConfig {
    /// Whether every number of the configuration has its default value.
    pub open spec fn has_default_numbers(self) -> bool {
        &&& self.window_size == DEFAULT_WINDOW_SIZE
        &&& self.confidence_threshold == DEFAULT_CONFIDENCE_THRESHOLD
        &&& self.prime_angle == DEFAULT_PRIME_ANGLE
        &&& self.kick_angle == DEFAULT_KICK_ANGLE
        &&& self.max_speed == DEFAULT_MAX_SPEED
        &&& self.sub_move_count == DEFAULT_SUB_MOVE_COUNT
        &&& self.strike_speed == DEFAULT_STRIKE_SPEED
        &&& self.settle_timeout_ms == DEFAULT_SETTLE_TIMEOUT_MS
        &&& self.strike_hold_ms == DEFAULT_STRIKE_HOLD_MS
        &&& self.sample_period_ms == DEFAULT_SAMPLE_PERIOD_MS
        &&& self.poll_period_ms == DEFAULT_POLL_PERIOD_MS
        &&& self.kick_target_duration_ms == DEFAULT_KICK_TARGET_DURATION_MS
    }
}

impl Default for SorterConfig {
    /// The default numbers, with a direction map that diverts nothing.
    fn default() -> (config: SorterConfig)
        ensures
            config.has_default_numbers(),
            forall|c: BrickColor| #[trigger] config.direction_map.direction_of(c) == Direction::Neutral,
    {
        SorterConfig {
            window_size: DEFAULT_WINDOW_SIZE,
            confidence_threshold: DEFAULT_CONFIDENCE_THRESHOLD,
            prime_angle: DEFAULT_PRIME_ANGLE,
            kick_angle: DEFAULT_KICK_ANGLE,
            max_speed: DEFAULT_MAX_SPEED,
            sub_move_count: DEFAULT_SUB_MOVE_COUNT,
            strike_speed: DEFAULT_STRIKE_SPEED,
            settle_timeout_ms: DEFAULT_SETTLE_TIMEOUT_MS,
            strike_hold_ms: DEFAULT_STRIKE_HOLD_MS,
            sample_period_ms: DEFAULT_SAMPLE_PERIOD_MS,
            poll_period_ms: DEFAULT_POLL_PERIOD_MS,
            kick_target_duration_ms: DEFAULT_KICK_TARGET_DURATION_MS,
            direction_map: DirectionMap::new(),
        }
    }
}

} // verus!
