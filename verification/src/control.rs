//! The control loop: what to do with the stable category that a poll of the
//! decision sensor brought.

use vstd::prelude::*;
use crate::color::BrickColor;
use crate::config::SorterConfig;

verus! {

/// A kick to run before the control loop polls again.
#[derive(Clone, Copy, Debug, PartialEq, Eq, Structural)]
pub struct KickRequest {
    /// The category of the object to divert.
    pub category: BrickColor,
    /// Milliseconds from now to the strike.
    pub target_duration_ms: u64,
}

/// What the control context does after one poll.
#[derive(Clone, Copy, Debug, PartialEq, Eq, Structural)]
pub struct ControlDecision {
    /// The kick to run to its end first, if any. The hardware has one kicker:
    /// nothing is polled while it runs.
    pub kick: Option<KickRequest>,
    /// Milliseconds to wait before the next poll.
    pub pause_ms: u64,
}

/// The decision that a configuration asks for on an observed category: a kick
/// for anything but `Unclassified`, then a pause of one poll period.
pub open spec fn decision_for(config: SorterConfig, observed: BrickColor) -> ControlDecision {
    ControlDecision {
        kick: if observed == BrickColor::Unclassified {
            None
        } else {
            Some(
                KickRequest {
                    category: observed,
                    target_duration_ms: config.kick_target_duration_ms,
                },
            )
        },
        pause_ms: config.poll_period_ms,
    }
}

/// The control loop of one sorter.
#[derive(Clone, Copy, Debug)]
pub struct ControlLoop {
    config: SorterConfig,
}

impl View for ControlLoop {
    type V = SorterConfig;

    closed spec fn view(&self) -> SorterConfig {
        self.config
    }
}

impl ControlLoop {
    /// The control loop of a configuration.
    pub fn new(config: SorterConfig) -> (control: ControlLoop)
        ensures
            control@ == config,
    {
        ControlLoop { config }
    }

    /// Decides what follows a poll that read `observed` as the stable
    /// category of the decision sensor.
    pub fn decide(&self, observed: BrickColor) -> (decision: ControlDecision)
        ensures
            decision == decision_for(self@, observed),
            decision.kick.is_some() <==> observed != BrickColor::Unclassified,
    {
        let kick = match observed {
            BrickColor::Unclassified => None,
            _ => Some(
                KickRequest {
                    category: observed,
                    target_duration_ms: self.config.kick_target_duration_ms,
                },
            ),
        };
        ControlDecision { kick, pause_ms: self.config.poll_period_ms }
    }
}

} // verus!
