//! The kick scheduler: the four-phase trajectory of one kick (prime, dwell,
//! strike, return) as a state machine. The machine hands out one action at a
//! time; whoever drives the actuator performs it and reports how it went.

use vstd::prelude::*;
use crate::color::BrickColor;
use crate::config::{ConfigError, Direction, SorterConfig};
use crate::trajectory::{lemma_moves_fit, lemma_toward_zero, move_command};

verus! {

/// The part of a kick whose action is under way.
#[derive(Clone, Copy, Debug, PartialEq, Eq, Structural)]
pub enum KickStage {
    /// A priming sub-move has been commanded.
    Prime,
    /// The kicker is primed and waits for the target duration to pass.
    Dwell,
    /// The strike has been commanded.
    Strike,
    /// The kicker rests where the strike ended.
    Hold,
    /// The return has been commanded.
    Return,
}

impl KickStage {
    /// Whether the action of this stage is a move of the actuator.
    pub open spec fn is_move(self) -> bool {
        self == KickStage::Prime || self == KickStage::Strike || self == KickStage::Return
    }
}

/// An actuator command that failed. It ends the kick where it stands: the
/// kicker is left at an offset that nothing here knows, and has to be brought
/// back to its rest position before the next kick.
#[derive(Clone, Copy, Debug, PartialEq, Eq, Structural)]
pub struct ActuationError {
    /// The stage whose action failed.
    pub stage: KickStage,
    /// The sum of the angles that the actuator had accepted before.
    pub accepted: i64,
}

/// Where a kick stands.
#[derive(Clone, Copy, Debug, PartialEq, Eq, Structural)]
pub enum KickStatus {
    /// The action of this stage has been handed out and not yet answered.
    Active(KickStage),
    /// The kick is over and the kicker is back at rest.
    Done,
    /// The kick was given up after a failed command.
    Aborted(ActuationError),
}

/// How the action that was handed out last went.
#[derive(Clone, Copy, Debug, PartialEq, Eq, Structural)]
pub enum StepOutcome {
    /// It was carried out; a move has settled.
    Completed,
    /// The move was accepted, but the actuator was still moving when the
    /// settle wait ran out. The kick goes on.
    TimedOut,
    /// The actuator refused the command.
    Failed,
}

/// The report on one action.
#[derive(Clone, Copy, Debug, PartialEq, Eq, Structural)]
pub struct KickEvent {
    /// How the action went.
    pub outcome: StepOutcome,
    /// Milliseconds since the kick began, read when the action was over.
    pub elapsed_ms: u64,
}

/// One relative move of the actuator.
#[derive(Clone, Copy, Debug, PartialEq, Eq, Structural)]
pub struct MoveCommand {
    /// Degrees to turn, relative to the position commanded last.
    pub angle: i32,
    /// Speed of the move.
    pub speed: i32,
    /// Longest wait for the actuator to come to rest, in milliseconds.
    pub settle_timeout_ms: u64,
}

/// What the driver of the actuator is to do next.
#[derive(Clone, Copy, Debug, PartialEq, Eq, Structural)]
pub enum KickAction {
    /// Command the move, then wait until the actuator rests or the settle
    /// timeout passes.
    Move(MoveCommand),
    /// Let the given time pass.
    Sleep { millis: u64 },
    /// Nothing: the kick is over.
    Done,
    /// Nothing: the kick was given up.
    Abort(ActuationError),
}

/// The state of one kick as plain numbers.
pub struct KickState {
    /// The configuration that the kick runs under.
    pub config: SorterConfig,
    /// The sign of the kick: -1, 0 or +1.
    pub sign: int,
    /// Milliseconds that are to pass between the start and the strike.
    pub target_ms: int,
    /// Where the kick stands.
    pub status: KickStatus,
    /// Priming sub-moves that the actuator has accepted.
    pub sub_moves: int,
    /// The sum of the angles that the actuator has accepted.
    pub displacement: int,
    /// Accepted moves that had not settled when their wait ran out.
    pub settle_timeouts: int,
    /// Whether priming took longer than the target duration.
    pub overrun: bool,
}

impl KickState {
    /// The state in which a kick of the given sign begins.
    pub open spec fn initial(config: SorterConfig, sign: int, target_ms: int) -> KickState {
        KickState {
            config,
            sign,
            target_ms,
            status: if sign == 0 {
                KickStatus::Done
            } else {
                KickStatus::Active(KickStage::Prime)
            },
            sub_moves: 0,
            displacement: 0,
            settle_timeouts: 0,
            overrun: false,
        }
    }

    /// The angle of the move that is under way; zero where none is.
    pub open spec fn pending_angle(self) -> int {
        match self.status {
            KickStatus::Active(KickStage::Prime) => self.config.prime_step(self.sign),
            KickStatus::Active(KickStage::Strike) => -self.displacement - self.config.kick_angle
                * self.sign,
            KickStatus::Active(KickStage::Return) => -self.displacement,
            _ => 0,
        }
    }

    /// The action that is under way in a state whose action is a move.
    pub open spec fn pending_move(self) -> MoveCommand {
        match self.status {
            KickStatus::Active(KickStage::Prime) => move_command(
                self.pending_angle(),
                self.config.sub_move_speed(self.sub_moves),
                self.config.settle_timeout_ms,
            ),
            _ => move_command(
                self.pending_angle(),
                self.config.strike_speed as int,
                self.config.settle_timeout_ms,
            ),
        }
    }

    /// The action with which a kick begins.
    pub open spec fn first_action(self) -> KickAction {
        match self.status {
            KickStatus::Active(_) => KickAction::Move(self.pending_move()),
            KickStatus::Done => KickAction::Done,
            KickStatus::Aborted(error) => KickAction::Abort(error),
        }
    }

    /// The moves that the actuator has accepted.
    pub open spec fn accepted_moves(self) -> int {
        self.sub_moves + match self.status {
            KickStatus::Active(KickStage::Hold) | KickStatus::Active(KickStage::Return) => 1int,
            KickStatus::Done => if self.sign == 0 { 0int } else { 2int },
            KickStatus::Aborted(_) => 2int,
            _ => 0int,
        }
    }

    /// What holds of every state that a kick passes through. In particular a
    /// kick that is done has a displacement of zero.
    pub open spec fn wf(self) -> bool {
        &&& self.config.kick_feasible()
        &&& -1 <= self.sign <= 1
        &&& 0 <= self.target_ms <= u64::MAX
        &&& 0 <= self.sub_moves <= self.config.sub_move_count
        &&& 0 <= self.settle_timeouts <= self.accepted_moves()
        &&& match self.status {
            KickStatus::Active(stage) => {
                &&& self.sign != 0
                &&& match stage {
                    KickStage::Prime => {
                        &&& self.sub_moves < self.config.sub_move_count
                        &&& self.displacement == self.sub_moves * self.config.prime_step(self.sign)
                    },
                    KickStage::Dwell | KickStage::Strike => {
                        &&& self.sub_moves == self.config.sub_move_count
                        &&& self.displacement == self.config.primed_offset(self.sign)
                    },
                    KickStage::Hold | KickStage::Return => {
                        &&& self.sub_moves == self.config.sub_move_count
                        &&& self.displacement == -self.config.return_angle(self.sign)
                    },
                }
            },
            KickStatus::Done => {
                &&& self.displacement == 0
                &&& self.sign == 0 ==> self.sub_moves == 0
                &&& self.sign != 0 ==> self.sub_moves == self.config.sub_move_count
            },
            KickStatus::Aborted(_) => true,
        }
    }

    /// The state after the report `event` on the action under way, and the
    /// action to take next.
    ///
    /// A finished kick stays as it is. A failed command ends the kick. Any
    /// other report adds the angle of the move under way to the displacement
    /// and moves on: through the priming sub-moves, then to the dwell (or
    /// straight to the strike, where the target duration has passed), the
    /// strike, the hold and the return.
    pub open spec fn step(self, event: KickEvent) -> (KickState, KickAction) {
        match self.status {
            KickStatus::Done => (self, KickAction::Done),
            KickStatus::Aborted(error) => (self, KickAction::Abort(error)),
            KickStatus::Active(stage) => if event.outcome == StepOutcome::Failed {
                let error = ActuationError { stage, accepted: self.displacement as i64 };
                (KickState { status: KickStatus::Aborted(error), ..self }, KickAction::Abort(error))
            } else {
                let late = event.outcome == StepOutcome::TimedOut && stage.is_move();
                let moved = KickState {
                    displacement: self.displacement + self.pending_angle(),
                    settle_timeouts: self.settle_timeouts + if late { 1int } else { 0int },
                    ..self
                };
                match stage {
                    KickStage::Prime => {
                        let primed = KickState { sub_moves: self.sub_moves + 1, ..moved };
                        if primed.sub_moves < self.config.sub_move_count {
                            (primed, KickAction::Move(primed.pending_move()))
                        } else if event.elapsed_ms < self.target_ms {
                            (
                                KickState { status: KickStatus::Active(KickStage::Dwell), ..primed },
                                KickAction::Sleep {
                                    millis: (self.target_ms - event.elapsed_ms) as u64,
                                },
                            )
                        } else {
                            let next = KickState {
                                status: KickStatus::Active(KickStage::Strike),
                                overrun: true,
                                ..primed
                            };
                            (next, KickAction::Move(next.pending_move()))
                        }
                    },
                    KickStage::Dwell => {
                        let next = KickState { status: KickStatus::Active(KickStage::Strike), ..moved };
                        (next, KickAction::Move(next.pending_move()))
                    },
                    KickStage::Strike => (
                        KickState { status: KickStatus::Active(KickStage::Hold), ..moved },
                        KickAction::Sleep { millis: self.config.strike_hold_ms },
                    ),
                    KickStage::Hold => {
                        let next = KickState { status: KickStatus::Active(KickStage::Return), ..moved };
                        (next, KickAction::Move(next.pending_move()))
                    },
                    KickStage::Return => (KickState { status: KickStatus::Done, ..moved }, KickAction::Done),
                }
            },
        }
    }
}

/// A step keeps a state well-formed.
pub proof fn lemma_step_wf(state: KickState, event: KickEvent)
    requires
        state.wf(),
    ensures
        state.step(event).0.wf(),
{
    let step = state.config.prime_step(state.sign);
    let k = state.sub_moves;
    assert((k + 1) * step == k * step + step) by (nonlinear_arith);
}

/// The kick scheduler of one sorter: a configuration that was found
/// feasible, from which each kick is begun.
#[derive(Clone, Copy, Debug)]
pub struct KickScheduler {
    config: SorterConfig,
}

impl View for KickScheduler {
    type V = SorterConfig;

    closed spec fn view(&self) -> SorterConfig {
        self.config
    }
}

/// The priming sub-move with the given index, counted from zero.
fn prime_move(config: &SorterConfig, direction: Direction, index: i32) -> (command: MoveCommand)
    requires
        config.kick_feasible(),
        direction != Direction::Neutral,
        0 <= index < config.sub_move_count,
    ensures
        command == move_command(
            config.prime_step(direction.sign_of()),
            config.sub_move_speed(index as int),
            config.settle_timeout_ms,
        ),
        command.angle == config.prime_step(direction.sign_of()),
        command.speed == config.sub_move_speed(index as int),
{
    let count: i64 = config.sub_move_count as i64;
    let rotation: i64 = config.prime_angle as i64 * direction.sign() as i64;
    let angle: i64 = rotation / count;
    let decrement: i64 = config.max_speed as i64 / count;
    proof {
        lemma_moves_fit(*config, direction.sign_of(), index as int);
        lemma_toward_zero(config.max_speed as int, count as int, index as int);
    }
    let speed: i64 = config.max_speed as i64 - index as i64 * decrement;
    MoveCommand { angle: angle as i32, speed: speed as i32, settle_timeout_ms: config.settle_timeout_ms }
}

impl KickScheduler {
    /// A scheduler holds nothing but a feasible configuration.
    #[verifier::type_invariant]
    pub closed spec fn wf(self) -> bool {
        self.config.kick_feasible()
    }

    /// Builds the scheduler of a configuration. It is refused with
    /// `NoSubMoves` where the priming rotation has no sub-move, and with
    /// `AngleOutOfRange` where some move of a kick would not fit the actuator.
    pub fn new(config: SorterConfig) -> (result: Result<KickScheduler, ConfigError>)
        ensures
            result.is_ok() <==> config.kick_feasible(),
            result matches Ok(scheduler) ==> scheduler@ == config,
            result matches Err(error) ==> error == if config.sub_move_count < 1 {
                ConfigError::NoSubMoves
            } else {
                ConfigError::AngleOutOfRange
            },
    {
        if config.sub_move_count < 1 {
            return Err(ConfigError::NoSubMoves);
        }
        let count: i64 = config.sub_move_count as i64;
        let step: i64 = config.prime_angle as i64 / count;
        proof {
            lemma_toward_zero(config.prime_angle as int, count as int, count as int);
            assert(config.prime_angle * 1 == config.prime_angle);
            assert(config.prime_angle * (-1) == -config.prime_angle);
            assert(config.kick_angle * 1 == config.kick_angle);
            assert(config.kick_angle * (-1) == -config.kick_angle);
            assert(count * (-step) == -(count * step)) by (nonlinear_arith);
        }
        let strike: i64 = -(count * step) - config.kick_angle as i64;
        let limit: i64 = i32::MAX as i64;
        let fits = -limit <= step && step <= limit && -limit <= strike && strike <= limit && -limit
            <= config.kick_angle as i64;
        if fits {
            Ok(KickScheduler { config })
        } else {
            Err(ConfigError::AngleOutOfRange)
        }
    }

    /// The configuration that the scheduler was built from.
    pub fn config(&self) -> (config: SorterConfig)
        ensures
            config == self@,
            config.kick_feasible(),
    {
        proof {
            use_type_invariant(self);
        }
        self.config
    }

    /// Begins the kick for an object of the given category, to strike
    /// `target_duration_ms` after this call. Returns the plan of the kick and
    /// its first action.
    ///
    /// A category that the direction map leaves on the belt needs no kick: the
    /// plan is done at once and no move is ever handed out.
    pub fn begin(&self, category: BrickColor, target_duration_ms: u64) -> (started: (
        KickPlan,
        KickAction,
    ))
        ensures
            started.0@ == KickState::initial(
                self@,
                self@.direction_map.direction_of(category).sign_of(),
                target_duration_ms as int,
            ),
            started.0@.wf(),
            started.1 == started.0@.first_action(),
            self@.direction_map.direction_of(category) == Direction::Neutral ==> started.1
                == KickAction::Done,
    {
        proof {
            use_type_invariant(self);
        }
        let direction = self.config.direction_map.direction(category);
        match direction {
            Direction::Neutral => {
                let plan = KickPlan {
                    config: self.config,
                    direction,
                    target_ms: target_duration_ms,
                    status: KickStatus::Done,
                    sub_moves: 0,
                    displacement: 0,
                    settle_timeouts: 0,
                    overrun: false,
                };
                (plan, KickAction::Done)
            },
            _ => {
                let plan = KickPlan {
                    config: self.config,
                    direction,
                    target_ms: target_duration_ms,
                    status: KickStatus::Active(KickStage::Prime),
                    sub_moves: 0,
                    displacement: 0,
                    settle_timeouts: 0,
                    overrun: false,
                };
                let first = prime_move(&self.config, direction, 0);
                (plan, KickAction::Move(first))
            },
        }
    }
}

/// One kick under way: its direction, the displacement commanded so far and
/// the stage it has reached.
#[derive(Clone, Copy, Debug)]
pub struct KickPlan {
    config: SorterConfig,
    direction: Direction,
    target_ms: u64,
    status: KickStatus,
    sub_moves: i32,
    displacement: i64,
    settle_timeouts: u64,
    overrun: bool,
}

impl View for KickPlan {
    type V = KickState;

    closed spec fn view(&self) -> KickState {
        KickState {
            config: self.config,
            sign: self.direction.sign_of(),
            target_ms: self.target_ms as int,
            status: self.status,
            sub_moves: self.sub_moves as int,
            displacement: self.displacement as int,
            settle_timeouts: self.settle_timeouts as int,
            overrun: self.overrun,
        }
    }
}

impl KickPlan {
    /// A plan is always in a state that a kick passes through.
    #[verifier::type_invariant]
    pub closed spec fn wf(self) -> bool {
        self@.wf()
    }

    /// Where the kick stands.
    pub fn status(&self) -> (status: KickStatus)
        ensures
            status == self@.status,
            self@.wf(),
    {
        proof {
            use_type_invariant(self);
        }
        self.status
    }

    /// Whether the kick is over, done or given up.
    pub fn is_finished(&self) -> (finished: bool)
        ensures
            finished <==> !(self@.status is Active),
    {
        match self.status {
            KickStatus::Active(_) => false,
            _ => true,
        }
    }

    /// The direction of the kick.
    pub fn direction(&self) -> (direction: Direction)
        ensures
            direction.sign_of() == self@.sign,
    {
        self.direction
    }

    /// The sum of the angles that the actuator has accepted. It is zero once
    /// the kick is done.
    pub fn displacement(&self) -> (displacement: i64)
        ensures
            displacement == self@.displacement,
            self@.status == KickStatus::Done ==> displacement == 0,
    {
        proof {
            use_type_invariant(self);
        }
        self.displacement
    }

    /// How many accepted moves had not settled when their wait ran out.
    pub fn settle_timeouts(&self) -> (count: u64)
        ensures
            count == self@.settle_timeouts,
    {
        self.settle_timeouts
    }

    /// Whether priming took longer than the target duration, so that the
    /// strike came late.
    pub fn overran(&self) -> (overrun: bool)
        ensures
            overrun == self@.overrun,
    {
        self.overrun
    }

    /// Takes the report on the action that was handed out last and returns
    /// the next one: the kick moves on by one step of `KickState::step`.
    pub fn advance(&mut self, event: KickEvent) -> (action: KickAction)
        ensures
            (final(self)@, action) == old(self)@.step(event),
            final(self)@.wf(),
    {
        proof {
            use_type_invariant(&*self);
            lemma_step_wf(self@, event);
        }
        let stage = match self.status {
            KickStatus::Done => {
                return KickAction::Done;
            },
            KickStatus::Aborted(error) => {
                return KickAction::Abort(error);
            },
            KickStatus::Active(stage) => stage,
        };
        let ghost before = self@;
        let config = self.config;
        let direction = self.direction;
        let sign: i64 = direction.sign() as i64;
        proof {
            lemma_moves_fit(config, sign as int, 0);
            lemma_toward_zero(
                config.prime_angle * sign,
                config.sub_move_count as int,
                self.sub_moves as int,
            );
            lemma_toward_zero(
                config.prime_angle * sign,
                config.sub_move_count as int,
                config.sub_move_count as int,
            );
        }
        match event.outcome {
            StepOutcome::Failed => {
                let error = ActuationError { stage, accepted: self.displacement };
                *self = KickPlan { status: KickStatus::Aborted(error), ..*self };
                return KickAction::Abort(error);
            },
            _ => {},
        }
        let timed_out = match event.outcome {
            StepOutcome::TimedOut => true,
            _ => false,
        };
        let count: i64 = config.sub_move_count as i64;
        let kick: i64 = config.kick_angle as i64 * sign;
        let strike_speed = config.strike_speed;
        let settle_timeout_ms = config.settle_timeout_ms;
        match stage {
            KickStage::Prime => {
                let angle: i64 = (config.prime_angle as i64 * sign) / count;
                let displacement: i64 = self.displacement + angle;
                let sub_moves: i32 = self.sub_moves + 1;
                let settle_timeouts: u64 = if timed_out {
                    self.settle_timeouts + 1
                } else {
                    self.settle_timeouts
                };
                proof {
                    let step = config.prime_step(sign as int);
                    assert((before.sub_moves + 1) * step == before.sub_moves * step + step)
                        by (nonlinear_arith);
                }
                if sub_moves < config.sub_move_count {
                    *self = KickPlan { sub_moves, displacement, settle_timeouts, ..*self };
                    KickAction::Move(prime_move(&config, direction, sub_moves))
                } else if event.elapsed_ms < self.target_ms {
                    let millis: u64 = self.target_ms - event.elapsed_ms;
                    *self = KickPlan {
                        status: KickStatus::Active(KickStage::Dwell),
                        sub_moves,
                        displacement,
                        settle_timeouts,
                        ..*self
                    };
                    KickAction::Sleep { millis }
                } else {
                    let angle: i64 = -displacement - kick;
                    *self = KickPlan {
                        status: KickStatus::Active(KickStage::Strike),
                        overrun: true,
                        sub_moves,
                        displacement,
                        settle_timeouts,
                        ..*self
                    };
                    KickAction::Move(
                        MoveCommand { angle: angle as i32, speed: strike_speed, settle_timeout_ms },
                    )
                }
            },
            KickStage::Dwell => {
                let angle: i64 = -self.displacement - kick;
                *self = KickPlan { status: KickStatus::Active(KickStage::Strike), ..*self };
                KickAction::Move(
                    MoveCommand { angle: angle as i32, speed: strike_speed, settle_timeout_ms },
                )
            },
            KickStage::Strike => {
                let angle: i64 = -self.displacement - kick;
                let settle_timeouts: u64 = if timed_out {
                    self.settle_timeouts + 1
                } else {
                    self.settle_timeouts
                };
                *self = KickPlan {
                    status: KickStatus::Active(KickStage::Hold),
                    displacement: self.displacement + angle,
                    settle_timeouts,
                    ..*self
                };
                KickAction::Sleep { millis: config.strike_hold_ms }
            },
            KickStage::Hold => {
                let angle: i64 = -self.displacement;
                *self = KickPlan { status: KickStatus::Active(KickStage::Return), ..*self };
                KickAction::Move(
                    MoveCommand { angle: angle as i32, speed: strike_speed, settle_timeout_ms },
                )
            },
            KickStage::Return => {
                let angle: i64 = -self.displacement;
                let settle_timeouts: u64 = if timed_out {
                    self.settle_timeouts + 1
                } else {
                    self.settle_timeouts
                };
                *self = KickPlan {
                    status: KickStatus::Done,
                    displacement: self.displacement + angle,
                    settle_timeouts,
                    ..*self
                };
                KickAction::Done
            },
        }
    }
}

} // verus!
