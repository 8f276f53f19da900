//! Runs of a kick: what a whole sequence of reports leads to, and what
//! holds of every such sequence.

use vstd::prelude::*;
use crate::config::SorterConfig;
use crate::kick::{
    lemma_step_wf, KickAction, KickEvent, KickStage, KickState, KickStatus, MoveCommand,
    StepOutcome,
};
use crate::trajectory::{fits_actuator, lemma_moves_fit};

verus! {

/// In every state that a kick passes through, the move under way is the one
/// that the configuration lays down for its stage, and it fits the actuator.
pub proof fn lemma_pending_angle(state: KickState)
    requires
        state.wf(),
    ensures
        fits_actuator(state.pending_angle()),
        state.status == KickStatus::Active(KickStage::Prime) ==> state.pending_angle()
            == state.config.prime_step(state.sign),
        state.status == KickStatus::Active(KickStage::Strike) ==> state.pending_angle()
            == state.config.strike_angle(state.sign),
        state.status == KickStatus::Active(KickStage::Return) ==> state.pending_angle()
            == state.config.return_angle(state.sign),
{
    if state.sign != 0 {
        lemma_moves_fit(state.config, state.sign, 0);
    }
}

/// The angle by which an action turns the actuator; zero unless it is a move.
pub open spec fn angle_of(action: KickAction) -> int {
    match action {
        KickAction::Move(command) => command.angle as int,
        _ => 0,
    }
}

/// The sum of the angles of a sequence of actions.
pub open spec fn net_angle(actions: Seq<KickAction>) -> int
    decreases actions.len(),
{
    if actions.len() == 0 {
        0
    } else {
        angle_of(actions[0]) + net_angle(actions.drop_first())
    }
}

/// The moves among a sequence of actions, in order.
pub open spec fn moves_of(actions: Seq<KickAction>) -> Seq<MoveCommand>
    decreases actions.len(),
{
    if actions.len() == 0 {
        Seq::empty()
    } else {
        let rest = moves_of(actions.drop_first());
        match actions[0] {
            KickAction::Move(command) => seq![command] + rest,
            _ => rest,
        }
    }
}

impl KickState {
    /// The moves that have been handed out: those accepted and the one under
    /// way.
    pub open spec fn issued_moves(self) -> int {
        self.accepted_moves() + match self.status {
            KickStatus::Active(stage) => if stage.is_move() {
                1int
            } else {
                0int
            },
            _ => 0int,
        }
    }

    /// The state after a sequence of reports, each answering the action that
    /// the one before it brought.
    pub open spec fn after(self, events: Seq<KickEvent>) -> KickState
        decreases events.len(),
    {
        if events.len() == 0 {
            self
        } else {
            self.step(events[0]).0.after(events.drop_first())
        }
    }

    /// The actions that a sequence of reports brings, one for each report.
    pub open spec fn actions(self, events: Seq<KickEvent>) -> Seq<KickAction>
        decreases events.len(),
    {
        if events.len() == 0 {
            Seq::empty()
        } else {
            seq![self.step(events[0]).1] + self.step(events[0]).0.actions(events.drop_first())
        }
    }

    /// An upper bound on the reports that a kick still needs to finish.
    pub open spec fn remaining(self) -> int {
        match self.status {
            KickStatus::Active(KickStage::Prime) => self.config.sub_move_count - self.sub_moves + 4,
            KickStatus::Active(KickStage::Dwell) => 4,
            KickStatus::Active(KickStage::Strike) => 3,
            KickStatus::Active(KickStage::Hold) => 2,
            KickStatus::Active(KickStage::Return) => 1,
            _ => 0,
        }
    }
}

/// A kick that has ended stays as it ended, whatever is reported to it.
pub proof fn lemma_finished_stays(state: KickState, events: Seq<KickEvent>)
    requires
        !(state.status is Active),
    ensures
        state.after(events) == state,
        state.actions(events).len() == events.len(),
        forall|i: int|
            0 <= i < events.len() ==> #[trigger] state.actions(events)[i] == state.first_action(),
        net_angle(state.actions(events)) == 0,
    decreases events.len(),
{
    if events.len() > 0 {
        let rest = events.drop_first();
        lemma_finished_stays(state, rest);
        let head = seq![state.step(events[0]).1];
        assert(state.actions(events) == head + state.actions(rest));
        assert(state.actions(events).drop_first() =~= state.actions(rest));
    }
}

/// A kick for a category that stays on the belt commands nothing: it is done
/// from the start, and every action it ever hands out is `Done`.
pub proof fn lemma_neutral_kick_commands_nothing(
    config: SorterConfig,
    target_ms: int,
    events: Seq<KickEvent>,
)
    ensures
        ({
            let start = KickState::initial(config, 0, target_ms);
            &&& start.first_action() == KickAction::Done
            &&& start.after(events) == start
            &&& forall|i: int|
                0 <= i < events.len() ==> #[trigger] start.actions(events)[i] == KickAction::Done
        }),
{
    lemma_finished_stays(KickState::initial(config, 0, target_ms), events);
}

/// As long as no command has failed, the angles handed out so far add up to
/// the displacement that the actuator has accepted plus the move under way.
pub proof fn lemma_displacement_is_commanded(state: KickState, events: Seq<KickEvent>)
    requires
        state.wf(),
        !(state.after(events).status is Aborted),
    ensures
        state.after(events).wf(),
        state.displacement + state.pending_angle() + net_angle(state.actions(events))
            == state.after(events).displacement + state.after(events).pending_angle(),
    decreases events.len(),
{
    if events.len() > 0 {
        let rest = events.drop_first();
        let next = state.step(events[0]).0;
        let action = state.step(events[0]).1;
        lemma_step_wf(state, events[0]);
        if next.status is Aborted {
            lemma_finished_stays(next, rest);
        }
        lemma_displacement_is_commanded(next, rest);
        assert(state.actions(events).drop_first() =~= next.actions(rest));
        assert(angle_of(action) == next.pending_angle()) by {
            if next.sign != 0 {
                lemma_moves_fit(next.config, next.sign, 0);
            }
        }
    }
}

/// A kick returns the kicker to where it was: once a kick is done, the angles
/// of all the moves it handed out, the first one included, add up to zero.
pub proof fn lemma_round_trip(
    config: SorterConfig,
    sign: int,
    target_ms: int,
    events: Seq<KickEvent>,
)
    requires
        config.kick_feasible(),
        sign == 1 || sign == -1,
        0 <= target_ms <= u64::MAX,
        KickState::initial(config, sign, target_ms).after(events).status == KickStatus::Done,
    ensures
        ({
            let start = KickState::initial(config, sign, target_ms);
            &&& angle_of(start.first_action()) + net_angle(start.actions(events)) == 0
            &&& start.after(events).displacement == 0
        }),
{
    let start = KickState::initial(config, sign, target_ms);
    assert(0 * config.prime_step(sign) == 0);
    assert(start.wf());
    lemma_moves_fit(config, sign, 0);
    lemma_displacement_is_commanded(start, events);
}

/// From any state on, the moves of a kick that gets done are the rest of its
/// trajectory.
proof fn lemma_rest_of_trajectory(state: KickState, events: Seq<KickEvent>)
    requires
        state.wf(),
        state.sign != 0,
        state.after(events).status == KickStatus::Done,
    ensures
        0 <= state.issued_moves() <= state.config.trajectory(state.sign).len(),
        moves_of(state.actions(events)) == state.config.trajectory(state.sign).skip(
            state.issued_moves(),
        ),
    decreases events.len(),
{
    let trajectory = state.config.trajectory(state.sign);
    if events.len() == 0 {
        assert(trajectory.skip(state.issued_moves()) =~= Seq::<MoveCommand>::empty());
    } else {
        let rest = events.drop_first();
        let next = state.step(events[0]).0;
        let action = state.step(events[0]).1;
        lemma_step_wf(state, events[0]);
        lemma_pending_angle(next);
        if !(next.status is Active) {
            lemma_finished_stays(next, rest);
        }
        lemma_rest_of_trajectory(next, rest);
        let actions = state.actions(events);
        assert(actions.drop_first() =~= next.actions(rest));
        assert(actions[0] == action);
        match action {
            KickAction::Move(command) => {
                assert(command == trajectory[state.issued_moves()]);
                assert(trajectory.skip(state.issued_moves()) =~= seq![command] + trajectory.skip(
                    next.issued_moves(),
                ));
            },
            _ => {},
        }
    }
}

/// A kick that gets done has moved the actuator along its trajectory: the
/// moves it handed out, the first one included, are the priming sub-moves of
/// the configuration at their speeds, then the strike, then the return.
pub proof fn lemma_kick_follows_trajectory(
    config: SorterConfig,
    sign: int,
    target_ms: int,
    events: Seq<KickEvent>,
)
    requires
        config.kick_feasible(),
        sign == 1 || sign == -1,
        0 <= target_ms <= u64::MAX,
        KickState::initial(config, sign, target_ms).after(events).status == KickStatus::Done,
    ensures
        ({
            let start = KickState::initial(config, sign, target_ms);
            moves_of(seq![start.first_action()] + start.actions(events)) == config.trajectory(sign)
        }),
{
    let start = KickState::initial(config, sign, target_ms);
    assert(0 * config.prime_step(sign) == 0);
    assert(start.wf());
    lemma_rest_of_trajectory(start, events);
    let all = seq![start.first_action()] + start.actions(events);
    assert(all.drop_first() =~= start.actions(events));
    assert(all[0] == start.first_action());
    let trajectory = config.trajectory(sign);
    assert(trajectory =~= seq![trajectory[0]] + trajectory.skip(1));
}

/// A kick whose commands do not fail comes to an end: it is done after at
/// most as many reports as the priming sub-moves and four more.
pub proof fn lemma_kick_completes(state: KickState, events: Seq<KickEvent>)
    requires
        state.wf(),
        !(state.status is Aborted),
        forall|i: int| 0 <= i < events.len() ==> (#[trigger] events[i]).outcome != StepOutcome::Failed,
        events.len() >= state.remaining(),
    ensures
        state.after(events).status == KickStatus::Done,
    decreases events.len(),
{
    if events.len() == 0 {
    } else {
        let rest = events.drop_first();
        let next = state.step(events[0]).0;
        lemma_step_wf(state, events[0]);
        assert(events[0].outcome != StepOutcome::Failed);
        assert forall|i: int| 0 <= i < rest.len() implies (#[trigger] rest[i]).outcome
            != StepOutcome::Failed by {
            assert(rest[i] == events[i + 1]);
        }
        lemma_kick_completes(next, rest);
    }
}

} // verus!
