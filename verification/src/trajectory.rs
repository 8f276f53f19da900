//! The trajectory of a kick: the angles and speeds of its moves, as the
//! configuration lays them down.

use vstd::prelude::*;
use crate::config::SorterConfig;
use crate::kick::MoveCommand;

verus! {

/// The quotient of `a` by a positive `n`, rounded toward zero.
pub open spec fn toward_zero(a: int, n: int) -> int {
    if a >= 0 {
        a / n
    } else {
        -((-a) / n)
    }
}

/// Whether an angle or speed can be handed to the actuator.
pub open spec fn fits_actuator(x: int) -> bool {
    i32::MIN <= x <= i32::MAX
}

/// The move command with the given numbers.
pub open spec fn move_command(angle: int, speed: int, settle_timeout_ms: u64) -> MoveCommand {
    MoveCommand { angle: angle as i32, speed: speed as i32, settle_timeout_ms }
}

impl SorterConfig {
    /// The angle of each priming sub-move of a kick of the given sign: the
    /// priming rotation split into equal parts.
    pub open spec fn prime_step(self, sign: int) -> int {
        toward_zero(self.prime_angle * sign, self.sub_move_count as int)
    }

    /// The offset at which the priming sub-moves leave the kicker.
    pub open spec fn primed_offset(self, sign: int) -> int {
        self.sub_move_count * self.prime_step(sign)
    }

    /// The speed of the priming sub-move with the given index, counted from
    /// zero: it falls linearly from `max_speed`.
    pub open spec fn sub_move_speed(self, index: int) -> int {
        self.max_speed - index * toward_zero(self.max_speed as int, self.sub_move_count as int)
    }

    /// The angle of the strike: back through the primed offset and past the
    /// rest position by the kick angle.
    pub open spec fn strike_angle(self, sign: int) -> int {
        -self.primed_offset(sign) - self.kick_angle * sign
    }

    /// The angle of the return: from where the strike ends back to rest.
    pub open spec fn return_angle(self, sign: int) -> int {
        -(self.primed_offset(sign) + self.strike_angle(sign))
    }

    /// The moves of a kick of the given sign, in order: the priming
    /// sub-moves at falling speeds, the strike and the return.
    pub open spec fn trajectory(self, sign: int) -> Seq<MoveCommand> {
        Seq::new(
            self.sub_move_count as nat,
            |i: int|
                move_command(self.prime_step(sign), self.sub_move_speed(i), self.settle_timeout_ms),
        ).push(
            move_command(
                self.strike_angle(sign),
                self.strike_speed as int,
                self.settle_timeout_ms,
            ),
        ).push(
            move_command(
                self.return_angle(sign),
                self.strike_speed as int,
                self.settle_timeout_ms,
            ),
        )
    }

    /// Whether every move of a kick of the given sign fits the actuator.
    pub open spec fn commands_fit(self, sign: int) -> bool {
        &&& fits_actuator(self.prime_step(sign))
        &&& fits_actuator(self.strike_angle(sign))
        &&& fits_actuator(self.return_angle(sign))
    }

    /// Whether the configuration can drive the kicker: there is at least one
    /// priming sub-move, and the moves of a kick fit the actuator in both
    /// directions.
    pub open spec fn kick_feasible(self) -> bool {
        &&& self.sub_move_count >= 1
        &&& self.commands_fit(1)
        &&& self.commands_fit(-1)
    }
}

/// A quotient rounded toward zero has the sign of the dividend, and its
/// multiples up to the divisor stay between zero and the dividend.
pub proof fn lemma_toward_zero(a: int, n: int, i: int)
    requires
        n >= 1,
        0 <= i <= n,
    ensures
        toward_zero(-a, n) == -toward_zero(a, n),
        a >= 0 ==> 0 <= i * toward_zero(a, n) <= a,
        a <= 0 ==> a <= i * toward_zero(a, n) <= 0,
        a >= 0 ==> 0 <= toward_zero(a, n) <= a,
        a <= 0 ==> a <= toward_zero(a, n) <= 0,
{
    if a >= 0 {
        assert(0 <= i * (a / n) <= a && 0 <= a / n <= a) by (nonlinear_arith)
            requires
                a >= 0,
                n >= 1,
                0 <= i <= n,
        ;
    } else {
        let b = -a;
        assert(0 <= i * (b / n) <= b && 0 <= b / n <= b) by (nonlinear_arith)
            requires
                b >= 0,
                n >= 1,
                0 <= i <= n,
        ;
        assert(i * (-(b / n)) == -(i * (b / n))) by (nonlinear_arith);
    }
}

/// Every move of a kick fits the actuator: the angles because the
/// configuration is feasible, the speeds because they lie between zero and
/// `max_speed`.
pub proof fn lemma_moves_fit(config: SorterConfig, sign: int, index: int)
    requires
        config.kick_feasible(),
        sign == 1 || sign == -1,
        0 <= index < config.sub_move_count,
    ensures
        fits_actuator(config.prime_step(sign)),
        fits_actuator(config.strike_angle(sign)),
        fits_actuator(config.return_angle(sign)),
        fits_actuator(config.sub_move_speed(index)),
        config.max_speed >= 0 ==> 0 <= config.sub_move_speed(index) <= config.max_speed,
        config.max_speed <= 0 ==> config.max_speed <= config.sub_move_speed(index) <= 0,
{
    lemma_toward_zero(config.max_speed as int, config.sub_move_count as int, index);
}

} // verus!
