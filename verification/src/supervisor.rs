//! The safety supervisor: the debounced decision on the interlock and the
//! arbitration of the balancing mode.

use crate::can_management::{error_frame, CanFrame};
use crate::ltc_management::ltc6811::{
    balanced_config, needs_discharge, rebuilt_config, write_config_frame, LTC6811, MODE,
};
use crate::types::bms::{RollingState, NUM_CELLS, SLAVEBMS};
use crate::types::{CanMsg, TEMPERATURES, VOLTAGES};
use vstd::prelude::*;

verus! {

/// Time that the limits must stay violated before a fault is latched, in
/// milliseconds.
pub const DEBOUNCE_MS: u64 = 450;

/// The operating limits of the pack and the debounce interval.
#[derive(Debug, Copy, Clone, PartialEq, Eq, Structural)]
pub struct Limits {
    /// Lowest admitted pack minimum voltage, in units of 0.1 mV.
    pub min_volt: u16,
    /// Highest admitted pack maximum voltage, in units of 0.1 mV.
    pub max_volt: u16,
    /// Lowest admitted pack minimum temperature.
    pub min_temp: u16,
    /// Highest admitted pack maximum temperature.
    pub max_temp: u16,
    /// Time that a violation must last before it is a fault, in
    /// milliseconds.
    pub debounce_ms: u64,
}

impl Limits {
    /// The limits that the board is configured with.
    pub open spec fn configured() -> Limits {
        Limits {
            min_volt: VOLTAGES::MINVOLTAGE.raw(),
            max_volt: VOLTAGES::MAXVOLTAGE.raw(),
            min_temp: TEMPERATURES::MINTEMP.raw(),
            max_temp: TEMPERATURES::MAXTEMP.raw(),
            debounce_ms: DEBOUNCE_MS,
        }
    }

    /// Whether the pack aggregates lie inside the limits.
    pub open spec fn admits(self, pack: RollingState) -> bool {
        &&& self.min_volt <= pack.min_volt
        &&& pack.max_volt <= self.max_volt
        &&& self.min_temp <= pack.min_temp
        &&& pack.max_temp <= self.max_temp
    }

    /// The limits that the board is configured with.
    pub fn new() -> (limits: Limits)
        ensures
            limits == Limits::configured(),
    {
        Limits {
            min_volt: VOLTAGES::MINVOLTAGE.as_raw(),
            max_volt: VOLTAGES::MAXVOLTAGE.as_raw(),
            min_temp: TEMPERATURES::MINTEMP._as_raw(),
            max_temp: TEMPERATURES::MAXTEMP._as_raw(),
            debounce_ms: DEBOUNCE_MS,
        }
    }

    /// Whether the pack aggregates lie inside the limits.
    pub fn within(&self, bms: &SLAVEBMS) -> (inside: bool)
        ensures
            inside == self.admits(bms@),
    {
        self.min_volt <= bms.min_volt() && bms.max_volt() <= self.max_volt && self.min_temp
            <= bms.min_temp() && bms.max_temp() <= self.max_temp
    }
}

/// Where the supervisor stands.
#[derive(Debug, Copy, Clone, PartialEq, Eq, Structural)]
pub enum SafetyState {
    /// The last cycle was inside the limits.
    IdleSafe,
    /// The limits are violated, but not yet for longer than the debounce
    /// interval: the interlock still reads safe.
    DebouncedSafe,
    /// The limits were violated for longer than the debounce interval and
    /// no cycle has been inside them since: the interlock reads fault.
    Fault,
}

/// One supervisory tick as the supervisor sees it.
pub struct Cycle {
    /// Whether the pack aggregates of the cycle lie inside the limits.
    pub in_limits: bool,
    /// The time of the tick, in milliseconds.
    pub now_ms: u64,
}

/// The safety supervisor.
#[derive(Debug, Copy, Clone, PartialEq, Eq, Structural)]
pub struct Supervisor {
    pub limits: Limits,
    pub state: SafetyState,
    /// Time of the last cycle inside the limits, or of the start.
    pub last_good_ms: u64,
}

/// What a tick decides.
#[derive(Debug, Copy, Clone)]
pub struct Verdict {
    /// The state after the tick.
    pub state: SafetyState,
    /// The level to drive the interlock with: `true` requests shutdown.
    pub interlock_fault: bool,
    /// The fault frame to send, where the tick latched a fault.
    pub fault_frame: Option<CanFrame>,
}

impl Supervisor {
    /// Time since the last cycle inside the limits; zero where the clock
    /// reads earlier than that cycle.
    pub open spec fn elapsed(self, now_ms: u64) -> int {
        if now_ms >= self.last_good_ms {
            now_ms - self.last_good_ms
        } else {
            0
        }
    }

    /// The supervisor after a tick. A cycle inside the limits leads to
    /// `IdleSafe` at once and restarts the debounce interval. A violation
    /// leads to `Fault` once it has lasted longer than the debounce interval,
    /// and stays there until a cycle is inside the limits again.
    pub open spec fn step(self, in_limits: bool, now_ms: u64) -> Supervisor {
        if in_limits {
            Supervisor { state: SafetyState::IdleSafe, last_good_ms: now_ms, ..self }
        } else if self.state == SafetyState::Fault || self.elapsed(now_ms)
            > self.limits.debounce_ms {
            Supervisor { state: SafetyState::Fault, ..self }
        } else {
            Supervisor { state: SafetyState::DebouncedSafe, ..self }
        }
    }

    /// Whether a tick latches a fault, and so sends the fault frame: it
    /// leads into `Fault` from another state.
    pub open spec fn latches(self, in_limits: bool, now_ms: u64) -> bool {
        self.state != SafetyState::Fault && self.step(in_limits, now_ms).state
            == SafetyState::Fault
    }

    /// The supervisor after the ticks of `cycles`, in their order.
    pub open spec fn run(self, cycles: Seq<Cycle>) -> Supervisor
        decreases cycles.len(),
    {
        if cycles.len() == 0 {
            self
        } else {
            self.run(cycles.drop_last()).step(cycles.last().in_limits, cycles.last().now_ms)
        }
    }

    /// The number of fault frames sent over the ticks of `cycles`.
    pub open spec fn fault_frames(self, cycles: Seq<Cycle>) -> nat
        decreases cycles.len(),
    {
        if cycles.len() == 0 {
            0
        } else {
            let sent: nat = self.fault_frames(cycles.drop_last());
            if self.run(cycles.drop_last()).latches(cycles.last().in_limits, cycles.last().now_ms) {
                sent + 1
            } else {
                sent
            }
        }
    }

    /// Whether tick `k` of `cycles` latches a fault.
    pub open spec fn latches_at(self, cycles: Seq<Cycle>, k: int) -> bool {
        self.run(cycles.take(k)).latches(cycles[k].in_limits, cycles[k].now_ms)
    }

    /// Over a run of violations that starts outside `Fault`, the time of the
    /// last good cycle stays, and one fault frame is sent if the run ends in
    /// `Fault`, none otherwise.
    pub proof fn lemma_violations(self, cycles: Seq<Cycle>)
        requires
            self.state != SafetyState::Fault,
            forall|k: int| 0 <= k < cycles.len() ==> !cycles[k].in_limits,
        ensures
            self.run(cycles).last_good_ms == self.last_good_ms,
            self.run(cycles).limits == self.limits,
            self.fault_frames(cycles) == if self.run(cycles).state == SafetyState::Fault {
                1nat
            } else {
                0nat
            },
        decreases cycles.len(),
    {
        if cycles.len() > 0 {
            let earlier = cycles.drop_last();
            assert forall|k: int| 0 <= k < earlier.len() implies !earlier[k].in_limits by {
                assert(earlier[k] == cycles[k]);
            }
            self.lemma_violations(earlier);
        }
    }

    /// Where the limits stay violated for longer than the debounce interval,
    /// starting outside `Fault`, the supervisor ends in `Fault` and has sent
    /// the fault frame exactly once, however many ticks the violation spans.
    pub proof fn lemma_violation_episode(self, cycles: Seq<Cycle>)
        requires
            self.state != SafetyState::Fault,
            cycles.len() > 0,
            forall|k: int| 0 <= k < cycles.len() ==> !cycles[k].in_limits,
            self.elapsed(cycles.last().now_ms) > self.limits.debounce_ms,
        ensures
            self.run(cycles).state == SafetyState::Fault,
            self.fault_frames(cycles) == 1,
    {
        let earlier = cycles.drop_last();
        assert forall|k: int| 0 <= k < earlier.len() implies !earlier[k].in_limits by {
            assert(earlier[k] == cycles[k]);
        }
        self.lemma_violations(earlier);
        self.lemma_violations(cycles);
    }

    /// A single cycle inside the limits clears a fault at once: whatever the
    /// state and the time, the tick leads to `IdleSafe` and sends nothing.
    pub proof fn lemma_recovery(self, now_ms: u64)
        ensures
            self.step(true, now_ms).state == SafetyState::IdleSafe,
            !self.latches(true, now_ms),
            self.step(true, now_ms).elapsed(now_ms) == 0,
    {
    }

    /// No tick changes the limits.
    pub proof fn lemma_limits_stay(self, cycles: Seq<Cycle>)
        ensures
            self.run(cycles).limits == self.limits,
        decreases cycles.len(),
    {
        if cycles.len() > 0 {
            self.lemma_limits_stay(cycles.drop_last());
        }
    }

    /// While the clock does not run backwards, a tick after one that latched
    /// a fault finds the supervisor still in `Fault`, or finds a good cycle
    /// no older than that latch.
    proof fn lemma_after_latch(self, cycles: Seq<Cycle>, i: int, j: int)
        requires
            0 <= i < j <= cycles.len(),
            forall|a: int, b: int|
                0 <= a <= b < cycles.len() ==> cycles[a].now_ms <= cycles[b].now_ms,
            self.latches_at(cycles, i),
        ensures
            self.run(cycles.take(j)).state == SafetyState::Fault || self.run(
                cycles.take(j),
            ).last_good_ms >= cycles[i].now_ms,
        decreases j,
    {
        assert(cycles.take(j).drop_last() == cycles.take(j - 1));
        assert(cycles.take(j).last() == cycles[j - 1]);
        if j > i + 1 {
            self.lemma_after_latch(cycles, i, j - 1);
        }
    }

    /// While the clock does not run backwards, two fault frames are more than
    /// the debounce interval apart: at most one is sent per debounce window.
    pub proof fn lemma_fault_frames_spaced(self, cycles: Seq<Cycle>, i: int, j: int)
        requires
            0 <= i < j < cycles.len(),
            forall|a: int, b: int|
                0 <= a <= b < cycles.len() ==> cycles[a].now_ms <= cycles[b].now_ms,
            self.latches_at(cycles, i),
            self.latches_at(cycles, j),
        ensures
            cycles[j].now_ms - cycles[i].now_ms > self.limits.debounce_ms,
    {
        self.lemma_after_latch(cycles, i, j);
        self.lemma_limits_stay(cycles.take(j));
    }

    /// A supervisor that starts safe at `now_ms`: with no cycle inside the
    /// limits within the debounce interval it goes to fault.
    pub fn new(limits: Limits, now_ms: u64) -> (supervisor: Supervisor)
        ensures
            supervisor == (Supervisor { limits, state: SafetyState::IdleSafe, last_good_ms: now_ms }),
    {
        Supervisor { limits, state: SafetyState::IdleSafe, last_good_ms: now_ms }
    }

    /// One supervisory tick on the cycle just closed, at time `now_ms`.
    pub fn tick(&mut self, bms: &SLAVEBMS, now_ms: u64) -> (verdict: Verdict)
        ensures
            *final(self) == old(self).step(old(self).limits.admits(bms@), now_ms),
            verdict.state == final(self).state,
            verdict.interlock_fault == (final(self).state == SafetyState::Fault),
            verdict.fault_frame is Some == old(self).latches(old(self).limits.admits(bms@), now_ms),
            verdict.fault_frame matches Some(frame) ==> {
                &&& frame@.id == CanMsg::ErrorId.raw()
                &&& frame@.payload == seq![1u8]
            },
            old(self).limits.admits(bms@) ==> {
                &&& verdict.state == SafetyState::IdleSafe
                &&& !verdict.interlock_fault
                &&& verdict.fault_frame is None
            },
    {
        let was_fault: bool = self.state == SafetyState::Fault;
        if self.limits.within(bms) {
            self.state = SafetyState::IdleSafe;
            self.last_good_ms = now_ms;
        } else {
            let elapsed: u64 = if now_ms >= self.last_good_ms {
                now_ms - self.last_good_ms
            } else {
                0
            };
            if was_fault || elapsed > self.limits.debounce_ms {
                self.state = SafetyState::Fault;
            } else {
                self.state = SafetyState::DebouncedSafe;
            }
        }
        let is_fault: bool = self.state == SafetyState::Fault;
        let fault_frame: Option<CanFrame> = if is_fault && !was_fault {
            Some(error_frame())
        } else {
            None
        };
        Verdict { state: self.state, interlock_fault: is_fault, fault_frame }
    }
}

/// Sampling cycles that a tick adds while balancing is requested.
pub const BALANCING_CYCLES: usize = 5;

/// The number of sampling cycles that a tick runs: one, and five more while
/// balancing is requested.
pub fn cycles_per_tick(balance_requested: bool) -> (cycles: usize)
    ensures
        cycles == if balance_requested {
            1 + BALANCING_CYCLES
        } else {
            1
        },
{
    if balance_requested {
        1 + BALANCING_CYCLES
    } else {
        1
    }
}

/// What one round of balancing arbitration leaves to be done.
#[derive(Debug, Copy, Clone)]
pub struct Arbitration {
    /// Whether the balancing request stands: it is cleared once no cell
    /// needs discharging, so that the next round reverts to normal mode.
    pub keep_request: bool,
    /// The configuration write that a change of mode calls for.
    pub mode_frame: Option<[u8; 12]>,
    /// The configuration write that carries the discharge bits, while
    /// balancing.
    pub balance_frame: Option<[u8; 12]>,
}

/// The mode that a balancing request asks for.
pub open spec fn requested_mode(requested: bool) -> MODE {
    if requested {
        MODE::BALANCING
    } else {
        MODE::NORMAL
    }
}

/// The configuration after the driver has followed the request: rebuilt
/// where the mode changes, as it was where it does not.
pub open spec fn arbitrated_config(config: Seq<u8>, mode: MODE, requested: bool, pack: RollingState) -> Seq<u8> {
    if mode == requested_mode(requested) {
        config
    } else {
        rebuilt_config(requested_mode(requested), pack)
    }
}

/// One round of balancing arbitration. The driver's mode follows the
/// request, and a change of mode rebuilds and rewrites the configuration.
/// While balancing, the discharge bits are set anew from the pack state, and
/// the request is kept only while some cell still needs discharging.
pub fn arbitrate_balancing(ltc: &mut LTC6811, bms: &SLAVEBMS, requested: bool) -> (round: Arbitration)
    ensures
        final(ltc)@.mode == requested_mode(requested),
        round.mode_frame is Some == (old(ltc)@.mode != requested_mode(requested)),
        round.mode_frame matches Some(frame) ==> frame@ == write_config_frame(
            rebuilt_config(requested_mode(requested), bms@),
        ),
        round.balance_frame is Some == requested,
        round.balance_frame matches Some(frame) ==> frame@ == write_config_frame(final(ltc)@.config),
        final(ltc)@.config == (if requested {
            balanced_config(
                arbitrated_config(old(ltc)@.config, old(ltc)@.mode, requested, bms@),
                bms@,
            )
        } else {
            arbitrated_config(old(ltc)@.config, old(ltc)@.mode, requested, bms@)
        }),
        round.keep_request == (requested && exists|i: int|
            0 <= i < NUM_CELLS && needs_discharge(#[trigger] bms@.cell(i), bms@.min_volt)),
{
    let mode: MODE = if requested {
        MODE::BALANCING
    } else {
        MODE::NORMAL
    };
    let mode_frame: Option<[u8; 12]> = ltc.set_mode(mode, bms);
    if requested {
        let balance_frame: [u8; 12] = ltc.balance_cells(bms);
        let keep_request: bool = ltc.check_need_balance(bms);
        Arbitration { keep_request, mode_frame, balance_frame: Some(balance_frame) }
    } else {
        Arbitration { keep_request: false, mode_frame, balance_frame: None }
    }
}

} // verus!
