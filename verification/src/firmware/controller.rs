//! The control step: which loop runs, which relay is on, and what colour the
//! LED shows.
//!
//! Two PID loops, one that cools and one that heats, share a dead band around
//! the target. Each commands a share of a window of ten steps. The loops
//! themselves compute with floating point and stay with the caller: a plan
//! says which of them run, and their outputs come back as arguments.

use vstd::prelude::*;
use super::config::{
    SSR_WINDOW_STEPS, WS2812_T0H_TICKS, WS2812_T0L_TICKS, WS2812_T1H_TICKS, WS2812_T1L_TICKS,
};
use super::error::SensorError;
use super::profile::within_band;
use super::sensor::{bits, byte_bits};
use super::status::{
    centi_of_raw, status_of_error, update_error, update_success, RuntimeSample, RuntimeState,
    UNKNOWN_TEMPERATURE_CENTI,
};

verus! {

/// An LED colour.
#[derive(Clone, Copy, Debug, PartialEq, Eq, Structural)]
pub struct Rgb8 {
    pub red: u8,
    pub green: u8,
    pub blue: u8,
}

/// The colour of a running loop: green, or amber while a relay is on.
pub open spec fn loop_color(relay_on: bool) -> Rgb8 {
    if relay_on {
        Rgb8 { red: 10, green: 4, blue: 0 }
    } else {
        Rgb8 { red: 0, green: 4, blue: 0 }
    }
}

/// The colour of a running loop.
pub fn status_color(relay_on: bool) -> (r: Rgb8)
    ensures
        r == loop_color(relay_on),
{
    if relay_on {
        return Rgb8 { red: 10, green: 4, blue: 0 };
    }
    Rgb8 { red: 0, green: 4, blue: 0 }
}

/// The colour of a failed reading: amber, whatever failed.
pub fn sensor_fault_color(_error: SensorError) -> (r: Rgb8)
    ensures
        r == (Rgb8 { red: 10, green: 4, blue: 0 }),
{
    Rgb8 { red: 10, green: 4, blue: 0 }
}

/// The steps of the window that a relay is on, from the commanded share in
/// steps, rounded to the nearest whole step.
pub fn compute_on_steps(rounded_steps: i64) -> (r: u32)
    ensures
        rounded_steps <= 0 ==> r == 0,
        rounded_steps >= SSR_WINDOW_STEPS ==> r == SSR_WINDOW_STEPS,
        0 < rounded_steps < SSR_WINDOW_STEPS ==> r == rounded_steps,
{
    if rounded_steps <= 0 {
        0
    } else if rounded_steps >= SSR_WINDOW_STEPS as i64 {
        SSR_WINDOW_STEPS
    } else {
        rounded_steps as u32
    }
}

// ── Plan ─────────────────────────────────────────────────────────────────────

/// What the control step remembers.
#[derive(Clone, Copy, Debug, PartialEq, Eq, Structural)]
pub struct ControlState {
    pub window_step: u32,
    pub heat_window_step: u32,
    pub last_target_centi: i32,
}

impl ControlState {
    /// Both positions lie within the window.
    pub open spec fn wf(self) -> bool {
        self.window_step < SSR_WINDOW_STEPS && self.heat_window_step < SSR_WINDOW_STEPS
    }

    /// The state at boot.
    pub fn new(target_centi: i32) -> (s: Self)
        ensures
            s == (ControlState {
                window_step: 0,
                heat_window_step: 0,
                last_target_centi: target_centi,
            }),
            s.wf(),
    {
        ControlState { window_step: 0, heat_window_step: 0, last_target_centi: target_centi }
    }
}

/// What to do with the two loops before their outputs are asked for.
#[derive(Clone, Copy, Debug, PartialEq, Eq, Structural)]
pub struct ControlPlan {
    /// Both relays are switched off first.
    pub relays_low: bool,
    /// The integral term of the cooling loop is cleared.
    pub reset_cool: bool,
    /// The cooling loop runs.
    pub run_cool: bool,
    /// The integral term of the heating loop is cleared.
    pub reset_heat: bool,
    /// The heating loop runs.
    pub run_heat: bool,
}

/// How far a temperature is above a target, in 1/1600 of a degree.
pub open spec fn control_error(temp_raw: int, target_centi: int) -> int {
    100 * temp_raw - 16 * target_centi
}

/// Half of a dead band, in 1/1600 of a degree.
pub open spec fn half_band(deadband_centi: int) -> int {
    8 * deadband_centi
}

/// Whether a target differs from the last one by more than 0.05 degrees.
pub open spec fn target_changed(target_centi: int, last_target_centi: int) -> bool {
    target_centi - last_target_centi > 5 || last_target_centi - target_centi > 5
}

/// The plan for a measured temperature: the loop runs on whose side of the
/// dead band it lies, and a loop that does not run loses its integral term.
/// So do both where the target has changed or nothing is collected.
pub open spec fn plan_of(
    collecting: bool,
    temp_raw: i16,
    target_centi: i32,
    last_target_centi: i32,
    deadband_centi: u32,
) -> ControlPlan {
    let error = control_error(temp_raw as int, target_centi as int);
    let changed = target_changed(target_centi as int, last_target_centi as int);
    let cool = collecting && error > half_band(deadband_centi as int);
    let heat = collecting && error < -half_band(deadband_centi as int);
    ControlPlan {
        relays_low: !collecting || changed,
        reset_cool: changed || !cool,
        run_cool: cool,
        reset_heat: changed || !heat,
        run_heat: heat,
    }
}

/// Plans a control step. Where nothing is collected, or where the target has
/// changed, both windows start anew.
pub fn plan_control(
    state: &mut ControlState,
    collecting: bool,
    temp_raw: i16,
    target_centi: i32,
    deadband_centi: u32,
) -> (r: ControlPlan)
    requires
        old(state).wf(),
    ensures
        r == plan_of(
            collecting,
            temp_raw,
            target_centi,
            old(state).last_target_centi,
            deadband_centi,
        ),
        *final(state) == (if !collecting {
            ControlState { window_step: 0, heat_window_step: 0, ..*old(state) }
        } else if target_changed(target_centi as int, old(state).last_target_centi as int) {
            ControlState { window_step: 0, heat_window_step: 0, last_target_centi: target_centi }
        } else {
            *old(state)
        }),
        final(state).wf(),
        r.run_cool <==> collecting && 25 * temp_raw - 4 * target_centi > 2 * deadband_centi,
        r.run_heat <==> collecting && 4 * target_centi - 25 * temp_raw > 2 * deadband_centi,
{
    let error: i64 = 100 * temp_raw as i64 - 16 * target_centi as i64;
    let half: i64 = 8 * deadband_centi as i64;
    let step: i64 = target_centi as i64 - state.last_target_centi as i64;
    let changed: bool = step > 5 || step < -5;
    let run_cool: bool = collecting && error > half;
    let run_heat: bool = collecting && error < -half;
    if !collecting || changed {
        state.window_step = 0;
        state.heat_window_step = 0;
    }
    if collecting && changed {
        state.last_target_centi = target_centi;
    }
    ControlPlan {
        relays_low: !collecting || changed,
        reset_cool: changed || !run_cool,
        run_cool,
        reset_heat: changed || !run_heat,
        run_heat,
    }
}

/// At most one loop runs, and none within the dead band.
pub proof fn one_loop_at_most(
    collecting: bool,
    temp_raw: i16,
    target_centi: i32,
    last_target_centi: i32,
    deadband_centi: u32,
)
    ensures
        ({
            let plan = plan_of(collecting, temp_raw, target_centi, last_target_centi, deadband_centi);
            &&& !(plan.run_cool && plan.run_heat)
            &&& within_band(temp_raw as int, target_centi as int, deadband_centi as int)
                ==> !plan.run_cool && !plan.run_heat && plan.reset_cool && plan.reset_heat
        }),
{
}

/// A loop runs exactly where the temperature is off the target by more than
/// half of the dead band: the cooling loop above it and the heating loop below
/// it. Temperatures are compared in 1/400 of a degree.
pub proof fn loops_run_outside_of_the_band(
    temp_raw: i16,
    target_centi: i32,
    last_target_centi: i32,
    deadband_centi: u32,
)
    ensures
        ({
            let plan = plan_of(true, temp_raw, target_centi, last_target_centi, deadband_centi);
            let above = 25 * temp_raw - 4 * target_centi;
            let half = 2 * deadband_centi;
            &&& plan.run_cool <==> above > half
            &&& plan.run_heat <==> -above > half
            &&& plan.run_cool ==> plan.reset_heat
            &&& plan.run_heat ==> plan.reset_cool
            &&& !plan.run_cool && !plan.run_heat ==> plan.reset_cool && plan.reset_heat
        }),
        ({
            let plan = plan_of(false, temp_raw, target_centi, last_target_centi, deadband_centi);
            plan.relays_low && !plan.run_cool && !plan.run_heat && plan.reset_cool
                && plan.reset_heat
        }),
{
}

/// What is too warm at one temperature is too warm at every higher one, and
/// what is too cold is too cold at every lower one. A wider band makes neither
/// so.
pub proof fn warmer_means_cooling(
    colder: i16,
    warmer: i16,
    target_centi: i32,
    last_target_centi: i32,
    narrow: u32,
    wide: u32,
)
    requires
        colder <= warmer,
        narrow <= wide,
    ensures
        plan_of(true, colder, target_centi, last_target_centi, wide).run_cool ==> plan_of(
            true,
            warmer,
            target_centi,
            last_target_centi,
            narrow,
        ).run_cool,
        plan_of(true, warmer, target_centi, last_target_centi, wide).run_heat ==> plan_of(
            true,
            colder,
            target_centi,
            last_target_centi,
            narrow,
        ).run_heat,
{
}

/// Both loops lose their integral terms, and the relays go off, exactly where
/// the target has moved by more than 5 hundredths of a degree, up or down.
pub proof fn a_moved_target_resets_the_loops(
    temp_raw: i16,
    target_centi: i32,
    last_target_centi: i32,
    deadband_centi: u32,
)
    ensures
        ({
            let plan = plan_of(true, temp_raw, target_centi, last_target_centi, deadband_centi);
            let moved = target_centi >= last_target_centi + 6 || last_target_centi >= target_centi
                + 6;
            &&& plan.relays_low <==> moved
            &&& moved ==> plan.reset_cool && plan.reset_heat
            &&& !moved && plan.run_cool ==> !plan.reset_cool
            &&& !moved && plan.run_heat ==> !plan.reset_heat
        }),
{
}

// ── Outputs ──────────────────────────────────────────────────────────────────

/// What a loop commands.
#[derive(Clone, Copy, Debug, PartialEq, Eq, Structural)]
pub struct LoopOutput {
    pub on_steps: u32,
    /// Duty cycle in tenths of a percent, rounded down.
    pub output_deci: u16,
    pub p_pct: i8,
    pub i_pct: i8,
    pub d_pct: i8,
}

/// A loop that commands nothing.
pub open spec fn silent() -> LoopOutput {
    LoopOutput { on_steps: 0, output_deci: 0, p_pct: 0, i_pct: 0, d_pct: 0 }
}

/// What a loop commands, and nothing where it does not run.
pub open spec fn commanded(runs: bool, output: LoopOutput) -> LoopOutput {
    if runs {
        output
    } else {
        silent()
    }
}

/// What a control step makes of the relays and the LED.
#[derive(Clone, Copy, Debug, PartialEq, Eq, Structural)]
pub struct ControlOutputs {
    pub cooling_on: bool,
    pub heat_on: bool,
    pub color: Rgb8,
}

/// The state after a control step: the windows move on by one step while
/// something is collected.
pub open spec fn moved_on(state: ControlState, collecting: bool) -> ControlState {
    if collecting {
        ControlState {
            window_step: ((state.window_step + 1) % SSR_WINDOW_STEPS as int) as u32,
            heat_window_step: ((state.heat_window_step + 1) % SSR_WINDOW_STEPS as int) as u32,
            ..state
        }
    } else {
        state
    }
}

/// The relays: each is on in the first steps of its window, and heating gives
/// way to cooling.
pub open spec fn outputs_of(state: ControlState, cool: LoopOutput, heat: LoopOutput) -> ControlOutputs {
    let cooling_on = state.window_step < cool.on_steps;
    let heat_on = !cooling_on && state.heat_window_step < heat.on_steps;
    ControlOutputs { cooling_on, heat_on, color: loop_color(cooling_on || heat_on) }
}

/// What a control step publishes: the duty cycle and the terms of the loop
/// that commands a share of its window, the cooling loop first.
pub open spec fn sample_of(
    state: ControlState,
    temp_raw: i16,
    cool: LoopOutput,
    heat: LoopOutput,
) -> RuntimeSample {
    let outputs = outputs_of(state, cool, heat);
    let active = if cool.on_steps > 0 {
        cool
    } else if heat.on_steps > 0 {
        heat
    } else {
        silent()
    };
    let window_step = if cool.on_steps > 0 {
        state.window_step
    } else if heat.on_steps > 0 {
        state.heat_window_step
    } else {
        0
    };
    RuntimeSample {
        temp_raw,
        pid_deci: active.output_deci,
        heating_on: outputs.cooling_on,
        heat_on: outputs.heat_on,
        led_red: outputs.color.red,
        led_green: outputs.color.green,
        led_blue: outputs.color.blue,
        pid_window_step: window_step as u8,
        pid_on_steps: active.on_steps as u8,
        pid_p_pct: active.p_pct,
        pid_i_pct: active.i_pct,
        pid_d_pct: active.d_pct,
    }
}

/// The runtime state after a control step published its sample.
pub open spec fn published(before: RuntimeState, s: RuntimeSample) -> RuntimeState {
    RuntimeState {
        temp_centi: centi_of_raw(s.temp_raw as int) as i32,
        pid_deci: s.pid_deci,
        relay_on: s.heating_on,
        heat_on: s.heat_on,
        sensor_status: 0,
        led_red: s.led_red,
        led_green: s.led_green,
        led_blue: s.led_blue,
        pid_window_step: s.pid_window_step,
        pid_on_steps: s.pid_on_steps,
        pid_p_pct: s.pid_p_pct,
        pid_i_pct: s.pid_i_pct,
        pid_d_pct: s.pid_d_pct,
        ..before
    }
}

fn commanded_output(runs: bool, output: LoopOutput) -> (r: LoopOutput)
    ensures
        r == commanded(runs, output),
{
    if runs {
        output
    } else {
        LoopOutput { on_steps: 0, output_deci: 0, p_pct: 0, i_pct: 0, d_pct: 0 }
    }
}

/// Carries out a planned control step with what the loops command. The windows
/// move on by one step while something is collected.
pub fn control_step(
    state: &mut ControlState,
    runtime: &mut RuntimeState,
    collecting: bool,
    plan: ControlPlan,
    temp_raw: i16,
    cool: LoopOutput,
    heat: LoopOutput,
) -> (r: ControlOutputs)
    requires
        old(state).wf(),
        cool.on_steps <= SSR_WINDOW_STEPS,
        heat.on_steps <= SSR_WINDOW_STEPS,
    ensures
        ({
            let c = commanded(collecting && plan.run_cool, cool);
            let h = commanded(collecting && plan.run_heat, heat);
            &&& r == outputs_of(*old(state), c, h)
            &&& *final(runtime) == published(
                *old(runtime),
                sample_of(*old(state), temp_raw, c, h),
            )
        }),
        *final(state) == (if collecting {
            ControlState {
                window_step: ((old(state).window_step + 1) % SSR_WINDOW_STEPS as int) as u32,
                heat_window_step: ((old(state).heat_window_step + 1) % SSR_WINDOW_STEPS as int) as u32,
                ..*old(state)
            }
        } else {
            *old(state)
        }),
        *final(state) == moved_on(*old(state), collecting),
        final(state).wf(),
        r.cooling_on ==> collecting && plan.run_cool && cool.on_steps > 0,
        r.heat_on ==> collecting && plan.run_heat && heat.on_steps > 0 && !r.cooling_on,
        final(runtime).relay_on == r.cooling_on,
        final(runtime).heat_on == r.heat_on,
        collecting && plan.run_cool ==> r.cooling_on == (old(state).window_step < cool.on_steps),
        collecting && plan.run_heat && !plan.run_cool ==> r.heat_on == (
        old(state).heat_window_step < heat.on_steps),
{
    let c: LoopOutput = commanded_output(collecting && plan.run_cool, cool);
    let h: LoopOutput = commanded_output(collecting && plan.run_heat, heat);
    let cooling_on: bool = state.window_step < c.on_steps;
    let heat_on: bool = !cooling_on && state.heat_window_step < h.on_steps;
    let color: Rgb8 = status_color(cooling_on || heat_on);
    let (active, window_step): (LoopOutput, u32) = if c.on_steps > 0 {
        (c, state.window_step)
    } else if h.on_steps > 0 {
        (h, state.heat_window_step)
    } else {
        (LoopOutput { on_steps: 0, output_deci: 0, p_pct: 0, i_pct: 0, d_pct: 0 }, 0)
    };
    update_success(
        runtime,
        RuntimeSample {
            temp_raw,
            pid_deci: active.output_deci,
            heating_on: cooling_on,
            heat_on,
            led_red: color.red,
            led_green: color.green,
            led_blue: color.blue,
            pid_window_step: window_step as u8,
            pid_on_steps: active.on_steps as u8,
            pid_p_pct: active.p_pct,
            pid_i_pct: active.i_pct,
            pid_d_pct: active.d_pct,
        },
    );
    if collecting {
        state.window_step = (state.window_step + 1) % SSR_WINDOW_STEPS;
        state.heat_window_step = (state.heat_window_step + 1) % SSR_WINDOW_STEPS;
    }
    ControlOutputs { cooling_on, heat_on, color }
}

/// Takes a failed reading into account: both relays go off, both windows start
/// anew, and both loops lose their integral terms.
pub fn on_sensor_error(state: &mut ControlState, runtime: &mut RuntimeState, error: SensorError) -> (r:
    (ControlPlan, ControlOutputs))
    ensures
        r.0 == (ControlPlan {
            relays_low: true,
            reset_cool: true,
            run_cool: false,
            reset_heat: true,
            run_heat: false,
        }),
        r.1 == (ControlOutputs {
            cooling_on: false,
            heat_on: false,
            color: Rgb8 { red: 10, green: 4, blue: 0 },
        }),
        *final(state) == (ControlState { window_step: 0, heat_window_step: 0, ..*old(state) }),
        final(state).wf(),
        *final(runtime) == (RuntimeState {
            temp_centi: UNKNOWN_TEMPERATURE_CENTI,
            pid_deci: 0,
            relay_on: false,
            heat_on: false,
            sensor_status: status_of_error(error).spec_code(),
            led_red: 10,
            led_green: 4,
            led_blue: 0,
            pid_window_step: 0,
            pid_on_steps: 0,
            pid_p_pct: 0,
            pid_i_pct: 0,
            pid_d_pct: 0,
            ..*old(runtime)
        }),
{
    state.window_step = 0;
    state.heat_window_step = 0;
    let color: Rgb8 = sensor_fault_color(error);
    update_error(runtime, error, color.red, color.green, color.blue);
    (
        ControlPlan {
            relays_low: true,
            reset_cool: true,
            run_cool: false,
            reset_heat: true,
            run_heat: false,
        },
        ControlOutputs { cooling_on: false, heat_on: false, color },
    )
}

/// The heating relay is never on while the cooling relay is.
pub proof fn never_both_relays(state: ControlState, cool: LoopOutput, heat: LoopOutput)
    ensures
        !(outputs_of(state, cool, heat).cooling_on && outputs_of(state, cool, heat).heat_on),
{
}

/// A loop that commands no step keeps its relay off, and one that commands the
/// whole window keeps it on, at every step of the window.
pub proof fn window_covers_the_command(state: ControlState, cool: LoopOutput, heat: LoopOutput)
    requires
        state.wf(),
    ensures
        cool.on_steps == 0 ==> !outputs_of(state, cool, heat).cooling_on,
        heat.on_steps == 0 ==> !outputs_of(state, cool, heat).heat_on,
        cool.on_steps == SSR_WINDOW_STEPS ==> outputs_of(state, cool, heat).cooling_on,
        cool.on_steps == 0 && heat.on_steps == SSR_WINDOW_STEPS ==> outputs_of(
            state,
            cool,
            heat,
        ).heat_on,
{
}

/// The window step that comes `n` steps after another.
pub open spec fn step_after(step: int, n: nat) -> int {
    (step + n) % SSR_WINDOW_STEPS as int
}

/// How many of the first `n` steps of a window, taken from its start, a relay
/// is on that is commanded `on_steps`.
pub open spec fn steps_on(on_steps: int, n: nat) -> nat
    decreases n,
{
    if n == 0 {
        0
    } else {
        steps_on(on_steps, (n - 1) as nat) + if step_after(0, (n - 1) as nat) < on_steps {
            1nat
        } else {
            0nat
        }
    }
}

/// Over a whole window the cooling relay is on for as many steps as commanded.
pub proof fn window_meters_the_command(on_steps: u32)
    requires
        on_steps <= SSR_WINDOW_STEPS,
    ensures
        steps_on(on_steps as int, SSR_WINDOW_STEPS as nat) == on_steps,
{
    reveal_with_fuel(steps_on, 11);
}

/// In how many of the next `n` control steps with the same commands the
/// cooling relay is on.
pub open spec fn cooling_steps(state: ControlState, cool: LoopOutput, heat: LoopOutput, n: nat) -> nat
    decreases n,
{
    if n == 0 {
        0
    } else {
        cooling_steps(moved_on(state, true), cool, heat, (n - 1) as nat) + (if outputs_of(
            state,
            cool,
            heat,
        ).cooling_on {
            1nat
        } else {
            0nat
        })
    }
}

/// In how many of the next `n` control steps with the same commands the
/// heating relay is on.
pub open spec fn heating_steps(state: ControlState, cool: LoopOutput, heat: LoopOutput, n: nat) -> nat
    decreases n,
{
    if n == 0 {
        0
    } else {
        heating_steps(moved_on(state, true), cool, heat, (n - 1) as nat) + (if outputs_of(
            state,
            cool,
            heat,
        ).heat_on {
            1nat
        } else {
            0nat
        })
    }
}

/// How many of the `n` steps from `step` on, which may go once past the end of
/// the window, are among its first `on_steps`.
#[verifier::opaque]
spec fn first_steps(step: int, on_steps: int, n: int) -> int {
    let before = if step < on_steps {
        step
    } else {
        on_steps
    };
    let end = if step + n <= 10 {
        step + n
    } else {
        step + n - 10
    };
    let upto = if end < on_steps {
        end
    } else {
        on_steps
    };
    if step + n <= 10 {
        upto - before
    } else {
        on_steps - before + upto
    }
}

proof fn first_steps_go_on(step: int, on_steps: int, n: int)
    requires
        0 <= step < 10,
        0 <= on_steps <= 10,
        1 <= n <= 10,
    ensures
        first_steps(step, on_steps, n) == first_steps(
            if step < 9 {
                step + 1
            } else {
                0
            },
            on_steps,
            n - 1,
        ) + (if step < on_steps {
            1int
        } else {
            0int
        }),
{
    reveal(first_steps);
}

proof fn moved_on_is(state: ControlState)
    requires
        state.wf(),
    ensures
        moved_on(state, true).wf(),
        moved_on(state, true).window_step == (if state.window_step < 9 {
            state.window_step + 1
        } else {
            0
        }),
        moved_on(state, true).heat_window_step == (if state.heat_window_step < 9 {
            state.heat_window_step + 1
        } else {
            0
        }),
{
}

proof fn cooling_steps_are(state: ControlState, cool: LoopOutput, heat: LoopOutput, n: nat)
    requires
        state.wf(),
        cool.on_steps <= 10,
        n <= 10,
    ensures
        cooling_steps(state, cool, heat, n) == first_steps(
            state.window_step as int,
            cool.on_steps as int,
            n as int,
        ),
    decreases n,
{
    if n > 0 {
        let next = moved_on(state, true);
        moved_on_is(state);
        first_steps_go_on(state.window_step as int, cool.on_steps as int, n as int);
        cooling_steps_are(next, cool, heat, (n - 1) as nat);
    } else {
        reveal(first_steps);
    }
}

proof fn heating_steps_are(state: ControlState, cool: LoopOutput, heat: LoopOutput, n: nat)
    requires
        state.wf(),
        cool.on_steps == 0,
        heat.on_steps <= 10,
        n <= 10,
    ensures
        heating_steps(state, cool, heat, n) == first_steps(
            state.heat_window_step as int,
            heat.on_steps as int,
            n as int,
        ),
    decreases n,
{
    if n > 0 {
        let next = moved_on(state, true);
        moved_on_is(state);
        first_steps_go_on(state.heat_window_step as int, heat.on_steps as int, n as int);
        heating_steps_are(next, cool, heat, (n - 1) as nat);
    } else {
        reveal(first_steps);
    }
}

/// In any ten control steps in a row with the same commands, wherever in the
/// window they start, the cooling relay is on for as many as commanded, and so
/// is the heating relay while the cooling loop is silent.
pub proof fn ten_steps_meter_the_command(state: ControlState, cool: LoopOutput, heat: LoopOutput)
    requires
        state.wf(),
        cool.on_steps <= 10,
        heat.on_steps <= 10,
    ensures
        cooling_steps(state, cool, heat, 10) == cool.on_steps,
        cool.on_steps == 0 ==> heating_steps(state, cool, heat, 10) == heat.on_steps,
{
    reveal(first_steps);
    cooling_steps_are(state, cool, heat, 10);
    if cool.on_steps == 0 {
        heating_steps_are(state, cool, heat, 10);
    }
}

/// A relay that is off at one step of a window stays off to its end, whether it
/// cools or heats: the steps that are commanded come first.
pub proof fn commanded_steps_come_first(
    earlier: ControlState,
    later: ControlState,
    cool: LoopOutput,
    heat: LoopOutput,
)
    requires
        earlier.window_step <= later.window_step,
        earlier.heat_window_step <= later.heat_window_step,
    ensures
        outputs_of(later, cool, heat).cooling_on ==> outputs_of(earlier, cool, heat).cooling_on,
        cool.on_steps == 0 && outputs_of(later, cool, heat).heat_on ==> outputs_of(
            earlier,
            cool,
            heat,
        ).heat_on,
{
}

/// A command that is greater keeps its relay on wherever a smaller one does.
pub proof fn more_is_on_longer(
    state: ControlState,
    less: LoopOutput,
    more: LoopOutput,
    other: LoopOutput,
)
    requires
        less.on_steps <= more.on_steps,
    ensures
        outputs_of(state, less, other).cooling_on ==> outputs_of(state, more, other).cooling_on,
        outputs_of(state, other, less).heat_on ==> outputs_of(state, other, more).heat_on,
{
}

/// A control step reports what it did: the relays as they were switched, and
/// the loop that commands them with its duty cycle, its terms and its place in
/// the window.
pub proof fn the_sample_tells_of_the_step(
    state: ControlState,
    before: RuntimeState,
    temp_raw: i16,
    cool: LoopOutput,
    heat: LoopOutput,
)
    requires
        state.wf(),
        cool.on_steps <= 10,
        heat.on_steps <= 10,
    ensures
        ({
            let after = published(before, sample_of(state, temp_raw, cool, heat));
            let outputs = outputs_of(state, cool, heat);
            &&& after.relay_on == outputs.cooling_on
            &&& after.heat_on == outputs.heat_on
            &&& after.sensor_status == 0
            &&& after.led_red == outputs.color.red && after.led_green == outputs.color.green
                && after.led_blue == outputs.color.blue
            &&& cool.on_steps > 0 ==> after.pid_deci == cool.output_deci && after.pid_on_steps
                == cool.on_steps && after.pid_window_step == state.window_step && after.pid_p_pct
                == cool.p_pct && after.pid_i_pct == cool.i_pct && after.pid_d_pct == cool.d_pct
            &&& cool.on_steps == 0 && heat.on_steps > 0 ==> after.pid_deci == heat.output_deci
                && after.pid_on_steps == heat.on_steps && after.pid_window_step
                == state.heat_window_step && after.pid_p_pct == heat.p_pct && after.pid_i_pct
                == heat.i_pct && after.pid_d_pct == heat.d_pct
            &&& cool.on_steps == 0 && heat.on_steps == 0 ==> after.pid_deci == 0
                && after.pid_on_steps == 0 && after.pid_window_step == 0 && after.pid_p_pct == 0
                && after.pid_i_pct == 0 && after.pid_d_pct == 0
            &&& after.collection_enabled == before.collection_enabled
        }),
        ({
            let shown = published(before, sample_of(state, temp_raw, cool, heat)).temp_centi;
            &&& temp_raw >= 0 ==> 16 * shown <= 100 * temp_raw < 16 * shown + 16
            &&& temp_raw <= 0 ==> 16 * shown - 16 < 100 * temp_raw <= 16 * shown
        }),
{
}

/// A loop that does not run commands nothing, and its relay stays off.
pub proof fn an_idle_loop_keeps_its_relay_off(
    state: ControlState,
    cool: LoopOutput,
    heat: LoopOutput,
    runs: bool,
)
    ensures
        !outputs_of(state, commanded(false, cool), commanded(runs, heat)).cooling_on,
        !outputs_of(state, commanded(runs, cool), commanded(false, heat)).heat_on,
        outputs_of(state, commanded(true, cool), commanded(runs, heat)).cooling_on == outputs_of(
            state,
            cool,
            heat,
        ).cooling_on,
{
}

// ── LED ──────────────────────────────────────────────────────────────────────

/// What the LED shows of the HTTP server.
#[derive(Clone, Copy, Debug, PartialEq, Eq, Structural)]
pub enum HttpLedState {
    Idle,
    ActiveOk,
    ActiveError,
}

/// The LED colour: an HTTP exchange first, red where it failed and blue where
/// not, then a fault in red, then a sent packet in violet, and green at rest.
pub fn display_color(http: HttpLedState, runtime_error: bool, udp_active: bool) -> (r: Rgb8)
    ensures
        r == (match http {
            HttpLedState::ActiveOk => Rgb8 { red: 0, green: 0, blue: 10 },
            HttpLedState::ActiveError => Rgb8 { red: 10, green: 0, blue: 0 },
            HttpLedState::Idle => if runtime_error {
                Rgb8 { red: 10, green: 0, blue: 0 }
            } else if udp_active {
                Rgb8 { red: 6, green: 0, blue: 10 }
            } else {
                Rgb8 { red: 0, green: 4, blue: 0 }
            },
        }),
        r.green > 0 <==> http is Idle && !runtime_error && !udp_active,
        r.blue > 0 <==> http is ActiveOk || (http is Idle && !runtime_error && udp_active),
        r.red > 0 <==> http is ActiveError || (http is Idle && (runtime_error || udp_active)),
{
    match http {
        HttpLedState::Idle => {
            if runtime_error {
                Rgb8 { red: 10, green: 0, blue: 0 }
            } else if udp_active {
                Rgb8 { red: 6, green: 0, blue: 10 }
            } else {
                Rgb8 { red: 0, green: 4, blue: 0 }
            }
        },
        HttpLedState::ActiveOk => Rgb8 { red: 0, green: 0, blue: 10 },
        HttpLedState::ActiveError => Rgb8 { red: 10, green: 0, blue: 0 },
    }
}

/// One pulse on the LED's data line: ticks high, then ticks low.
#[derive(Clone, Copy, Debug, PartialEq, Eq, Structural)]
pub struct Pulse {
    pub high_ticks: u16,
    pub low_ticks: u16,
}

/// The pulse that carries a bit.
pub open spec fn pulse_of(one: bool) -> Pulse {
    if one {
        Pulse { high_ticks: WS2812_T1H_TICKS, low_ticks: WS2812_T1L_TICKS }
    } else {
        Pulse { high_ticks: WS2812_T0H_TICKS, low_ticks: WS2812_T0L_TICKS }
    }
}

/// The pulses that carry a byte, its most significant bit first.
pub open spec fn byte_pulses(value: u8) -> Seq<Pulse> {
    Seq::new(8, |i: int| pulse_of(bits(value)[7 - i]))
}

fn append_pulses(out: &mut Vec<Pulse>, value: u8)
    ensures
        final(out)@ == old(out)@ + byte_pulses(value),
{
    let bit: [bool; 8] = byte_bits(value);
    let ghost before = out@;
    let mut i: usize = 0;
    while i < 8
        invariant
            i <= 8,
            bit@ == bits(value),
            out@ == before + byte_pulses(value).take(i as int),
        decreases 8 - i,
    {
        let pulse: Pulse = if bit[7 - i] {
            Pulse { high_ticks: WS2812_T1H_TICKS, low_ticks: WS2812_T1L_TICKS }
        } else {
            Pulse { high_ticks: WS2812_T0H_TICKS, low_ticks: WS2812_T0L_TICKS }
        };
        out.push(pulse);
        assert(byte_pulses(value).take(i + 1) == byte_pulses(value).take(i as int).push(pulse));
        i = i + 1;
    }
    assert(byte_pulses(value).take(8) == byte_pulses(value));
}

/// The pulses that show a colour: green, red, then blue.
pub fn pixel_frame(color: Rgb8) -> (r: Vec<Pulse>)
    ensures
        r@ == byte_pulses(color.green) + byte_pulses(color.red) + byte_pulses(color.blue),
        r@.len() == 24,
        r@.subrange(0, 8) == byte_pulses(color.green),
        r@.subrange(8, 16) == byte_pulses(color.red),
        r@.subrange(16, 24) == byte_pulses(color.blue),
{
    let mut frame: Vec<Pulse> = Vec::new();
    append_pulses(&mut frame, color.green);
    append_pulses(&mut frame, color.red);
    append_pulses(&mut frame, color.blue);
    frame
}

/// A byte goes to the LED in eight pulses, its highest bit first. The pulse of
/// a one is high for 8 ticks and low for 5, that of a zero high for 4 and low
/// for 9.
pub proof fn a_byte_is_sent_highest_bit_first(value: u8)
    ensures
        byte_pulses(value).len() == 8,
        forall|i: int|
            0 <= i < 8 ==> (#[trigger] byte_pulses(value)[i] == Pulse { high_ticks: 8, low_ticks: 5 }
                || byte_pulses(value)[i] == Pulse { high_ticks: 4, low_ticks: 9 }),
        ({
            let p = byte_pulses(value);
            let one = Pulse { high_ticks: 8, low_ticks: 5 };
            value == (if p[0] == one {
                128int
            } else {
                0
            }) + (if p[1] == one {
                64int
            } else {
                0
            }) + (if p[2] == one {
                32int
            } else {
                0
            }) + (if p[3] == one {
                16int
            } else {
                0
            }) + (if p[4] == one {
                8int
            } else {
                0
            }) + (if p[5] == one {
                4int
            } else {
                0
            }) + (if p[6] == one {
                2int
            } else {
                0
            }) + (if p[7] == one {
                1int
            } else {
                0
            })
        }),
{
    assert(((value >> 7u8) & 1) * 128 + ((value >> 6u8) & 1) * 64 + ((value >> 5u8) & 1) * 32 + ((
    value >> 4u8) & 1) * 16 + ((value >> 3u8) & 1) * 8 + ((value >> 2u8) & 1) * 4 + ((value >> 1u8)
        & 1) * 2 + ((value >> 0u8) & 1) == value) by (bit_vector);
    assert((value >> 7u8) & 1 <= 1 && (value >> 6u8) & 1 <= 1 && (value >> 5u8) & 1 <= 1 && (value
        >> 4u8) & 1 <= 1 && (value >> 3u8) & 1 <= 1 && (value >> 2u8) & 1 <= 1 && (value >> 1u8) & 1
        <= 1 && (value >> 0u8) & 1 <= 1) by (bit_vector);
}

/// A running loop is shown in green, with red added while a relay is on.
pub proof fn red_is_added_while_a_relay_is_on(relay_on: bool)
    ensures
        loop_color(relay_on).green == 4,
        loop_color(relay_on).blue == 0,
        loop_color(relay_on).red > 0 <==> relay_on,
        relay_on ==> loop_color(relay_on).red == 10,
{
}

} // verus!
