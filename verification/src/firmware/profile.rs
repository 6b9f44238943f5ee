//! Temperature profile state machine.
//!
//! A profile is a named sequence of steps, each a target temperature and how
//! long to hold it. The device goes on to the next step once the measured
//! temperature has been within the dead band of the target for the whole hold.
//!
//! The hold timer is the tick count at which the target was reached; 0 means
//! that it was not reached yet.

use vstd::prelude::*;
use super::storage::{set_target_temp_centi_ram, StorageState};

verus! {

/// The lowest target of a step that is posted.
pub const STEP_TARGET_MIN_CENTI: i32 = -2_000;

/// The highest target of a step that is posted.
pub const STEP_TARGET_MAX_CENTI: i32 = 10_000;

/// One step of a profile.
#[derive(Clone, Copy, Debug, PartialEq, Eq, Structural)]
pub struct ProfileStep {
    /// Target in hundredths of a degree.
    pub target_centi: i32,
    pub hold_secs: u32,
}

/// A stored profile.
pub struct TempProfile {
    pub name: String,
    pub steps: Vec<ProfileStep>,
}

/// Why a profile operation failed.
#[derive(Clone, Copy, Debug, PartialEq, Eq, Structural)]
pub enum ProfileError {
    NotFound,
    InvalidName,
    InvalidStep,
    Storage,
}

/// The running profile, if one runs.
pub struct ProfileState {
    pub active_slot: Option<u8>,
    pub active_step: u8,
    pub at_target: bool,
    pub hold_started_ticks: u64,
    pub steps: Vec<ProfileStep>,
    pub name: String,
}

/// Whether no profile runs.
pub open spec fn stopped(state: ProfileState) -> bool {
    &&& state.active_slot is None
    &&& state.active_step == 0
    &&& !state.at_target
    &&& state.hold_started_ticks == 0
    &&& state.steps@.len() == 0
    &&& state.name@.len() == 0
}

impl ProfileState {
    /// The step number of a running profile fits its 8 bits.
    pub open spec fn wf(self) -> bool {
        self.steps@.len() <= 255
    }

    /// No profile runs.
    pub fn new() -> (s: Self)
        ensures
            stopped(s),
            s.wf(),
    {
        ProfileState {
            active_slot: None,
            active_step: 0,
            at_target: false,
            hold_started_ticks: 0,
            steps: Vec::new(),
            name: String::new(),
        }
    }
}

/// The running profile as it is reported.
pub struct ActiveProfileState {
    pub name: String,
    pub step_index: usize,
    pub total_steps: usize,
    pub step_target_centi: i32,
    pub step_hold_secs: u32,
    pub at_target: bool,
    /// Seconds of the current hold; 0 while the target is not reached.
    pub hold_elapsed_secs: u32,
}

/// Starts the profile that was found under a name. Its first target is in
/// force at once, without a flash write.
pub fn start_profile(
    state: &mut ProfileState,
    storage: &mut StorageState,
    found: Option<(u8, TempProfile)>,
) -> (r: Result<(), ProfileError>)
    requires
        found matches Some(p) ==> p.1.steps@.len() <= 255,
    ensures
        match found {
            None => r == Err::<(), ProfileError>(ProfileError::NotFound),
            Some(p) => if p.1.steps@.len() == 0 {
                r == Err::<(), ProfileError>(ProfileError::InvalidStep)
            } else {
                r is Ok
            },
        },
        r is Err ==> *final(state) == *old(state) && *final(storage) == *old(storage),
        r is Ok ==> {
            let profile = (found->0).1;
            &&& final(state).active_slot == Some((found->0).0)
            &&& final(state).active_step == 0
            &&& !final(state).at_target
            &&& final(state).hold_started_ticks == 0
            &&& final(state).steps@ == profile.steps@
            &&& final(state).name@ == profile.name@
            &&& final(state).wf()
            &&& *final(storage) == (StorageState {
                target_centi: profile.steps@[0].target_centi,
                ..*old(storage)
            })
        },
{
    match found {
        None => Err(ProfileError::NotFound),
        Some((slot, profile)) => {
            if profile.steps.len() == 0 {
                return Err(ProfileError::InvalidStep);
            }
            let first_target: i32 = profile.steps[0].target_centi;
            state.steps = profile.steps;
            state.name = profile.name;
            state.hold_started_ticks = 0;
            state.active_slot = Some(slot);
            state.active_step = 0;
            state.at_target = false;
            set_target_temp_centi_ram(storage, first_target);
            Ok(())
        },
    }
}

/// Stops the running profile. The target temperature stays as it is.
pub fn stop_profile(state: &mut ProfileState)
    ensures
        stopped(*final(state)),
        final(state).wf(),
{
    state.active_slot = None;
    state.active_step = 0;
    state.at_target = false;
    state.hold_started_ticks = 0;
    state.steps = Vec::new();
    state.name = String::new();
}

/// Whether a profile runs.
pub fn is_active(state: &ProfileState) -> (r: bool)
    ensures
        r == state.active_slot is Some,
{
    state.active_slot.is_some()
}

/// Whether a temperature in sixteenths of a degree is within half the dead
/// band of a target. Both sides are counted in 1/1600 of a degree.
pub open spec fn within_band(temp_raw: int, target_centi: int, deadband_centi: int) -> bool {
    -16 * deadband_centi <= 2 * (100 * temp_raw - 16 * target_centi) <= 16 * deadband_centi
}

/// Tests whether a temperature is within half the dead band of a target.
pub fn is_within_band(temp_raw: i16, target_centi: i32, deadband_centi: u32) -> (r: bool)
    ensures
        r == within_band(temp_raw as int, target_centi as int, deadband_centi as int),
{
    let twice_error: i64 = 2 * (100 * temp_raw as i64 - 16 * target_centi as i64);
    let band: i64 = 16 * deadband_centi as i64;
    -band <= twice_error && twice_error <= band
}

/// What a tick makes of the running profile.
pub enum Tick {
    /// No profile runs.
    Idle,
    /// The profile is over, after its last step or for want of steps.
    Finished,
    /// The temperature is away from the target: the hold starts anew.
    Away,
    /// The temperature has just reached the target: the hold starts.
    Reached,
    /// The hold is not over.
    Holding,
    /// The hold is over and the next step begins.
    Next,
}

/// What a tick makes of the running profile.
pub open spec fn tick_of(
    state: ProfileState,
    temp_raw: i16,
    deadband_centi: u32,
    now_ticks: u64,
    tick_hz: u64,
) -> Tick {
    let i = state.active_step as int;
    if state.active_slot is None {
        Tick::Idle
    } else if i >= state.steps@.len() {
        Tick::Finished
    } else {
        let step = state.steps@[i];
        let elapsed = if now_ticks >= state.hold_started_ticks {
            now_ticks - state.hold_started_ticks
        } else {
            0
        };
        if !within_band(temp_raw as int, step.target_centi as int, deadband_centi as int) {
            Tick::Away
        } else if state.hold_started_ticks == 0 {
            Tick::Reached
        } else if elapsed < step.hold_secs * tick_hz {
            Tick::Holding
        } else if i + 1 >= state.steps@.len() {
            Tick::Finished
        } else {
            Tick::Next
        }
    }
}

/// Whether one state follows another without a change of profile or step.
pub open spec fn same_step(a: ProfileState, b: ProfileState) -> bool {
    &&& b.active_slot == a.active_slot
    &&& b.active_step == a.active_step
    &&& b.steps@ == a.steps@
    &&& b.name@ == a.name@
}

/// Whether the hold of the current step is over: it has started, the
/// temperature is off the target by no more than half the band, in 1/400 of a
/// degree, and the whole time has passed since the start.
pub open spec fn is_held(
    state: ProfileState,
    temp_raw: i16,
    deadband_centi: u32,
    now_ticks: u64,
    tick_hz: u64,
) -> bool {
    let step = state.steps@[state.active_step as int];
    let above = 25 * temp_raw - 4 * step.target_centi;
    &&& state.hold_started_ticks > 0
    &&& -2 * deadband_centi <= above <= 2 * deadband_centi
    &&& now_ticks >= state.hold_started_ticks + step.hold_secs * tick_hz || step.hold_secs
        * tick_hz == 0
}

/// Takes one control cycle into account. Returns the new target temperature
/// when the profile went on to a new step.
pub fn profile_tick(
    state: &mut ProfileState,
    storage: &mut StorageState,
    temp_raw: i16,
    deadband_centi: u32,
    now_ticks: u64,
    tick_hz: u64,
) -> (r: Option<i32>)
    requires
        old(state).wf(),
    ensures
        final(state).wf(),
        match tick_of(*old(state), temp_raw, deadband_centi, now_ticks, tick_hz) {
            Tick::Idle => *final(state) == *old(state),
            Tick::Finished => stopped(*final(state)),
            Tick::Away => same_step(*old(state), *final(state)) && !final(state).at_target
                && final(state).hold_started_ticks == 0,
            Tick::Reached => same_step(*old(state), *final(state)) && final(state).at_target
                && final(state).hold_started_ticks == now_ticks,
            Tick::Holding => same_step(*old(state), *final(state)) && final(state).at_target
                && final(state).hold_started_ticks == old(state).hold_started_ticks,
            Tick::Next => {
                &&& final(state).active_slot == old(state).active_slot
                &&& final(state).active_step == old(state).active_step + 1
                &&& final(state).steps@ == old(state).steps@
                &&& final(state).name@ == old(state).name@
                &&& !final(state).at_target
                &&& final(state).hold_started_ticks == 0
            },
        },
        tick_of(*old(state), temp_raw, deadband_centi, now_ticks, tick_hz) is Next ==> r == Some(
            old(state).steps@[old(state).active_step + 1].target_centi,
        ),
        !(tick_of(*old(state), temp_raw, deadband_centi, now_ticks, tick_hz) is Next) ==> r is None,
        *final(storage) == (StorageState {
            target_centi: match r {
                Some(target) => target,
                None => old(storage).target_centi,
            },
            ..*old(storage)
        }),
        old(state).active_slot is Some && old(state).active_step < old(state).steps@.len() && (
        final(state).active_slot is None || r is Some) ==> is_held(
            *old(state),
            temp_raw,
            deadband_centi,
            now_ticks,
            tick_hz,
        ),
{
    if state.active_slot.is_none() {
        return None;
    }
    let step_idx: usize = state.active_step as usize;
    let total_steps: usize = state.steps.len();
    if step_idx >= total_steps {
        stop_profile(state);
        return None;
    }
    let step: ProfileStep = state.steps[step_idx];
    let at_target: bool = is_within_band(temp_raw, step.target_centi, deadband_centi);
    state.at_target = at_target;
    let hold_started: u64 = state.hold_started_ticks;
    if !at_target {
        state.hold_started_ticks = 0;
        return None;
    }
    if hold_started == 0 {
        state.hold_started_ticks = now_ticks;
        return None;
    }
    let elapsed_ticks: u64 = now_ticks.saturating_sub(hold_started);
    assert(step.hold_secs * tick_hz <= u32::MAX * u64::MAX) by (nonlinear_arith)
        requires
            0 <= step.hold_secs <= u32::MAX,
            0 <= tick_hz <= u64::MAX,
    ;
    let required_ticks: u128 = step.hold_secs as u128 * tick_hz as u128;
    if (elapsed_ticks as u128) < required_ticks {
        return None;
    }
    let next_step: usize = step_idx + 1;
    if next_step >= total_steps {
        stop_profile(state);
        return None;
    }
    let new_target: i32 = state.steps[next_step].target_centi;
    state.active_step = next_step as u8;
    state.at_target = false;
    state.hold_started_ticks = 0;
    set_target_temp_centi_ram(storage, new_target);
    Some(new_target)
}

/// A tick that goes on to the next step comes no sooner than the whole hold
/// after the target was reached, with the temperature within the band.
pub proof fn step_is_held(
    state: ProfileState,
    temp_raw: i16,
    deadband_centi: u32,
    now_ticks: u64,
    tick_hz: u64,
)
    requires
        tick_of(state, temp_raw, deadband_centi, now_ticks, tick_hz) is Next,
    ensures
        state.hold_started_ticks > 0,
        ({
            let step = state.steps@[state.active_step as int];
            &&& within_band(temp_raw as int, step.target_centi as int, deadband_centi as int)
            &&& step.hold_secs > 0 && tick_hz > 0 ==> now_ticks - state.hold_started_ticks
                >= step.hold_secs * tick_hz
        }),
{
    let step = state.steps@[state.active_step as int];
    if step.hold_secs > 0 && tick_hz > 0 {
        assert(step.hold_secs * tick_hz > 0) by (nonlinear_arith)
            requires
                step.hold_secs > 0,
                tick_hz > 0,
        ;
    }
}

/// A step of a running profile is left, for the next one or because it was the
/// last, exactly where its hold has started, the temperature is within half the
/// band of its target, in 1/400 of a degree, and as many ticks as the hold has
/// seconds' worth of have passed since it started.
pub proof fn every_step_is_held(
    state: ProfileState,
    temp_raw: i16,
    deadband_centi: u32,
    now_ticks: u64,
    tick_hz: u64,
)
    requires
        state.active_slot is Some,
        state.active_step < state.steps@.len(),
    ensures
        ({
            let step = state.steps@[state.active_step as int];
            let above = 25 * temp_raw - 4 * step.target_centi;
            let inside = -2 * deadband_centi <= above && above <= 2 * deadband_centi;
            let passed = now_ticks - state.hold_started_ticks;
            let due = step.hold_secs * tick_hz;
            let tick = tick_of(state, temp_raw, deadband_centi, now_ticks, tick_hz);
            let last = state.active_step + 1 == state.steps@.len();
            let over = inside && state.hold_started_ticks > 0 && (passed >= due || due == 0);
            &&& tick is Finished || tick is Next <==> over
            &&& tick is Finished <==> over && last
            &&& tick is Away <==> !inside
            &&& tick is Reached <==> inside && state.hold_started_ticks == 0
            &&& tick is Holding <==> inside && state.hold_started_ticks > 0 && passed < due && due
                > 0
            &&& !(tick is Idle)
        }),
{
    let step = state.steps@[state.active_step as int];
    assert(step.hold_secs * tick_hz >= 0) by (nonlinear_arith)
        requires
            step.hold_secs >= 0,
            tick_hz >= 0,
    ;
}

/// Without a running profile a tick does nothing, and one that has no step left
/// to run is over.
pub proof fn only_a_running_profile_ticks(
    state: ProfileState,
    temp_raw: i16,
    deadband_centi: u32,
    now_ticks: u64,
    tick_hz: u64,
)
    ensures
        tick_of(state, temp_raw, deadband_centi, now_ticks, tick_hz) is Idle
            <==> state.active_slot is None,
        state.active_slot is Some && state.active_step >= state.steps@.len() ==> tick_of(
            state,
            temp_raw,
            deadband_centi,
            now_ticks,
            tick_hz,
        ) is Finished,
{
}

/// Time alone ends a hold: at a temperature that holds, a later tick is no
/// nearer to the start of the hold, and one a whole hold later ends it.
pub proof fn holding_comes_to_an_end(
    state: ProfileState,
    temp_raw: i16,
    deadband_centi: u32,
    now_ticks: u64,
    later_ticks: u64,
    tick_hz: u64,
)
    requires
        tick_of(state, temp_raw, deadband_centi, now_ticks, tick_hz) is Holding,
        now_ticks <= later_ticks,
    ensures
        ({
            let step = state.steps@[state.active_step as int];
            let later = tick_of(state, temp_raw, deadband_centi, later_ticks, tick_hz);
            &&& later is Holding || later is Next || later is Finished
            &&& later_ticks - now_ticks >= step.hold_secs * tick_hz && now_ticks
                >= state.hold_started_ticks ==> !(later is Holding)
        }),
{
}

/// A temperature is within the band of a target where it is off by no more than
/// half of the band, above or below: in 1/400 of a degree.
pub proof fn band_is_symmetric(temp_raw: int, target_centi: int, deadband_centi: int)
    ensures
        within_band(temp_raw, target_centi, deadband_centi) <==> 25 * temp_raw - 4 * target_centi
            <= 2 * deadband_centi && 4 * target_centi - 25 * temp_raw <= 2 * deadband_centi,
        within_band(temp_raw, target_centi, deadband_centi) <==> within_band(
            -temp_raw,
            -target_centi,
            deadband_centi,
        ),
        within_band(temp_raw, target_centi, deadband_centi) <==> within_band(
            temp_raw + 16,
            target_centi + 100,
            deadband_centi,
        ),
{
}

/// A report gives the whole seconds of the hold that have passed, and none
/// before the hold has started.
pub proof fn a_report_counts_the_hold(
    report: ActiveProfileState,
    state: ProfileState,
    now_ticks: u64,
    tick_hz: u64,
)
    requires
        tick_hz > 0,
        is_report(Some(report), state, now_ticks, tick_hz),
    ensures
        state.hold_started_ticks == 0 ==> report.hold_elapsed_secs == 0,
        state.hold_started_ticks > 0 && now_ticks >= state.hold_started_ticks && now_ticks
            - state.hold_started_ticks < 0x1_0000_0000 * tick_hz ==> report.hold_elapsed_secs
            * tick_hz <= now_ticks - state.hold_started_ticks < (report.hold_elapsed_secs + 1)
            * tick_hz,
        report.step_index < report.total_steps,
        report.total_steps == state.steps@.len(),
        report.step_target_centi == state.steps@[report.step_index as int].target_centi,
        report.step_hold_secs == state.steps@[report.step_index as int].hold_secs,
        report.at_target == state.at_target,
        report.step_index == state.active_step,
        report.name@ == state.name@,
{
    let t = now_ticks - state.hold_started_ticks;
    if state.hold_started_ticks > 0 && t >= 0 && t < 0x1_0000_0000 * tick_hz {
        let q = t / tick_hz as int;
        vstd::arithmetic::div_mod::lemma_fundamental_div_mod(t, tick_hz as int);
        assert(0 <= q < 0x1_0000_0000) by (nonlinear_arith)
            requires
                tick_hz > 0,
                0 <= t < 0x1_0000_0000 * tick_hz,
                q == t / tick_hz as int,
        ;
        assert(q * tick_hz <= t < (q + 1) * tick_hz) by (nonlinear_arith)
            requires
                tick_hz > 0,
                t >= 0,
                q == t / tick_hz as int,
        ;
    }
}

/// Whether a report is that on the running profile, or there is none where no
/// profile runs.
pub open spec fn is_report(
    report: Option<ActiveProfileState>,
    state: ProfileState,
    now_ticks: u64,
    tick_hz: u64,
) -> bool {
    match report {
        Some(a) => {
            let i = state.active_step as int;
            &&& state.active_slot is Some && i < state.steps@.len()
            &&& a.name@ == state.name@
            &&& a.step_index == i
            &&& a.total_steps == state.steps@.len()
            &&& a.step_target_centi == state.steps@[i].target_centi
            &&& a.step_hold_secs == state.steps@[i].hold_secs
            &&& a.at_target == state.at_target
            &&& a.hold_elapsed_secs == (if state.hold_started_ticks > 0 && now_ticks
                >= state.hold_started_ticks {
                (now_ticks - state.hold_started_ticks) / tick_hz as int % 0x1_0000_0000
            } else {
                0
            })
        },
        None => state.active_slot is None || state.active_step >= state.steps@.len(),
    }
}

/// The running profile as it is reported, if one runs.
pub fn active_state(state: &ProfileState, now_ticks: u64, tick_hz: u64) -> (r: Option<
    ActiveProfileState,
>)
    requires
        tick_hz > 0,
    ensures
        is_report(r, *state, now_ticks, tick_hz),
{
    if state.active_slot.is_none() {
        return None;
    }
    let step_idx: usize = state.active_step as usize;
    let hold_elapsed_secs: u32 = if state.hold_started_ticks > 0 {
        (now_ticks.saturating_sub(state.hold_started_ticks) / tick_hz % 0x1_0000_0000) as u32
    } else {
        0
    };
    assert(0int / tick_hz as int == 0) by (nonlinear_arith)
        requires
            tick_hz > 0,
    ;
    if step_idx >= state.steps.len() {
        return None;
    }
    let step: ProfileStep = state.steps[step_idx];
    Some(
        ActiveProfileState {
            name: state.name.clone(),
            step_index: step_idx,
            total_steps: state.steps.len(),
            step_target_centi: step.target_centi,
            step_hold_secs: step.hold_secs,
            at_target: state.at_target,
            hold_elapsed_secs,
        },
    )
}

/// A state without a change of step has the profile, its steps and its name,
/// and the number of the step that it had.
pub proof fn an_unchanged_step_is_the_same(a: ProfileState, b: ProfileState)
    ensures
        same_step(a, a),
        same_step(a, b) ==> same_step(b, a),
        same_step(a, b) ==> a.active_slot == b.active_slot && a.active_step == b.active_step,
        same_step(a, b) ==> a.steps@ == b.steps@ && a.name@ == b.name@,
{
}

} // verus!
