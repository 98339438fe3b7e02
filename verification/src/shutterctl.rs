//! The daemon's model of the shutter system: the configured motors, the
//! state it reports, and how drive commands change it.
use crate::clock::{duration_as_millis, instant_elapsed, instant_now, ElapsedMillis};
use crate::motor::{stripped_motor, CurrentMove, Motor, MotorConfig, MotorState};
use crate::rpc::{
    build_get_state_answer, build_status_answer, command_of, is_state_answer, parse_cmd,
    status_answer, Command, DriveInstruction, Message,
};
use crate::Error;
use std::time::Instant;
use vstd::prelude::*;

verus! {

/// The motors of the system. The motor with identifier `n` is held at index
/// `n - 1`; an index that no configured motor uses holds `None`.
pub struct System {
    motors: Vec<Option<Motor>>,
}

impl View for System {
    type V = Seq<Option<Motor>>;

    closed spec fn view(&self) -> Seq<Option<Motor>> {
        self.motors@
    }
}

/// Every motor sits at the index its identifier names, and what is known of
/// its position is a range within 0 to 100 percent.
pub open spec fn well_formed(motors: Seq<Option<Motor>>) -> bool {
    forall|j: int|
        0 <= j < motors.len() ==> (#[trigger] motors[j] matches Some(m) ==> {
            &&& m.config.id == j + 1
            &&& m.state.known_min_percentage <= m.state.known_max_percentage <= 100
        })
}

/// The motors that are configured, in order of their identifiers, as they are
/// reported.
pub open spec fn reported_motors(motors: Seq<Option<Motor>>) -> Seq<Motor>
    decreases motors.len(),
{
    if motors.len() == 0 {
        Seq::empty()
    } else {
        let before = reported_motors(motors.drop_last());
        match motors.last() {
            Some(m) => before.push(stripped_motor(m)),
            None => before,
        }
    }
}

/// How far, in percent, a motor moves in `ms_elapsed` milliseconds when a full
/// run takes `runtime` milliseconds: the elapsed time is capped at `u32::MAX`
/// milliseconds, its hundredfold at `u32::MAX`, a run time of 0 counts as 1,
/// and a quotient beyond `u8::MAX` counts as 100 percent.
pub open spec fn percentage_change(ms_elapsed: u128, runtime: u32) -> u8 {
    let ms: int = if ms_elapsed > u32::MAX {
        u32::MAX as int
    } else {
        ms_elapsed as int
    };
    let scaled: int = if ms * 100 > u32::MAX {
        u32::MAX as int
    } else {
        ms * 100
    };
    let rt: int = if runtime == 0 {
        1
    } else {
        runtime as int
    };
    let q: int = scaled / rt;
    if q > u8::MAX {
        100
    } else {
        q as u8
    }
}

/// The known position range after a movement of `change` percent: moving up
/// raises the lower bound (to 100 at most) and pulls the upper bound along,
/// moving down lowers the upper bound (to 0 at least) and pulls the lower
/// bound along, standing still keeps both.
pub open spec fn moved_position(mv: CurrentMove, min: u8, max: u8, change: u8) -> (u8, u8) {
    match mv {
        CurrentMove::Stop => (min, max),
        CurrentMove::Up => {
            let new_min: u8 = if min + change > 100 {
                100
            } else {
                (min + change) as u8
            };
            (
                new_min,
                if new_min > max {
                    new_min
                } else {
                    max
                },
            )
        },
        CurrentMove::Down => {
            let new_max: u8 = if max < change {
                0
            } else {
                (max - change) as u8
            };
            (
                if new_max < min {
                    new_max
                } else {
                    min
                },
                new_max,
            )
        },
    }
}

/// A movement keeps a valid position range valid; moving up never lowers a
/// bound, moving down never raises one, and standing still changes nothing.
pub proof fn lemma_moved_position_bounds(mv: CurrentMove, min: u8, max: u8, change: u8)
    requires
        min <= max <= 100,
    ensures
        moved_position(mv, min, max, change).0 <= moved_position(mv, min, max, change).1 <= 100,
        mv == CurrentMove::Up ==> moved_position(mv, min, max, change).0 >= min
            && moved_position(mv, min, max, change).1 >= max,
        mv == CurrentMove::Down ==> moved_position(mv, min, max, change).0 <= min
            && moved_position(mv, min, max, change).1 <= max,
        mv == CurrentMove::Stop ==> moved_position(mv, min, max, change) == (min, max),
{
}

/// What a drive instruction does to a motor's state, when a movement changes
/// at the moment `now`, and whether it succeeds.
pub open spec fn drive_step(s: MotorState, cmd: DriveInstruction, now: Instant) -> (
    MotorState,
    Result<(), Error>,
) {
    match cmd.movement {
        Some(mv) => (
            MotorState {
                state: mv,
                known_min_percentage: s.known_min_percentage,
                known_max_percentage: s.known_max_percentage,
                last_change: if mv == CurrentMove::Stop {
                    Some(now)
                } else {
                    s.last_change
                },
            },
            Ok(()),
        ),
        None => if cmd.target_percentage is None {
            (s, Err(Error::BadCommand))
        } else {
            (s, Ok(()))
        },
    }
}

/// Every instruction names a configured motor.
pub open spec fn targets_configured(motors: Seq<Option<Motor>>, instr: Seq<DriveInstruction>) -> bool {
    forall|i: int|
        0 <= i < instr.len() ==> (#[trigger] instr[i]).motor < motors.len() && motors[instr[i].motor as int] is Some
}

/// Carries out one instruction on the motor it names, at the moment `now`.
pub open spec fn apply_instruction(
    motors: Seq<Option<Motor>>,
    cmd: DriveInstruction,
    now: Instant,
) -> (Seq<Option<Motor>>, Result<(), Error>) {
    let idx = cmd.motor as int;
    match motors[idx] {
        Some(m) => {
            let (st, r) = drive_step(m.state, cmd, now);
            (motors.update(idx, Some(Motor { config: m.config, state: st })), r)
        },
        None => (motors, Ok(())),
    }
}

/// Carries out the instructions in order, the one at index `i` at the moment
/// `times[i]`, and stops at the first that fails.
pub open spec fn run_instructions(
    motors: Seq<Option<Motor>>,
    instr: Seq<DriveInstruction>,
    times: Seq<Instant>,
) -> (Seq<Option<Motor>>, Result<(), Error>)
    decreases instr.len(),
{
    if instr.len() == 0 {
        (motors, Ok(()))
    } else {
        let (before, r) = run_instructions(motors, instr.drop_last(), times);
        if r is Err {
            (before, r)
        } else {
            apply_instruction(before, instr.last(), times[instr.len() - 1])
        }
    }
}

/// What a drive command does to the system: nothing, with `InvalidMotorId`,
/// when an instruction names a motor that is not configured; otherwise the
/// instructions are carried out.
pub open spec fn drive_outcome(
    motors: Seq<Option<Motor>>,
    instr: Seq<DriveInstruction>,
    times: Seq<Instant>,
) -> (Seq<Option<Motor>>, Result<(), Error>) {
    if targets_configured(motors, instr) {
        run_instructions(motors, instr, times)
    } else {
        (motors, Err(Error::InvalidMotorId))
    }
}

proof fn lemma_run_error_stays(
    motors: Seq<Option<Motor>>,
    instr: Seq<DriveInstruction>,
    times: Seq<Instant>,
    k: int,
)
    requires
        0 <= k <= instr.len(),
        run_instructions(motors, instr.take(k), times).1 is Err,
    ensures
        run_instructions(motors, instr, times) == run_instructions(motors, instr.take(k), times),
    decreases instr.len(),
{
    if instr.len() == k {
        assert(instr.take(k) =~= instr);
    } else {
        assert(instr.drop_last().take(k) =~= instr.take(k));
        lemma_run_error_stays(motors, instr.drop_last(), times, k);
    }
}

/// The configuration that sets up the motor of identifier `id`: the last
/// configuration with that identifier wins.
pub open spec fn last_config_with_id(configs: Seq<MotorConfig>, id: int) -> Option<MotorConfig>
    decreases configs.len(),
{
    if configs.len() == 0 {
        None
    } else if configs.last().id == id {
        Some(configs.last())
    } else {
        last_config_with_id(configs.drop_last(), id)
    }
}

/// The greatest identifier among the configurations.
pub open spec fn max_config_id(configs: Seq<MotorConfig>) -> int
    decreases configs.len(),
{
    if configs.len() == 0 {
        0
    } else {
        let m = max_config_id(configs.drop_last());
        if configs.last().id > m {
            configs.last().id as int
        } else {
            m
        }
    }
}

/// `motors` are the motors that the configurations set up: one index for each
/// identifier up to the greatest, each configured motor standing still with
/// nothing known of its position and the moment of its set-up recorded.
pub open spec fn set_up_from(motors: Seq<Option<Motor>>, configs: Seq<MotorConfig>) -> bool {
    &&& motors.len() == max_config_id(configs)
    &&& forall|j: int|
        0 <= j < motors.len() ==> match last_config_with_id(configs, j + 1) {
            None => #[trigger] motors[j] is None,
            Some(c) => motors[j] matches Some(m) && m.config == c && m.state.state
                == CurrentMove::Stop && m.state.known_min_percentage == 0
                && m.state.known_max_percentage == 100 && m.state.last_change is Some,
        }
}

impl System {
    /// Sets up the motors that the configurations describe.
    pub fn from_motor_configs(configs: &[MotorConfig]) -> (sys: System)
        requires
            configs@.len() > 0,
            forall|i: int| 0 <= i < configs@.len() ==> (#[trigger] configs@[i]).id >= 1,
        ensures
            set_up_from(sys@, configs@),
            well_formed(sys@),
            forall|i: int|
                0 <= i < configs@.len() ==> (#[trigger] configs@[i]).id <= sys@.len() && sys@[configs@[i].id
                    - 1] is Some,
            exists|i: int| 0 <= i < configs@.len() && (#[trigger] configs@[i]).id == sys@.len(),
            forall|j: int|
                0 <= j < sys@.len() ==> (#[trigger] sys@[j] matches Some(m) ==> {
                    &&& m.config.id == j + 1
                    &&& exists|i: int| 0 <= i < configs@.len() && #[trigger] configs@[i] == m.config
                    &&& m.state.state == CurrentMove::Stop
                    &&& m.state.known_min_percentage == 0
                    &&& m.state.known_max_percentage == 100
                    &&& m.state.last_change is Some
                }),
    {
        let mut max_id: u8 = 0;
        let mut i: usize = 0;
        while i < configs.len()
            invariant
                i <= configs@.len(),
                max_id == max_config_id(configs@.take(i as int)),
            decreases configs@.len() - i,
        {
            assert(configs@.take(i + 1).drop_last() =~= configs@.take(i as int));
            if configs[i].id > max_id {
                max_id = configs[i].id;
            }
            i = i + 1;
        }
        assert(configs@.take(configs@.len() as int) =~= configs@);
        let mut motors: Vec<Option<Motor>> = Vec::new();
        while motors.len() < max_id as usize
            invariant
                motors@.len() <= max_id,
                forall|j: int| 0 <= j < motors@.len() ==> #[trigger] motors@[j] is None,
            decreases max_id - motors@.len(),
        {
            motors.push(None);
        }
        let mut i: usize = 0;
        while i < configs.len()
            invariant
                i <= configs@.len(),
                max_id == max_config_id(configs@),
                motors@.len() == max_id,
                forall|k: int| 0 <= k < configs@.len() ==> (#[trigger] configs@[k]).id >= 1,
                forall|j: int|
                    0 <= j < motors@.len() ==> match last_config_with_id(configs@.take(i as int), j + 1) {
                        None => #[trigger] motors@[j] is None,
                        Some(c) => motors@[j] matches Some(m) && m.config == c && m.state.state
                            == CurrentMove::Stop && m.state.known_min_percentage == 0
                            && m.state.known_max_percentage == 100 && m.state.last_change is Some,
                    },
            decreases configs@.len() - i,
        {
            let c = &configs[i];
            proof {
                lemma_max_config_id_bounds(configs@, i as int);
                assert(configs@.take(i + 1).drop_last() =~= configs@.take(i as int));
            }
            let idx = (c.id - 1) as usize;
            let motor = Motor {
                config: MotorConfig { name: c.name.clone(), id: c.id, runtime_ms: c.runtime_ms },
                state: MotorState {
                    state: CurrentMove::Stop,
                    known_min_percentage: 0,
                    known_max_percentage: 100,
                    last_change: Some(instant_now()),
                },
            };
            motors.set(idx, Some(motor));
            i = i + 1;
        }
        assert(configs@.take(configs@.len() as int) =~= configs@);
        proof {
            assert forall|j: int| 0 <= j < motors@.len() implies (#[trigger] motors@[j] matches Some(m)
                ==> {
                &&& m.config.id == j + 1
                &&& m.state.known_min_percentage <= m.state.known_max_percentage <= 100
            }) by {
                lemma_last_config_id(configs@, j + 1);
            }
        }
        proof {
            lemma_set_up_motors(motors@, configs@);
        }
        System { motors }
    }

    /// The reported form of one slot: the motor stripped of its run time and of
    /// the moment of its last change.
    fn strip_state(m: &Option<Motor>) -> (r: Option<Motor>)
        ensures
            r == match *m {
                Some(mm) => Some(stripped_motor(mm)),
                None => None,
            },
    {
        match m {
            None => None,
            Some(m) => Some(
                Motor {
                    config: MotorConfig { name: m.config.name.clone(), id: m.config.id, runtime_ms: None },
                    state: MotorState {
                        state: m.state.state,
                        known_min_percentage: m.state.known_min_percentage,
                        known_max_percentage: m.state.known_max_percentage,
                        last_change: None,
                    },
                },
            ),
        }
    }

    /// The configured motors, in order of their identifiers, as they are reported.
    pub fn get_state(&self) -> (r: Vec<Motor>)
        ensures
            r@ == reported_motors(self@),
            r@ == self@.filter(|o: Option<Motor>| is_configured(o)).map_values(
                |o: Option<Motor>| stripped_motor(o->Some_0),
            ),
    {
        proof {
            lemma_reported_motors_are_configured(self@);
        }
        let mut r: Vec<Motor> = Vec::new();
        let mut i: usize = 0;
        while i < self.motors.len()
            invariant
                i <= self.motors@.len(),
                r@ == reported_motors(self.motors@.take(i as int)),
            decreases self.motors@.len() - i,
        {
            assert(self.motors@.take(i + 1).drop_last() =~= self.motors@.take(i as int));
            if let Some(m) = Self::strip_state(&self.motors[i]) {
                r.push(m);
            }
            i = i + 1;
        }
        assert(self.motors@.take(self.motors@.len() as int) =~= self.motors@);
        r
    }

    /// The known position range of a motor after `ms_elapsed` milliseconds of
    /// its current movement, when a full run takes `runtime` milliseconds.
    pub fn position_after(state: &MotorState, runtime: u32, ms_elapsed: u128) -> (r: (u8, u8))
        ensures
            r == moved_position(
                state.state,
                state.known_min_percentage,
                state.known_max_percentage,
                percentage_change(ms_elapsed, runtime),
            ),
    {
        let ms: u32 = if ms_elapsed > 0xffff_ffffu128 {
            0xffff_ffffu32
        } else {
            ms_elapsed as u32
        };
        let runtime: u32 = if runtime > 1 {
            runtime
        } else {
            1
        };
        let scaled: u32 = match ms.checked_mul(100) {
            Some(v) => v,
            None => 0xffff_ffffu32,
        };
        let q: u32 = scaled / runtime;
        let change: u8 = if q > 255 {
            100
        } else {
            q as u8
        };
        let mut new_min = state.known_min_percentage;
        let mut new_max = state.known_max_percentage;
        match state.state {
            CurrentMove::Stop => {},
            CurrentMove::Up => {
                new_min = new_min.saturating_add(change);
                if new_min > 100 {
                    new_min = 100;
                }
                if new_min > new_max {
                    new_max = new_min;
                }
            },
            CurrentMove::Down => {
                new_max = new_max.saturating_sub(change);
                if new_max < new_min {
                    new_min = new_max;
                }
            },
        }
        (new_min, new_max)
    }

    /// The known position range of a motor now, from the time elapsed since
    /// its movement last changed (measured from the call, where that moment is
    /// not known): the range moves by the milliseconds measured from
    /// `last_change`.
    pub fn recalc_position(state: &MotorState, runtime: u32) -> (r: (u8, u8))
        ensures
            exists|m: ElapsedMillis|
                {
                    &&& (state.last_change matches Some(t) ==> m.since() == t)
                    &&& r == moved_position(
                        state.state,
                        state.known_min_percentage,
                        state.known_max_percentage,
                        #[trigger] percentage_change(m.millis(), runtime),
                    )
                },
    {
        let since = match state.last_change {
            Some(t) => t,
            None => instant_now(),
        };
        let elapsed = instant_elapsed(&since);
        let m = duration_as_millis(&elapsed);
        let r = Self::position_after(state, runtime, m.ms());
        assert(r == moved_position(
            state.state,
            state.known_min_percentage,
            state.known_max_percentage,
            percentage_change(m.millis(), runtime),
        ));
        r
    }
}

impl System {
    /// Carries out one drive instruction on a motor's state. Stopping records
    /// the moment of the stop; an instruction that names neither a movement nor
    /// a target position is refused and changes nothing.
    pub fn handle_drive_cmd(state: &mut MotorState, runtime: u32, cmd: &DriveInstruction) -> (r:
        Result<(), Error>)
        ensures
            exists|t: Instant| (*final(state), r) == #[trigger] drive_step(*old(state), *cmd, t),
    {
        match cmd.movement {
            Some(mv) => {
                match mv {
                    CurrentMove::Stop => {
                        let now = instant_now();
                        state.last_change = Some(now);
                    },
                    CurrentMove::Up => {},
                    CurrentMove::Down => {},
                }
                state.state = mv;
                let ghost t: Instant = vstd::pervasive::arbitrary();
                if mv == CurrentMove::Stop {
                    assert((*state, Ok::<(), Error>(())) == drive_step(*old(state), *cmd, state.last_change->Some_0));
                } else {
                    assert((*state, Ok::<(), Error>(())) == drive_step(*old(state), *cmd, t));
                }
                Ok(())
            },
            None => {
                let ghost t: Instant = vstd::pervasive::arbitrary();
                if cmd.target_percentage.is_none() {
                    assert((*state, Err::<(), Error>(Error::BadCommand)) == drive_step(*old(state), *cmd, t));
                    return Err(Error::BadCommand);
                }
                assert((*state, Ok::<(), Error>(())) == drive_step(*old(state), *cmd, t));
                Ok(())
            },
        }
    }
}

/// A drive command keeps which motors are configured, their configurations,
/// and what is known of their positions.
pub open spec fn same_setup(before: Option<Motor>, after: Option<Motor>) -> bool {
    match before {
        None => after is None,
        Some(b) => after matches Some(a) && a.config == b.config && a.state.known_min_percentage
            == b.state.known_min_percentage && a.state.known_max_percentage
            == b.state.known_max_percentage,
    }
}

impl System {
    /// Carries out a drive command: when every instruction names a configured
    /// motor, the instructions are carried out in order up to the first that
    /// fails; otherwise nothing changes and the command is refused. An
    /// instruction's `motor` is the index of the motor it names.
    pub fn drive(&mut self, instr: &Vec<DriveInstruction>) -> (r: Result<(), Error>)
        ensures
            exists|times: Seq<Instant>|
                (final(self)@, r) == #[trigger] drive_outcome(old(self)@, instr@, times),
            final(self)@.len() == old(self)@.len(),
            forall|j: int|
                0 <= j < old(self)@.len() ==> same_setup(old(self)@[j], #[trigger] final(self)@[j]),
            well_formed(old(self)@) ==> well_formed(final(self)@),
    {
        let ghost start = self.motors@;
        let mut i: usize = 0;
        while i < instr.len()
            invariant
                i <= instr@.len(),
                self.motors@ == start,
                old(self)@ == start,
                forall|k: int|
                    0 <= k < i ==> (#[trigger] instr@[k]).motor < start.len()
                        && start[instr@[k].motor as int] is Some,
            decreases instr@.len() - i,
        {
            let idx = instr[i].motor as usize;
            if idx >= self.motors.len() || self.motors[idx].is_none() {
                let ghost t: Seq<Instant> = vstd::pervasive::arbitrary();
                assert((self.motors@, Err::<(), Error>(Error::InvalidMotorId)) == drive_outcome(start, instr@, t));
                assert forall|j: int| 0 <= j < start.len() implies same_setup(start[j], #[trigger] self.motors@[j]) by {}
                return Err(Error::InvalidMotorId);
            }
            i = i + 1;
        }
        assert(targets_configured(start, instr@));
        let ghost mut times: Seq<Instant> = Seq::empty();
        let mut i: usize = 0;
        while i < instr.len()
            invariant
                i <= instr@.len(),
                times.len() == i,
                old(self)@ == start,
                targets_configured(start, instr@),
                run_instructions(start, instr@.take(i as int), times) == (self.motors@, Ok::<(), Error>(())),
                self.motors@.len() == start.len(),
                forall|j: int| 0 <= j < start.len() ==> same_setup(start[j], #[trigger] self.motors@[j]),
            decreases instr@.len() - i,
        {
            let cmd = &instr[i];
            let idx = cmd.motor as usize;
            let ghost before = self.motors@;
            let mut slot: Option<Motor> = None;
            self.motors.set_and_swap(idx, &mut slot);
            let mut motor = match slot {
                Some(m) => m,
                None => {
                    assert(false);
                    return Err(Error::InvalidMotorId);
                },
            };
            let runtime = match motor.config.runtime_ms {
                Some(rt) => rt,
                None => 30000,
            };
            let ghost old_state = motor.state;
            let r = Self::handle_drive_cmd(&mut motor.state, runtime, cmd);
            let ghost t = choose|t: Instant| (motor.state, r) == #[trigger] drive_step(old_state, *cmd, t);
            let ghost new_times = times.push(t);
            proof {
                assert(instr@.take(i + 1).drop_last() =~= instr@.take(i as int));
                assert(run_instructions(start, instr@.take(i as int), new_times) == run_instructions(start, instr@.take(i as int), times)) by {
                    lemma_run_ignores_later_times(start, instr@.take(i as int), times, new_times);
                }
            }
            self.motors.set(idx, Some(motor));
            assert(self.motors@ =~= apply_instruction(before, *cmd, t).0);
            proof {
                times = new_times;
            }
            match r {
                Ok(()) => {},
                Err(e) => {
                    proof {
                        lemma_run_error_stays(start, instr@, times, i + 1);
                    }
                    assert((self@, Err::<(), Error>(e)) == drive_outcome(start, instr@, times));
                    return Err(e);
                },
            }
            i = i + 1;
        }
        assert(instr@.take(instr@.len() as int) =~= instr@);
        assert((self@, Ok::<(), Error>(())) == drive_outcome(start, instr@, times));
        Ok(())
    }
}

/// A drive command with one movement for a configured motor succeeds, and
/// afterwards that motor makes the movement; its configuration and known
/// position are kept, and every other motor is left as it was.
pub proof fn lemma_drive_one_movement(
    motors: Seq<Option<Motor>>,
    cmd: DriveInstruction,
    mv: CurrentMove,
    times: Seq<Instant>,
)
    requires
        cmd.motor < motors.len(),
        motors[cmd.motor as int] is Some,
        cmd.movement == Some(mv),
    ensures
        ({
            let (after, r) = drive_outcome(motors, seq![cmd], times);
            &&& r is Ok
            &&& after.len() == motors.len()
            &&& after[cmd.motor as int] matches Some(m) && m.state.state == mv && same_setup(
                motors[cmd.motor as int],
                after[cmd.motor as int],
            )
            &&& forall|j: int| 0 <= j < motors.len() && j != cmd.motor ==> after[j] == motors[j]
        }),
{
    let s = seq![cmd];
    assert(s.drop_last() =~= Seq::<DriveInstruction>::empty());
    assert(run_instructions(motors, s.drop_last(), times) == (motors, Ok::<(), Error>(())));
    assert(s.last() == cmd);
    assert(drive_outcome(motors, s, times) == apply_instruction(motors, cmd, times[0]));
}

proof fn lemma_run_ignores_later_times(
    motors: Seq<Option<Motor>>,
    instr: Seq<DriveInstruction>,
    times: Seq<Instant>,
    longer: Seq<Instant>,
)
    requires
        instr.len() <= times.len() <= longer.len(),
        forall|i: int| 0 <= i < times.len() ==> times[i] == longer[i],
    ensures
        run_instructions(motors, instr, times) == run_instructions(motors, instr, longer),
    decreases instr.len(),
{
    if instr.len() > 0 {
        lemma_run_ignores_later_times(motors, instr.drop_last(), times, longer);
    }
}

/// Setting up from configurations gives every configured identifier a motor,
/// reaches exactly up to the greatest identifier, and starts every motor the
/// same way: standing still, its configuration one of those given, nothing
/// known of its position (0 to 100 percent) and the moment of set-up recorded.
pub proof fn lemma_set_up_motors(motors: Seq<Option<Motor>>, configs: Seq<MotorConfig>)
    requires
        set_up_from(motors, configs),
        configs.len() > 0,
        forall|i: int| 0 <= i < configs.len() ==> (#[trigger] configs[i]).id >= 1,
    ensures
        forall|i: int|
            0 <= i < configs.len() ==> (#[trigger] configs[i]).id <= motors.len() && motors[configs[i].id
                - 1] is Some,
        exists|i: int| 0 <= i < configs.len() && (#[trigger] configs[i]).id == motors.len(),
        forall|j: int|
            0 <= j < motors.len() ==> (#[trigger] motors[j] matches Some(m) ==> {
                &&& m.config.id == j + 1
                &&& exists|i: int| 0 <= i < configs.len() && #[trigger] configs[i] == m.config
                &&& m.state.state == CurrentMove::Stop
                &&& m.state.known_min_percentage == 0
                &&& m.state.known_max_percentage == 100
                &&& m.state.last_change is Some
            }),
{
    assert forall|i: int| 0 <= i < configs.len() implies (#[trigger] configs[i]).id <= motors.len()
        && motors[configs[i].id - 1] is Some by {
        lemma_max_config_id_bounds(configs, i);
        lemma_last_config_found(configs, i);
        let j = configs[i].id - 1;
        assert(last_config_with_id(configs, j + 1) is Some);
    }
    lemma_max_config_id_attained(configs);
    assert forall|j: int| 0 <= j < motors.len() implies (#[trigger] motors[j] matches Some(m) ==> {
        &&& m.config.id == j + 1
        &&& exists|i: int| 0 <= i < configs.len() && #[trigger] configs[i] == m.config
        &&& m.state.state == CurrentMove::Stop
        &&& m.state.known_min_percentage == 0
        &&& m.state.known_max_percentage == 100
        &&& m.state.last_change is Some
    }) by {
        lemma_last_config_id(configs, j + 1);
        lemma_last_config_member(configs, j + 1);
    }
}

proof fn lemma_last_config_found(configs: Seq<MotorConfig>, i: int)
    requires
        0 <= i < configs.len(),
    ensures
        last_config_with_id(configs, configs[i].id as int) is Some,
    decreases configs.len(),
{
    if i < configs.len() - 1 && configs.last().id != configs[i].id {
        lemma_last_config_found(configs.drop_last(), i);
    }
}

proof fn lemma_last_config_member(configs: Seq<MotorConfig>, id: int)
    ensures
        last_config_with_id(configs, id) matches Some(c) ==> exists|i: int|
            0 <= i < configs.len() && #[trigger] configs[i] == c,
    decreases configs.len(),
{
    if configs.len() > 0 {
        lemma_last_config_member(configs.drop_last(), id);
        if configs.last().id == id {
            assert(configs[configs.len() - 1] == configs.last());
        } else if last_config_with_id(configs, id) is Some {
            let c = last_config_with_id(configs, id)->Some_0;
            let i = choose|i: int| 0 <= i < configs.drop_last().len() && #[trigger] configs.drop_last()[i] == c;
            assert(configs[i] == c);
        }
    }
}

proof fn lemma_max_config_id_attained(configs: Seq<MotorConfig>)
    requires
        configs.len() > 0,
        forall|i: int| 0 <= i < configs.len() ==> (#[trigger] configs[i]).id >= 1,
    ensures
        exists|i: int| 0 <= i < configs.len() && (#[trigger] configs[i]).id == max_config_id(configs),
    decreases configs.len(),
{
    if configs.len() == 1 {
        assert(configs.drop_last().len() == 0);
        assert(max_config_id(configs.drop_last()) == 0);
        assert(configs[0] == configs.last());
        assert(configs[0].id >= 1);
        assert(max_config_id(configs) == configs[0].id);
    } else {
        let s = configs.drop_last();
        assert forall|i: int| 0 <= i < s.len() implies (#[trigger] s[i]).id >= 1 by {
            assert(s[i] == configs[i]);
        }
        lemma_max_config_id_attained(s);
        if configs.last().id > max_config_id(s) {
            assert(configs[configs.len() - 1] == configs.last());
            assert(max_config_id(configs) == configs[configs.len() - 1].id);
        } else {
            let i = choose|i: int| 0 <= i < s.len() && (#[trigger] s[i]).id == max_config_id(s);
            assert(configs[i] == s[i]);
            assert(max_config_id(configs) == configs[i].id);
        }
    }
}

proof fn lemma_max_config_id_bounds(configs: Seq<MotorConfig>, i: int)
    requires
        0 <= i < configs.len(),
    ensures
        configs[i].id <= max_config_id(configs),
    decreases configs.len(),
{
    if i < configs.len() - 1 {
        lemma_max_config_id_bounds(configs.drop_last(), i);
    }
}

proof fn lemma_last_config_id(configs: Seq<MotorConfig>, id: int)
    ensures
        last_config_with_id(configs, id) matches Some(c) ==> c.id == id,
    decreases configs.len(),
{
    if configs.len() > 0 {
        lemma_last_config_id(configs.drop_last(), id);
    }
}

} // verus!

verus! {

/// Answers a command message: the system state for a state request, the
/// status of the drive for a drive command. A message that carries no command
/// is refused, and the system is left as it was.
pub fn handle_cmd(cmd_msg: &Message, sys: &mut System) -> (r: Result<Message, Error>)
    ensures
        command_of(*cmd_msg) matches Err(e) ==> r == Err::<Message, Error>(e) && final(sys)@ == old(sys)@,
        command_of(*cmd_msg) matches Ok((Command::GetState, _)) ==> {
            &&& final(sys)@ == old(sys)@
            &&& r matches Ok(m)
            &&& is_state_answer(m, reported_motors(old(sys)@))
        },
        command_of(*cmd_msg) matches Ok((Command::Drive, instr)) ==> exists|times: Seq<Instant>|
            {
                &&& final(sys)@ == (#[trigger] drive_outcome(old(sys)@, instr, times)).0
                &&& r == Ok::<Message, Error>(status_answer(drive_outcome(old(sys)@, instr, times).1))
            },
        well_formed(old(sys)@) ==> well_formed(final(sys)@),
{
    let cmd = match parse_cmd(cmd_msg) {
        Ok(c) => c,
        Err(e) => {
            return Err(e);
        },
    };
    match cmd.cmd {
        Command::GetState => {
            let state = sys.get_state();
            Ok(build_get_state_answer(state.as_slice()))
        },
        Command::Drive => {
            let status = sys.drive(&cmd.instructions);
            let ghost times = choose|times: Seq<Instant>|
                (sys@, status) == #[trigger] drive_outcome(old(sys)@, cmd.instructions@, times);
            let answer = build_status_answer(&status);
            let ghost instr = command_of(*cmd_msg)->Ok_0.1;
            assert(sys@ == drive_outcome(old(sys)@, instr, times).0);
            assert(answer == status_answer(drive_outcome(old(sys)@, instr, times).1));
            Ok(answer)
        },
    }
}

} // verus!

verus! {

/// The message the daemon sends back for a received command message: the
/// answer to the command, or, where the message carries no command, the
/// status that reports why.
pub fn reply(cmd_msg: &Message, sys: &mut System) -> (answer: Message)
    ensures
        command_of(*cmd_msg) matches Err(e) ==> answer == status_answer(Err(e)) && final(sys)@
            == old(sys)@,
        command_of(*cmd_msg) matches Ok((Command::GetState, _)) ==> {
            &&& final(sys)@ == old(sys)@
            &&& is_state_answer(answer, reported_motors(old(sys)@))
        },
        command_of(*cmd_msg) matches Ok((Command::Drive, instr)) ==> exists|times: Seq<Instant>|
            {
                &&& final(sys)@ == (#[trigger] drive_outcome(old(sys)@, instr, times)).0
                &&& answer == status_answer(drive_outcome(old(sys)@, instr, times).1)
            },
        well_formed(old(sys)@) ==> well_formed(final(sys)@),
{
    match handle_cmd(cmd_msg, sys) {
        Ok(answer) => answer,
        Err(e) => build_status_answer(&Err(e)),
    }
}

} // verus!

verus! {

/// The moments of the instructions after the first `n`, renumbered from 0.
pub open spec fn later_times(times: Seq<Instant>, n: int, len: int) -> Seq<Instant> {
    Seq::new(len as nat, |k: int| times[n + k])
}

proof fn lemma_run_concat(
    motors: Seq<Option<Motor>>,
    a: Seq<DriveInstruction>,
    b: Seq<DriveInstruction>,
    times: Seq<Instant>,
)
    ensures
        run_instructions(motors, a + b, times) == if run_instructions(motors, a, times).1 is Err {
            run_instructions(motors, a, times)
        } else {
            run_instructions(
                run_instructions(motors, a, times).0,
                b,
                later_times(times, a.len() as int, b.len() as int),
            )
        },
    decreases b.len(),
{
    if b.len() == 0 {
        assert(a + b =~= a);
    } else {
        assert((a + b).drop_last() =~= a + b.drop_last());
        assert((a + b).last() == b.last());
        lemma_run_concat(motors, a, b.drop_last(), times);
        let lt = later_times(times, a.len() as int, b.len() as int);
        let lt2 = later_times(times, a.len() as int, b.len() - 1);
        if run_instructions(motors, a, times).1 is Ok {
            let mid = run_instructions(motors, a, times).0;
            lemma_run_ignores_later_times(mid, b.drop_last(), lt2, lt);
            assert(lt[b.len() - 1] == times[(a + b).len() - 1]);
        }
    }
}

/// Carrying out a drive command is carrying out its instructions one after
/// another: the instructions of `a + b` are those of `a`, and, unless one of
/// them fails, then those of `b` on the motors as `a` left them.
pub proof fn lemma_drive_concat(
    motors: Seq<Option<Motor>>,
    a: Seq<DriveInstruction>,
    b: Seq<DriveInstruction>,
    times: Seq<Instant>,
)
    requires
        targets_configured(motors, a + b),
    ensures
        targets_configured(motors, a),
        drive_outcome(motors, a + b, times) == if drive_outcome(motors, a, times).1 is Err {
            drive_outcome(motors, a, times)
        } else {
            drive_outcome(
                drive_outcome(motors, a, times).0,
                b,
                later_times(times, a.len() as int, b.len() as int),
            )
        },
{
    assert forall|i: int| 0 <= i < a.len() implies (#[trigger] a[i]).motor < motors.len()
        && motors[a[i].motor as int] is Some by {
        assert((a + b)[i] == a[i]);
    }
    lemma_run_concat(motors, a, b, times);
    if drive_outcome(motors, a, times).1 is Ok {
        let mid = run_instructions(motors, a, times).0;
        lemma_run_keeps_setup(motors, a, times);
        assert forall|i: int| 0 <= i < b.len() implies (#[trigger] b[i]).motor < mid.len()
            && mid[b[i].motor as int] is Some by {
            assert((a + b)[a.len() + i] == b[i]);
        }
    }
}

/// Carrying out instructions keeps which motors are configured, their
/// configurations and what is known of their positions.
pub proof fn lemma_run_keeps_setup(
    motors: Seq<Option<Motor>>,
    instr: Seq<DriveInstruction>,
    times: Seq<Instant>,
)
    requires
        targets_configured(motors, instr),
    ensures
        run_instructions(motors, instr, times).0.len() == motors.len(),
        forall|j: int|
            0 <= j < motors.len() ==> same_setup(
                motors[j],
                #[trigger] run_instructions(motors, instr, times).0[j],
            ),
    decreases instr.len(),
{
    if instr.len() > 0 {
        let s = instr.drop_last();
        assert forall|k: int| 0 <= k < s.len() implies (#[trigger] s[k]).motor < motors.len()
            && motors[s[k].motor as int] is Some by {
            assert(s[k] == instr[k]);
        }
        lemma_run_keeps_setup(motors, s, times);
        let before = run_instructions(motors, s, times).0;
        let idx = instr.last().motor as int;
        assert(instr.last() == instr[instr.len() - 1]);
        assert(same_setup(motors[idx], before[idx]));
    }
}

/// After a command whose instructions all succeed, a motor that an
/// instruction with a movement names last makes that movement: a later
/// instruction for the same motor overrides an earlier one.
pub proof fn lemma_drive_last_movement_wins(
    motors: Seq<Option<Motor>>,
    instr: Seq<DriveInstruction>,
    times: Seq<Instant>,
    i: int,
    mv: CurrentMove,
)
    requires
        targets_configured(motors, instr),
        drive_outcome(motors, instr, times).1 is Ok,
        0 <= i < instr.len(),
        instr[i].movement == Some(mv),
        forall|k: int| i < k < instr.len() ==> (#[trigger] instr[k]).motor != instr[i].motor,
    ensures
        drive_outcome(motors, instr, times).0[instr[i].motor as int] matches Some(m)
            && m.state.state == mv,
    decreases instr.len(),
{
    let idx = instr[i].motor as int;
    lemma_run_keeps_setup(motors, instr.drop_last(), times);
    let (before, r) = run_instructions(motors, instr.drop_last(), times);
    assert(r is Ok);
    if i == instr.len() - 1 {
        assert(instr.last() == instr[i]);
    } else {
        assert forall|k: int| 0 <= k < instr.drop_last().len() implies (#[trigger] instr.drop_last()[k]).motor
            < motors.len() && motors[instr.drop_last()[k].motor as int] is Some by {
            assert(instr.drop_last()[k] == instr[k]);
        }
        assert forall|k: int| i < k < instr.drop_last().len() implies (#[trigger] instr.drop_last()[k]).motor
            != instr.drop_last()[i].motor by {
            assert(instr.drop_last()[k] == instr[k]);
        }
        lemma_drive_last_movement_wins(motors, instr.drop_last(), times, i, mv);
        assert(instr.last().motor != instr[i].motor);
    }
}

} // verus!

verus! {

/// The slot holds a configured motor.
pub open spec fn is_configured(o: Option<Motor>) -> bool {
    o is Some
}

/// The report lists every configured motor, stripped, in the order of the
/// slots, and nothing else: it is the configured slots with their motors
/// stripped.
pub proof fn lemma_reported_motors_are_configured(motors: Seq<Option<Motor>>)
    ensures
        reported_motors(motors) == motors.filter(|o: Option<Motor>| is_configured(o)).map_values(
            |o: Option<Motor>| stripped_motor(o->Some_0),
        ),
    decreases motors.len(),
{
    reveal(Seq::filter);
    let f = |o: Option<Motor>| is_configured(o);
    let g = |o: Option<Motor>| stripped_motor(o->Some_0);
    if motors.len() == 0 {
        assert(motors.filter(f) =~= Seq::<Option<Motor>>::empty());
        assert(motors.filter(f).map_values(g) =~= Seq::<Motor>::empty());
    } else {
        lemma_reported_motors_are_configured(motors.drop_last());
        let sub = motors.drop_last().filter(f);
        if motors.last() is Some {
            assert(motors.filter(f) == sub.push(motors.last()));
            assert(sub.push(motors.last()).map_values(g) =~= sub.map_values(g).push(
                stripped_motor(motors.last()->Some_0),
            ));
        } else {
            assert(motors.filter(f) == sub);
        }
    }
}

/// Adding a configured slot adds its stripped motor at the end of the report;
/// adding an empty slot leaves the report as it was.
pub proof fn lemma_reported_motors_push(motors: Seq<Option<Motor>>, o: Option<Motor>)
    ensures
        reported_motors(motors.push(o)) == match o {
            Some(m) => reported_motors(motors).push(stripped_motor(m)),
            None => reported_motors(motors),
        },
{
    assert(motors.push(o).drop_last() =~= motors);
}

} // verus!

verus! {

/// Within the ranges where nothing is capped, a motor moves by the hundredfold
/// of the elapsed time divided by its run time, in whole percent; a run time
/// of 0 counts as 1 millisecond, and a movement of more than 255 percent
/// counts as 100.
pub proof fn lemma_percentage_change_exact(ms_elapsed: u128, runtime: u32)
    requires
        ms_elapsed * 100 <= u32::MAX,
    ensures
        runtime >= 1 && ms_elapsed * 100 / (runtime as int) <= 255 ==> percentage_change(
            ms_elapsed,
            runtime,
        ) == ms_elapsed * 100 / (runtime as int),
        runtime >= 1 && ms_elapsed * 100 / (runtime as int) > 255 ==> percentage_change(
            ms_elapsed,
            runtime,
        ) == 100,
        runtime == 0 ==> percentage_change(ms_elapsed, runtime) == if ms_elapsed * 100 <= 255 {
            ms_elapsed * 100
        } else {
            100
        },
{
}

/// Moving up by `change` percent raises the lower bound by `change`, to 100 at
/// most, and the upper bound to at least the lower; moving down by `change`
/// lowers the upper bound by `change`, to 0 at least, and the lower bound to at
/// most the upper.
pub proof fn lemma_moved_position_exact(min: u8, max: u8, change: u8)
    ensures
        moved_position(CurrentMove::Up, min, max, change).0 == if min + change <= 100 {
            min + change
        } else {
            100
        },
        moved_position(CurrentMove::Up, min, max, change).1 == if moved_position(
            CurrentMove::Up,
            min,
            max,
            change,
        ).0 > max {
            moved_position(CurrentMove::Up, min, max, change).0 as int
        } else {
            max as int
        },
        moved_position(CurrentMove::Down, min, max, change).1 == if max >= change {
            max - change
        } else {
            0
        },
        moved_position(CurrentMove::Down, min, max, change).0 == if moved_position(
            CurrentMove::Down,
            min,
            max,
            change,
        ).1 < min {
            moved_position(CurrentMove::Down, min, max, change).1 as int
        } else {
            min as int
        },
{
}

} // verus!

verus! {

/// An instruction with a movement always succeeds and makes the motor take
/// that movement, keeping what is known of its position; a stop records its
/// moment and any other movement keeps the recorded one. An instruction
/// without a movement changes nothing, and fails with `BadCommand` exactly
/// when it names no target position either.
pub proof fn lemma_drive_step_effect(s: MotorState, cmd: DriveInstruction, now: Instant)
    ensures
        cmd.movement matches Some(mv) ==> {
            let (n, r) = drive_step(s, cmd, now);
            &&& r is Ok
            &&& n.state == mv
            &&& n.known_min_percentage == s.known_min_percentage
            &&& n.known_max_percentage == s.known_max_percentage
            &&& n.last_change == if mv == CurrentMove::Stop {
                Some(now)
            } else {
                s.last_change
            }
        },
        cmd.movement is None ==> drive_step(s, cmd, now).0 == s && (drive_step(s, cmd, now).1
            is Err <==> cmd.target_percentage is None) && (drive_step(s, cmd, now).1 is Err
            ==> drive_step(s, cmd, now).1 == Err::<(), Error>(Error::BadCommand)),
{
}

} // verus!
